use mocker::generator::{CellValue, ColumnData, GeneratorError, GeneratorImpl};
use mocker::generators::tsql::{write_table, TsqlGenerator};
use mocker::parser::config::{Argument, Column, ColumnType, Provider};

const ROW_COUNT: usize = 10;
const TABLE_NAME: &str = "test_table";

struct Setup {
    data_1: Vec<String>,
    data_2: Vec<String>,
    column_1: ColumnData,
    column_2: ColumnData,
    column_data: Vec<ColumnData>,
}

fn column(name: &str, values: &Vec<String>) -> ColumnData {
    ColumnData {
        name: name.to_string(),
        kind: ColumnType::String(10),
        data: values.iter().map(|value| CellValue::String(value.clone())).collect(),
    }
}

fn setup() -> Setup {
    let data_1 = vec![
        "Data1".to_string(),
        "Data2".to_string(),
        "Data3".to_string(),
        "Data4".to_string(),
        "Data5".to_string(),
        "Data6".to_string(),
        "Data7".to_string(),
        "Data8".to_string(),
        "Data9".to_string(),
        "Data10".to_string(),
    ];
    let data_2 = vec![
        "Data11".to_string(),
        "Data12".to_string(),
        "Data13".to_string(),
        "Data14".to_string(),
        "Data15".to_string(),
        "Data16".to_string(),
        "Data17".to_string(),
        "Data18".to_string(),
        "Data19".to_string(),
        "Data20".to_string(),
    ];
    let column_1 = column("test_column_1", &data_1);
    let column_2 = column("test_column_2", &data_2);
    let column_data = vec![column("test_column_1", &data_1), column("test_column_2", &data_2)];
    Setup { data_1, data_2, column_1, column_2, column_data }
}

#[test]
fn test_generate_columns_generates_the_correct_column_layout() -> Result<(), GeneratorError> {
    let setup = setup();

    let mut sut = TsqlGenerator::new()?;
    sut.init(TABLE_NAME.to_string(), ROW_COUNT)?;

    sut.generate_columns(&setup.column_data)?;

    assert_eq!(
        format!(
            "insert into {} ({}, {}) values ",
            TABLE_NAME, setup.column_1.name, setup.column_2.name,
        ),
        sut.columns,
    );

    Ok(())
}

#[test]
fn test_generate_row_generates_the_correct_output_row() -> Result<(), GeneratorError> {
    let setup = setup();
    let columns = format!(
        "insert into {} ({}, {}) values ",
        TABLE_NAME, setup.column_1.name, setup.column_2.name,
    );

    let mut sut = TsqlGenerator::new()?;
    sut.init(TABLE_NAME.to_string(), ROW_COUNT)?;

    sut.columns = columns.clone();

    sut.generate_row(&vec![&setup.column_1.data[0], &setup.column_2.data[0]])?;

    let output = sut.take_output();

    assert_eq!(
        format!("{}('{}', '{}');\n", columns.clone(), setup.data_1[0], setup.data_2[0]),
        output,
    );

    Ok(())
}

#[test]
fn generate_writes_every_row() {
    let setup = setup();
    let mut sut = TsqlGenerator::new().unwrap();
    sut.init(TABLE_NAME.to_string(), ROW_COUNT).unwrap();
    sut.generate(setup.column_data).unwrap();
    let output = sut.take_output();
    let lines: Vec<&str> = output.lines().collect();
    assert_eq!(ROW_COUNT, lines.len());
    assert!(output.ends_with(";\n"));
    for (row, line) in lines.iter().enumerate() {
        assert_eq!(
            format!(
                "insert into test_table (test_column_1, test_column_2) values ('Data{}', 'Data{}');",
                row + 1,
                row + 11
            ),
            *line
        );
    }
    assert_eq!("", sut.take_output());
}

#[test]
fn generate_needs_a_table_first() {
    let mut sut = TsqlGenerator::new().unwrap();
    assert_eq!(Err(GeneratorError::Uninitialized), sut.generate(setup().column_data));
    assert_eq!(Err(GeneratorError::Uninitialized), sut.generate(vec![]));
    assert_eq!(Err(GeneratorError::Uninitialized), sut.write_to_output("x".to_string()));
    assert_eq!(
        Err(GeneratorError::Uninitialized),
        sut.generate_row(&vec![&CellValue::Int(1)])
    );
    assert_eq!("", sut.take_output());
}

#[test]
fn generate_refuses_columns_that_are_too_short() {
    let mut sut = TsqlGenerator::new().unwrap();
    sut.init("t".to_string(), 11).unwrap();
    assert!(matches!(sut.generate(setup().column_data), Err(GeneratorError::Write(_))));
    assert_eq!("", sut.output);
    assert!(matches!(sut.generate(vec![]), Err(GeneratorError::Write(_))));
    assert!(matches!(sut.generate_row(&vec![]), Err(GeneratorError::Write(_))));
    sut.init("t".to_string(), 0).unwrap();
    assert_eq!(Ok(()), sut.generate(vec![]));
    assert_eq!("", sut.take_output());
}

#[test]
fn values_are_written_by_their_kind() {
    let mut sut = TsqlGenerator::new().unwrap();
    assert_eq!(Ok("-12".to_string()), sut.format_cell_value(&CellValue::Int(-12)));
    assert_eq!(
        Ok("-9223372036854775808".to_string()),
        sut.format_cell_value(&CellValue::Int(i64::MIN))
    );
    assert_eq!(
        Ok("18446744073709551615".to_string()),
        sut.format_cell_value(&CellValue::UnsignedInt(u64::MAX))
    );
    assert_eq!(Ok("0".to_string()), sut.format_cell_value(&CellValue::UnsignedInt(0)));
    assert_eq!(Ok("2.5".to_string()), sut.format_cell_value(&CellValue::Float(2.5f64.to_string())));
    assert_eq!(
        Ok("'it's'".to_string()),
        sut.format_cell_value(&CellValue::String("it's".to_string()))
    );
    assert_eq!(Ok("1".to_string()), sut.format_cell_value(&CellValue::Boolean(true)));
    assert_eq!(Ok("0".to_string()), sut.format_cell_value(&CellValue::Boolean(false)));
}

#[test]
fn a_table_is_written_in_one_go() {
    let data = vec![
        ColumnData {
            name: "id".to_string(),
            kind: ColumnType::UnsignedInt,
            data: vec![CellValue::UnsignedInt(1), CellValue::UnsignedInt(2), CellValue::UnsignedInt(3)],
        },
        ColumnData {
            name: "ok".to_string(),
            kind: ColumnType::Boolean,
            data: vec![CellValue::Boolean(true), CellValue::Boolean(false), CellValue::Boolean(true)],
        },
    ];
    assert_eq!(
        Ok("insert into t (id, ok) values (1, 1);\ninsert into t (id, ok) values (2, 0);\n"
            .to_string()),
        write_table("t".to_string(), 2, data)
    );
    assert!(matches!(write_table("t".to_string(), 1, vec![]), Err(GeneratorError::Write(_))));
    assert_eq!(Ok(String::new()), write_table("t".to_string(), 0, vec![]));
}

#[test]
fn values_fit_columns_of_their_type() {
    let column = |kind: ColumnType| {
        Column::new("c".to_string(), kind, vec![], Provider::new("row".to_string(), vec![]))
    };
    let eleven = CellValue::String("abcdefghijk".to_string());
    let ten = CellValue::String("ÄÖÜäöüßabc".to_string());
    assert!(!column(ColumnType::String(10)).compatible_with_cell_value(&eleven));
    assert!(column(ColumnType::String(10)).compatible_with_cell_value(&ten));
    assert!(column(ColumnType::String(11)).compatible_with_cell_value(&eleven));
    assert!(column(ColumnType::Float).compatible_with_cell_value(&CellValue::Int(1)));
    assert!(!column(ColumnType::Int).compatible_with_cell_value(&CellValue::Boolean(true)));
    assert!(column(ColumnType::Int).compatible_with_cell_value(&CellValue::Int(1)));
    assert!(column(ColumnType::UnsignedInt).compatible_with_cell_value(&CellValue::UnsignedInt(1)));
    assert!(!column(ColumnType::Int).compatible_with_cell_value(&CellValue::UnsignedInt(1)));
    assert!(!column(ColumnType::UnsignedInt).compatible_with_cell_value(&CellValue::Int(1)));
    assert!(column(ColumnType::Boolean).compatible_with_cell_value(&CellValue::Boolean(false)));
    assert!(!column(ColumnType::Float)
        .compatible_with_cell_value(&CellValue::Float("1.5".to_string())));
    assert!(!column(ColumnType::String(10)).compatible_with_cell_value(&CellValue::Int(1)));
    assert!(ColumnType::String(0).accepts(&CellValue::String(String::new())));
}

#[test]
fn values_come_from_arguments_unchanged() {
    assert_eq!(CellValue::Int(-3), CellValue::from(&Argument::Int(-3)));
    assert_eq!(
        CellValue::Float("0.25".to_string()),
        CellValue::from(&Argument::Float("0.25".to_string()))
    );
    assert_eq!(
        CellValue::String("a b".to_string()),
        CellValue::from(&Argument::String("a b".to_string()))
    );
    assert_eq!(CellValue::Boolean(true), CellValue::from(&Argument::Boolean(true)));
    assert_eq!(CellValue::Int(4), CellValue::Int(4).clone());
    assert_eq!(Argument::String("x".to_string()), Argument::String("x".to_string()).clone());
}

#[test]
fn values_describe_themselves() {
    assert_eq!("int[-5]", CellValue::Int(-5).text());
    assert_eq!("uint[5]", CellValue::UnsignedInt(5).text());
    assert_eq!("float[1.5]", CellValue::Float("1.5".to_string()).text());
    assert_eq!("bool[true]", CellValue::Boolean(true).text());
    assert_eq!("bool[false]", CellValue::Boolean(false).text());
    assert_eq!("string[abc]", CellValue::String("abc".to_string()).text());
    assert_eq!("int", ColumnType::Int.text());
    assert_eq!("uint", ColumnType::UnsignedInt.text());
    assert_eq!("float", ColumnType::Float.text());
    assert_eq!("bool", ColumnType::Boolean.text());
    assert_eq!("string(10)", ColumnType::String(10).text());
    assert_eq!("uninitialized generator", GeneratorError::Uninitialized.message());
    assert_eq!(
        "something went wrong while writing data to the output file: disk full",
        GeneratorError::Write("disk full".to_string()).message()
    );
}
