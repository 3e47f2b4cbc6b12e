use mocker::arguments::{validate_output_type, Args};
use mocker::generator::{CellValue, ColumnData, GeneratorError, GeneratorImpl};
use mocker::mocker::{check_cell, extension_for, fill_column, Mocker, MockerError};
use mocker::parser::config::{Argument, Column, ColumnType, Provider};
use mocker::parser::errors::ParserError;
use mocker::provider::{ProviderCreationData, ProviderError, ProviderImpl};
use mocker::providers::first_name::FirstNameProvider;
use mocker::providers::gender::GenderProvider;
use mocker::providers::number::NumberProvider;
use mocker::providers::random::RandomProvider;
use mocker::providers::row::RowProvider;
use mocker::providers::AnyProvider;
use mocker::random::Randomness;
use mocker::registry::registrars::{
    register_generators, register_providers, GeneratorKind, ProviderKind,
};
use mocker::registry::{Creator, Registry, RegistryError};
use mocker::text::{i64_text, parse_int, split_lines, u64_text, usize_text};

fn args(row_count: usize, format: &str) -> Args {
    Args {
        row_count,
        format: format.to_string(),
        output: "out".to_string(),
        config: "tables.mock".to_string(),
    }
}

#[test]
fn two_text_columns_make_two_statements() {
    let args = args(2, "tsql");
    let mocker = Mocker::new(&args);
    let config = mocker
        .parse_config("table people {\n first string #first_name(),\n sex string #gender(true)\n}".to_string())
        .unwrap();
    let data = mocker
        .generate_mock_data(config, Randomness::Stepped, Ok("Ann\nBob\r\nCid\n".to_string()))
        .unwrap();
    assert_eq!(1, data.len());
    assert_eq!("people", data[0].0);
    assert_eq!(2, data[0].1.len());
    assert_eq!(
        vec![CellValue::String("Ann".to_string()), CellValue::String("Ann".to_string())],
        data[0].1[0].data
    );
    let files = mocker.write_mock_data(data).unwrap();
    assert_eq!(1, files.len());
    assert_eq!("people.sql", files[0].name);
    assert_eq!(
        "insert into people (first, sex) values ('Ann', 'FEMALE');\ninsert into people (first, sex) values ('Ann', 'FEMALE');\n",
        files[0].content
    );
}

#[test]
fn every_table_gets_its_file() {
    let args = args(3, "tsql");
    let mocker = Mocker::new(&args);
    let config = mocker
        .parse_config(
            "table a { id uint #row(), n int #number(4, 4) } table b { id uint #row() $primary() }"
                .to_string(),
        )
        .unwrap();
    let data = mocker.generate_mock_data(config, Randomness::Process, Err("none".to_string())).unwrap();
    let files = mocker.write_mock_data(data).unwrap();
    assert_eq!(2, files.len());
    assert_eq!("a.sql", files[0].name);
    assert_eq!(
        "insert into a (id, n) values (1, 4);\ninsert into a (id, n) values (2, 4);\ninsert into a (id, n) values (3, 4);\n",
        files[0].content
    );
    assert_eq!("b.sql", files[1].name);
    assert_eq!(
        "insert into b (id) values (1);\ninsert into b (id) values (2);\ninsert into b (id) values (3);\n",
        files[1].content
    );
}

#[test]
fn values_must_fit_their_columns() {
    let args = args(2, "tsql");
    let mocker = Mocker::new(&args);
    let config = mocker.parse_config("table t { id int #row() }".to_string()).unwrap();
    let result = mocker.generate_mock_data(config, Randomness::Stepped, Err(String::new()));
    assert!(matches!(
        result,
        Err(MockerError::Provider(ProviderError::IncompatibleType(
            ColumnType::Int,
            CellValue::UnsignedInt(1)
        )))
    ));
    assert_eq!(Ok(CellValue::Int(3)), check_cell(ColumnType::Float, CellValue::Int(3)));
    assert_eq!(
        Err(ProviderError::IncompatibleType(ColumnType::Int, CellValue::Boolean(true))),
        check_cell(ColumnType::Int, CellValue::Boolean(true))
    );
}

#[test]
fn failures_of_a_run_are_passed_on() {
    let args = args(2, "csv");
    let mocker = Mocker::new(&args);
    assert_eq!(Some(ParserError::NoProvider), mocker.parse_config("table t { a int }".to_string()).err());
    let config = mocker.parse_config("table t { a int #nothing() }".to_string()).unwrap();
    assert!(matches!(
        mocker.generate_mock_data(config, Randomness::Stepped, Err(String::new())),
        Err(MockerError::ProviderRegistry(RegistryError::UnknownCreator(name))) if name == "nothing"
    ));
    let config = mocker.parse_config("table t { a string #first_name() }".to_string()).unwrap();
    assert!(matches!(
        mocker.generate_mock_data(config, Randomness::Stepped, Err("no file".to_string())),
        Err(MockerError::ProviderRegistry(RegistryError::CreationError(ProviderError::Unknown(reason))))
            if reason == "no file"
    ));
    let config = mocker.parse_config("table t { a string #random(\"x\") }".to_string()).unwrap();
    assert!(matches!(
        mocker.generate_mock_data(config, Randomness::Stepped, Err(String::new())),
        Err(MockerError::Provider(ProviderError::TooFewArguments(1, 2)))
    ));
    assert!(matches!(
        mocker.write_mock_data(vec![]),
        Err(MockerError::GeneratorRegistry(RegistryError::UnknownCreator(name))) if name == "csv"
    ));
}

fn column_with(kind: ColumnType, provider: &str, arguments: Vec<Argument>) -> Column {
    Column::new(
        "c".to_string(),
        kind,
        vec![],
        Provider::new(provider.to_string(), arguments),
    )
}

#[test]
fn a_column_is_drawn_from_its_provider() {
    let data = ProviderCreationData {
        row_count: 3,
        randomness: Randomness::Stepped,
        first_names: Ok("Ann\nBob".to_string()),
    };
    let mut row = AnyProvider::Row(RowProvider::new(&data).unwrap());
    let ids = column_with(ColumnType::UnsignedInt, "row", vec![Argument::Int(7)]);
    let filled = fill_column(&mut row, &ids, 3).unwrap();
    assert_eq!("c", filled.name);
    assert_eq!(ColumnType::UnsignedInt, filled.kind);
    assert_eq!(
        vec![CellValue::UnsignedInt(1), CellValue::UnsignedInt(2), CellValue::UnsignedInt(3)],
        filled.data
    );
    let again = fill_column(&mut row, &ids, 2).unwrap();
    assert_eq!(vec![CellValue::UnsignedInt(1), CellValue::UnsignedInt(2)], again.data);

    let mut number = AnyProvider::Number(NumberProvider::new(&data).unwrap());
    let bad = column_with(ColumnType::Int, "number", vec![Argument::Boolean(true)]);
    assert_eq!(
        Some(ProviderError::UnexpectedArgument("true".to_string(), "int".to_string())),
        fill_column(&mut number, &bad, 3).err()
    );
    let narrow = column_with(ColumnType::Int, "number", vec![Argument::Int(4), Argument::Int(4)]);
    let fours = fill_column(&mut number, &narrow, 2).unwrap();
    assert_eq!(vec![CellValue::Int(4), CellValue::Int(4)], fours.data);
    let empty = column_with(ColumnType::Int, "number", vec![Argument::Int(5), Argument::Int(4)]);
    assert!(matches!(fill_column(&mut number, &empty, 1), Err(ProviderError::Unknown(_))));
}

#[test]
fn a_column_without_rows_needs_a_good_reset_only() {
    let data = ProviderCreationData {
        row_count: 0,
        randomness: Randomness::Stepped,
        first_names: Ok(String::new()),
    };
    let mut row = AnyProvider::Row(RowProvider::new(&data).unwrap());
    let wrong_type = column_with(ColumnType::Boolean, "row", vec![]);
    let filled = fill_column(&mut row, &wrong_type, 0).unwrap();
    assert_eq!("c", filled.name);
    assert_eq!(ColumnType::Boolean, filled.kind);
    assert!(filled.data.is_empty());

    let mut names = AnyProvider::FirstName(FirstNameProvider::new(&data).unwrap());
    let with_arguments = column_with(ColumnType::String(5), "first_name", vec![Argument::Int(1)]);
    assert!(fill_column(&mut names, &with_arguments, 0).unwrap().data.is_empty());
    assert!(matches!(fill_column(&mut names, &with_arguments, 1), Err(ProviderError::Unknown(_))));

    let mut random = AnyProvider::Random(RandomProvider::new(&data).unwrap());
    let one = column_with(ColumnType::Int, "random", vec![Argument::Int(1)]);
    assert_eq!(Some(ProviderError::TooFewArguments(1, 2)), fill_column(&mut random, &one, 0).err());
    let two = column_with(ColumnType::Int, "random", vec![Argument::Int(1), Argument::Int(2)]);
    assert!(fill_column(&mut random, &two, 0).unwrap().data.is_empty());

    let mut gender = AnyProvider::Gender(GenderProvider::new(&data).unwrap());
    let long = column_with(ColumnType::String(9), "gender", vec![Argument::Boolean(true)]);
    assert!(fill_column(&mut gender, &long, 0).unwrap().data.is_empty());
    let not_asked = column_with(ColumnType::String(9), "gender", vec![Argument::Int(1)]);
    assert_eq!(
        Some(ProviderError::UnexpectedArgument("1".to_string(), "Boolean".to_string())),
        fill_column(&mut gender, &not_asked, 0).err()
    );
}

#[test]
fn a_reset_that_is_left_to_itself_changes_nothing() {
    let data = ProviderCreationData {
        row_count: 2,
        randomness: Randomness::Stepped,
        first_names: Ok("Ann\nBob".to_string()),
    };
    let mut sut = FirstNameProvider::new(&data).unwrap();
    assert_eq!(Ok(()), sut.reset(&vec![]));
    assert_eq!(Ok(()), sut.reset(&vec![Argument::Int(3), Argument::String("x".to_string())]));
    assert_eq!(vec!["Ann".to_string(), "Bob".to_string()], sut.items);
    assert_eq!(Ok(CellValue::String("Ann".to_string())), sut.provide());
}

#[test]
fn a_table_that_cannot_be_written_fails_the_writing() {
    let args = args(2, "tsql");
    let mocker = Mocker::new(&args);
    let full = ColumnData {
        name: "a".to_string(),
        kind: ColumnType::Int,
        data: vec![CellValue::Int(1), CellValue::Int(2), CellValue::Int(3)],
    };
    let short = ColumnData { name: "b".to_string(), kind: ColumnType::Int, data: vec![CellValue::Int(1)] };
    let files = mocker.write_mock_data(vec![("t".to_string(), vec![full.clone()])]).unwrap();
    assert_eq!(1, files.len());
    assert_eq!("t.sql", files[0].name);
    assert_eq!("insert into t (a) values (1);\ninsert into t (a) values (2);\n", files[0].content);
    assert!(matches!(
        mocker.write_mock_data(vec![("t".to_string(), vec![full.clone()]), ("u".to_string(), vec![full, short])]),
        Err(MockerError::Generator(GeneratorError::Write(_)))
    ));
    assert!(matches!(
        mocker.write_mock_data(vec![("t".to_string(), vec![])]),
        Err(MockerError::Generator(GeneratorError::Write(_)))
    ));
}

#[test]
fn a_provider_is_reset_for_every_column() {
    let args = args(2, "tsql");
    let mocker = Mocker::new(&args);
    let config = mocker
        .parse_config("table t { a uint #row(), b uint #row() } table u { c uint #row() }".to_string())
        .unwrap();
    let data = mocker.generate_mock_data(config, Randomness::Process, Err(String::new())).unwrap();
    let one_two = vec![CellValue::UnsignedInt(1), CellValue::UnsignedInt(2)];
    assert_eq!(2, data.len());
    assert_eq!("t", data[0].0);
    assert_eq!(2, data[0].1.len());
    assert_eq!("a", data[0].1[0].name);
    assert_eq!(ColumnType::UnsignedInt, data[0].1[0].kind);
    assert_eq!(one_two, data[0].1[0].data);
    assert_eq!("b", data[0].1[1].name);
    assert_eq!(one_two, data[0].1[1].data);
    assert_eq!("u", data[1].0);
    assert_eq!(one_two, data[1].1[0].data);
}

#[test]
fn the_first_column_that_cannot_be_filled_fails_the_run() {
    let args = args(1, "tsql");
    let mocker = Mocker::new(&args);
    let config = mocker
        .parse_config("table t { a uint #row(), b bool #row(), c int #nothing() }".to_string())
        .unwrap();
    assert!(matches!(
        mocker.generate_mock_data(config, Randomness::Process, Err(String::new())),
        Err(MockerError::Provider(ProviderError::IncompatibleType(
            ColumnType::Boolean,
            CellValue::UnsignedInt(1)
        )))
    ));
    let config = mocker
        .parse_config("table t { a uint #row(), c int #nothing(), b bool #row() }".to_string())
        .unwrap();
    assert!(matches!(
        mocker.generate_mock_data(config, Randomness::Process, Err(String::new())),
        Err(MockerError::ProviderRegistry(RegistryError::UnknownCreator(name))) if name == "nothing"
    ));
    let config = mocker
        .parse_config("table t { a int #number(1, 1), b int #number(true) }".to_string())
        .unwrap();
    assert!(matches!(
        mocker.generate_mock_data(config, Randomness::Process, Err(String::new())),
        Err(MockerError::Provider(ProviderError::UnexpectedArgument(found, expected)))
            if found == "true" && expected == "int"
    ));
    let config = mocker.parse_config("table t { a string #first_name() }".to_string()).unwrap();
    assert!(matches!(
        mocker.generate_mock_data(config, Randomness::Process, Ok(String::new())),
        Err(MockerError::Provider(ProviderError::Unknown(_)))
    ));
}

#[test]
fn a_run_without_columns_goes_well() {
    let args = args(5, "tsql");
    let mocker = Mocker::new(&args);
    let config = mocker.parse_config(String::new()).unwrap();
    let data = mocker
        .generate_mock_data(config, Randomness::Process, Err("no file".to_string()))
        .unwrap();
    assert!(data.is_empty());
    let files = mocker.write_mock_data(data).unwrap();
    assert!(files.is_empty());
}

#[test]
fn formats_have_their_endings() {
    assert_eq!("sql", extension_for("tsql"));
    assert_eq!("csv", extension_for("csv"));
    assert_eq!("", extension_for(""));
    assert_eq!(Ok(()), validate_output_type("tsql"));
    assert_eq!(Ok(()), validate_output_type("csv"));
    assert_eq!(Ok(()), validate_output_type("json"));
    assert_eq!(Ok(()), validate_output_type("xml"));
    assert_eq!(
        Err("valid output types are tsql, csv, json, xml.".to_string()),
        validate_output_type("yaml")
    );
    assert_eq!(
        Err("valid output types are tsql, csv, json, xml.".to_string()),
        validate_output_type("")
    );
}

struct Doubler;

impl Creator<u64, u64, String> for Doubler {
    fn create(&self, data: &u64) -> Result<u64, String> {
        if *data > 100 {
            Err("too much".to_string())
        } else {
            Ok(*data * 2)
        }
    }
}

#[test]
fn a_registry_makes_things_once() {
    let mut registry: Registry<u64, u64, String, Doubler> = Registry::new(21);
    assert_eq!(Err(RegistryError::UnknownCreator("a".to_string())), registry.get("a").map(|item| *item));
    assert_eq!(Ok(()), registry.register("a", Doubler));
    assert_eq!(Ok(()), registry.register("b", Doubler));
    assert_eq!(Err(RegistryError::DuplicateItem("a".to_string())), registry.register("a", Doubler));
    {
        let item = registry.get("a").unwrap();
        assert_eq!(42, *item);
        *item += 1;
    }
    assert_eq!(Ok(43), registry.get("a").map(|item| *item));
    assert_eq!(Ok(42), registry.get("b").map(|item| *item));
    assert_eq!(Err(RegistryError::UnknownCreator("c".to_string())), registry.get("c").map(|item| *item));
    let mut failing: Registry<u64, u64, String, Doubler> = Registry::new(101);
    failing.register("a", Doubler).unwrap();
    assert_eq!(
        Err(RegistryError::CreationError("too much".to_string())),
        failing.get("a").map(|item| *item)
    );
}

#[test]
fn the_registries_hold_what_there_is() {
    let args = args(5, "tsql");
    let mut providers =
        register_providers(&args, Randomness::Stepped, Ok("Ann".to_string())).ok().unwrap();
    for name in ["row", "number", "gender", "random", "first_name"] {
        assert!(providers.get(name).is_ok(), "{}", name);
        assert!(matches!(
            providers.register(name, ProviderKind::Row),
            Err(RegistryError::DuplicateItem(_))
        ));
    }
    assert!(matches!(providers.get("rows"), Err(RegistryError::UnknownCreator(_))));
    {
        let row = providers.get("row").ok().unwrap();
        assert_eq!(Ok(CellValue::UnsignedInt(1)), row.provide());
    }
    let row = providers.get("row").ok().unwrap();
    assert_eq!(Ok(CellValue::UnsignedInt(2)), row.provide());
    let mut generators = register_generators(&args).ok().unwrap();
    {
        let tsql = generators.get("tsql").ok().unwrap();
        assert_eq!(Err(GeneratorError::Uninitialized), tsql.generate(vec![]));
        assert_eq!(Ok(()), tsql.init("t".to_string(), 0));
        assert_eq!(Ok(()), tsql.generate(vec![]));
        assert_eq!("", tsql.take_output());
    }
    assert_eq!(Ok(()), generators.get("tsql").ok().unwrap().generate(vec![]));
    assert!(matches!(generators.get("csv"), Err(RegistryError::UnknownCreator(_))));
    assert!(matches!(
        generators.register("tsql", GeneratorKind::Tsql),
        Err(RegistryError::DuplicateItem(_))
    ));
    let made = ProviderKind::FirstName.create(&ProviderCreationData {
        row_count: 1,
        randomness: Randomness::Stepped,
        first_names: Err("gone".to_string()),
    });
    assert!(matches!(made, Err(ProviderError::Unknown(reason)) if reason == "gone"));
}

#[test]
fn errors_say_what_went_wrong() {
    assert_eq!("unexpected Eof Of File", ParserError::EOF.message());
    assert_eq!(
        "unexpected 'x', expected Type",
        ParserError::Unexpected("x".to_string(), "Type".to_string()).message()
    );
    assert_eq!("syntax error:\nbad", ParserError::SyntaxError("bad".to_string()).message());
    assert_eq!("", ParserError::FileError("gone".to_string()).message());
    assert_eq!("no provider assigned to column", ParserError::NoProvider.message());
    assert_eq!("only one provider per column is allowed", ParserError::MultipleProviders.message());
    assert_eq!(
        "0 arguments were given, but at least 1 were expected",
        ParserError::TooFewArguments(0, 1).message()
    );
    assert_eq!(
        "12 arguments were given, but at most 10 were expected",
        ParserError::TooManyArguments(12, 10).message()
    );
    assert_eq!("an unknown error occurred: x", ParserError::Unknown("x".to_string()).message());
    assert_eq!(
        "Unexpected argument 'abc', expected int",
        ProviderError::UnexpectedArgument("abc".to_string(), "int".to_string()).message()
    );
    assert_eq!(
        "1 arguments were given, but at least 2 were expected",
        ProviderError::TooFewArguments(1, 2).message()
    );
    assert_eq!(
        "Incompatible types. Provider provided 'uint[1]', but 'int' was needed",
        ProviderError::IncompatibleType(ColumnType::Int, CellValue::UnsignedInt(1)).message()
    );
    assert_eq!("An unknown error occurred: y", ProviderError::Unknown("y".to_string()).message());
    let duplicate: RegistryError<String> = RegistryError::DuplicateItem("row".to_string());
    assert_eq!("Duplicate item 'row'", duplicate.message(""));
    let unknown: RegistryError<String> = RegistryError::UnknownCreator("rows".to_string());
    assert_eq!("Unknown creator 'rows'", unknown.message(""));
    let creation: RegistryError<String> = RegistryError::CreationError("no".to_string());
    assert_eq!("Error while creating: no", creation.message("no"));
    let other: RegistryError<String> = RegistryError::Unknown("z".to_string());
    assert_eq!("An unknown error occurred: z", other.message(""));
}

#[test]
fn numbers_are_written_and_read_in_decimal() {
    assert_eq!("0", u64_text(0));
    assert_eq!("9", u64_text(9));
    assert_eq!("10", u64_text(10));
    assert_eq!("18446744073709551615", u64_text(u64::MAX));
    assert_eq!("1000", usize_text(1000));
    assert_eq!("-1", i64_text(-1));
    assert_eq!("9223372036854775807", i64_text(i64::MAX));
    assert_eq!("-9223372036854775808", i64_text(i64::MIN));
    for n in [0i64, 7, -7, 1234567890123, i64::MAX, i64::MIN] {
        let text: Vec<char> = i64_text(n).chars().collect();
        assert_eq!(Some(n), parse_int(&text));
    }
    assert_eq!(None, parse_int(&vec![]));
    assert_eq!(None, parse_int(&vec!['+']));
    assert_eq!(None, parse_int(&"1 2".chars().collect()));
    assert_eq!(Some(12), parse_int(&"0012".chars().collect()));
    assert_eq!(None, parse_int(&"99999999999999999999999999".chars().collect()));
    for text in [
        "", "+", "-", "+0", "-0", "+17", "-17", "--1", "1-", "1.5", " 1", "0x10", "007",
        "9223372036854775807", "9223372036854775808", "-9223372036854775808",
        "-9223372036854775809",
    ] {
        assert_eq!(text.parse::<i64>().ok(), parse_int(&text.chars().collect()));
    }
}

#[test]
fn texts_are_split_into_lines() {
    assert_eq!(Vec::<String>::new(), split_lines(""));
    assert_eq!(vec!["a"], split_lines("a"));
    assert_eq!(vec!["a"], split_lines("a\n"));
    assert_eq!(vec!["a", "", "b"], split_lines("a\n\nb"));
    assert_eq!(vec!["a", "b\r"], split_lines("a\r\nb\r"));
    assert_eq!(vec!["", "\r", "x\ry"], split_lines("\n\r\r\nx\ry\r\n"));
    for text in ["", "\n", "\r", "\r\n", "a\rb", "a\n\r", "Ann\nBob\r\nCid\n", "\n\n", "x\r\r\n"] {
        let lines: Vec<String> = text.lines().map(String::from).collect();
        assert_eq!(lines, split_lines(text));
    }
}
