use mocker::parser::config::{Argument, ColumnType, Config};
use mocker::parser::errors::ParserError;
use mocker::parser::pointer::{shown, Pointer};
use mocker::parser::Parser;

fn parse(text: &str) -> Result<Config, ParserError> {
    Parser::new(text.to_string()).parse()
}

fn unexpected(found: &str, expected: &str) -> ParserError {
    ParserError::Unexpected(found.to_string(), expected.to_string())
}

#[test]
fn parses_one_table_with_one_column() {
    let config = parse("table t { id int #row() }").unwrap();
    assert_eq!(1, config.tables.len());
    let table = &config.tables[0];
    assert_eq!("t", table.name);
    assert_eq!(1, table.columns.len());
    let column = &table.columns[0];
    assert_eq!("id", column.name);
    assert_eq!(ColumnType::Int, column.kind);
    assert!(column.constraints.is_empty());
    assert_eq!("row", column.provider.name);
    assert!(column.provider.arguments.is_empty());
}

#[test]
fn two_providers_are_one_too_many() {
    assert_eq!(
        Some(ParserError::MultipleProviders),
        parse("table t { id int #row() #number(1, 2) }").err()
    );
    assert_eq!(
        Some(ParserError::MultipleProviders),
        parse("table t { id int #row() $primary() #row(), }").err()
    );
}

#[test]
fn a_column_needs_a_provider() {
    assert_eq!(Some(ParserError::NoProvider), parse("table t { id int }").err());
    assert_eq!(Some(ParserError::NoProvider), parse("table t { id int $primary(), b int #row() }").err());
}

#[test]
fn constraints_take_as_many_arguments_as_they_need() {
    assert_eq!(
        Some(ParserError::TooFewArguments(0, 1)),
        parse("table t { id int $null() #row() }").err()
    );
    assert_eq!(
        Some(ParserError::TooManyArguments(2, 1)),
        parse("table t { id int $null(10,20) #row() }").err()
    );
    assert_eq!(
        Some(ParserError::TooManyArguments(1, 0)),
        parse("table t { id int $primary(1) #row() }").err()
    );
    assert_eq!(
        Some(ParserError::TooFewArguments(0, 1)),
        parse("table t { id int $link() #row() }").err()
    );
    assert_eq!(
        Some(unexpected("unique", "Constraint")),
        parse("table t { id int $unique() #row() }").err()
    );
    let config = parse("table t { id int $null(150) $primary() $link(\"u.id\") #row() }").unwrap();
    let constraints = &config.tables[0].columns[0].constraints;
    assert_eq!(3, constraints.len());
    assert_eq!("null", constraints[0].name);
    assert_eq!(vec![Argument::Int(150)], constraints[0].arguments);
    assert_eq!("primary", constraints[1].name);
    assert_eq!(vec![Argument::String("u.id".to_string())], constraints[2].arguments);
}

#[test]
fn parses_several_tables_and_columns() {
    let text = "\n table users {\n  id uint $primary() #row(),\n  age int #number( 18 , 99 ),,\n  name string #first_name()\n ,}\n\ntable pets{kind string #random(\"cat\", \"dog\"),alive bool #random(true,false)\n}\n ";
    let config = parse(text).unwrap();
    assert_eq!(2, config.tables.len());
    let users = &config.tables[0];
    assert_eq!("users", users.name);
    assert_eq!(3, users.columns.len());
    assert_eq!(ColumnType::UnsignedInt, users.columns[0].kind);
    assert_eq!("primary", users.columns[0].constraints[0].name);
    assert_eq!(vec![Argument::Int(18), Argument::Int(99)], users.columns[1].provider.arguments);
    assert_eq!(ColumnType::String(usize::MAX), users.columns[2].kind);
    let pets = &config.tables[1];
    assert_eq!("pets", pets.name);
    assert_eq!(
        vec![Argument::String("cat".to_string()), Argument::String("dog".to_string())],
        pets.columns[0].provider.arguments
    );
    assert_eq!(ColumnType::Boolean, pets.columns[1].kind);
    assert_eq!(
        vec![Argument::Boolean(true), Argument::Boolean(false)],
        pets.columns[1].provider.arguments
    );
}

#[test]
fn an_empty_text_is_an_empty_configuration() {
    assert!(parse("").unwrap().tables.is_empty());
    assert!(parse(" \n\t ").unwrap().tables.is_empty());
}

#[test]
fn a_text_that_ends_too_early_is_cut_short() {
    assert_eq!(Some(ParserError::EOF), parse("tab").err());
    assert_eq!(Some(ParserError::EOF), parse("table t { id int #row()").err());
    assert_eq!(Some(ParserError::EOF), parse("table t { id int #row(\"abc").err());
    assert_eq!(Some(ParserError::EOF), parse("table t { id").err());
    assert_eq!(Some(ParserError::EOF), parse("table t { id int #row(), ").err());
}

#[test]
fn what_is_not_expected_is_named() {
    assert_eq!(Some(unexpected("tabel", "table")), parse("tabel t { }").err());
    assert_eq!(Some(unexpected("{", "whitespace")), parse("table{ id int #row() }").err());
    assert_eq!(Some(unexpected("{", "table name")), parse("table { id int #row() }").err());
    assert_eq!(Some(unexpected("(", "{")), parse("table t ( id int #row() )").err());
    assert_eq!(Some(unexpected("}", "column name")), parse("table t { }").err());
    assert_eq!(Some(unexpected("text", "Type")), parse("table t { id text #row() }").err());
    assert_eq!(Some(unexpected("#", "Type")), parse("table t { id  #row() }").err());
    assert_eq!(Some(unexpected(" ", "(")), parse("table t { id int #row () }").err());
    assert_eq!(
        Some(unexpected("b", "constraint, provider, ',' or '}'")),
        parse("table t { id int #row() b int #row() }").err()
    );
    assert_eq!(Some(unexpected("4", "',' or ')'")), parse("table t { id int #number(3 4) }").err());
    assert_eq!(Some(unexpected(")", "literal")), parse("table t { id int #number(3,) }").err());
}

#[test]
fn literals_are_numbers_texts_and_truth_values() {
    assert_eq!(Ok(Argument::Int(-42)), Argument::try_from("-42"));
    assert_eq!(Ok(Argument::Int(7)), Argument::try_from("+007"));
    assert_eq!(Ok(Argument::Int(i64::MAX)), Argument::try_from("9223372036854775807"));
    assert_eq!(Ok(Argument::Int(i64::MIN)), Argument::try_from("-9223372036854775808"));
    assert_eq!(
        Err(unexpected("9223372036854775808", "int")),
        Argument::try_from("9223372036854775808")
    );
    assert_eq!(
        Err(unexpected("-9223372036854775809", "int")),
        Argument::try_from("-9223372036854775809")
    );
    assert_eq!(Err(unexpected("12a", "int")), Argument::try_from("12a"));
    assert_eq!(Err(unexpected("-", "int")), Argument::try_from("-"));
    assert_eq!(Ok(Argument::Float("1.50".to_string())), Argument::try_from("1.50"));
    assert_eq!(Ok(Argument::Float("-0.5".to_string())), Argument::try_from("-0.5"));
    assert_eq!(Err(unexpected("1.", "float")), Argument::try_from("1."));
    assert_eq!(Err(unexpected("1.2.3", "float")), Argument::try_from("1.2.3"));
    assert_eq!(Err(unexpected("+.5", "float")), Argument::try_from("+.5"));
    assert_eq!(Ok(Argument::Boolean(true)), Argument::try_from("true"));
    assert_eq!(Ok(Argument::Boolean(false)), Argument::try_from("false"));
    assert_eq!(Err(unexpected("True", "boolean")), Argument::try_from("True"));
    assert_eq!(Err(unexpected("", "literal")), Argument::try_from(""));
    assert_eq!(Ok(Argument::String("true".to_string())), Argument::try_from_string_rule("true"));
    assert_eq!(
        Some(unexpected("1.2.3", "float")),
        parse("table t { id float #number(1.2.3) }").err()
    );
    assert_eq!(Some(unexpected("yes", "boolean")), parse("table t { id int #gender(yes) }").err());
}

#[test]
fn arguments_read_as_texts() {
    assert_eq!("-5", Argument::Int(-5).text());
    assert_eq!("0", Argument::Int(0).text());
    assert_eq!("2.50", Argument::Float("2.50".to_string()).text());
    assert_eq!("abc", Argument::String("abc".to_string()).text());
    assert_eq!("true", Argument::Boolean(true).text());
    assert_eq!("false", Argument::Boolean(false).text());
}

#[test]
fn column_types_have_their_names() {
    assert_eq!(Ok(ColumnType::Int), ColumnType::try_from("int".to_string()));
    assert_eq!(Ok(ColumnType::UnsignedInt), ColumnType::try_from("uint".to_string()));
    assert_eq!(Ok(ColumnType::Float), ColumnType::try_from("float".to_string()));
    assert_eq!(Ok(ColumnType::Boolean), ColumnType::try_from("bool".to_string()));
    assert_eq!(Ok(ColumnType::String(usize::MAX)), ColumnType::try_from("string".to_string()));
    assert_eq!(Err(unexpected("Int", "Type")), ColumnType::try_from("Int".to_string()));
}

#[test]
fn the_cursor_shows_what_is_left() {
    let mut pointer = Pointer::new("ab\"c\n".to_string());
    assert_eq!("Pointer { \"ab\\\"c\\n\" }", pointer.text());
    assert_eq!(Ok('a'), pointer.next());
    assert_eq!(format!("Pointer {{ {:?} }}", "b\"c\n"), pointer.text());
    assert_eq!("Pointer { \"\" }", Pointer::new(String::new()).text());
    assert_eq!("Pointer { x }", shown("x"));
}

#[test]
fn the_cursor_hands_out_characters_from_the_front() {
    let mut pointer = Pointer::new("héllo wörld".to_string());
    assert_eq!(Ok(&'h'), pointer.peek());
    assert_eq!(Ok('h'), pointer.next());
    assert_eq!(Ok("éll".to_string()), pointer.next_multiple(3));
    assert_eq!(Ok("o".to_string()), pointer.next_until(|c| *c == ' '));
    assert_eq!(Ok(&' '), pointer.peek());
    assert_eq!(Ok(String::new()), pointer.next_until(|c| *c == ' '));
    assert_eq!(Ok(String::new()), pointer.next_multiple(0));
    assert_eq!(Err(ParserError::EOF), pointer.next_multiple(7));
    assert_eq!(Err(ParserError::EOF), pointer.peek());
    assert_eq!(Err(ParserError::EOF), pointer.next());
    assert_eq!(Err(ParserError::EOF), pointer.next_until(|c| *c == 'x'));
}

#[test]
fn the_cursor_takes_everything_when_nothing_is_found() {
    let mut pointer = Pointer::new("abc".to_string());
    assert_eq!(Err(ParserError::EOF), pointer.next_until(|c| *c == 'x'));
    assert_eq!(Err(ParserError::EOF), pointer.peek());
    let mut pointer = Pointer::new("abc".to_string());
    assert_eq!(Ok("abc".to_string()), pointer.next_multiple(3));
    assert_eq!(Err(ParserError::EOF), pointer.next());
}
