//! Reading a configuration: from its text to the tree of its tables.

use vstd::prelude::*;
use crate::parser::config::{
    arguments_view,
    columns_view,
    constraints_view,
    tables_view,
    text_is,
    Argument,
    ArgumentView,
    Column,
    ColumnType,
    Config,
    Constraint,
    ConstraintView,
    Provider,
    Table,
};
use crate::parser::errors::{agrees, reads, ParserError, ParserErrorView};
use crate::parser::pointer::Pointer;
use crate::text::{char_text, lemma_run_length_is};

pub mod config;
pub mod errors;
pub mod grammar;
pub mod pointer;

verus! {

/// Reads the text of a configuration.
pub struct Parser {
    file_content: String,
}

fn space_test(c: char) -> (r: bool)
    ensures
        r == grammar::is_space(c),
{
    c == ' ' || c == '\t' || c == '\n' || c == '\r'
}

fn at_space(pointer: &Pointer) -> (r: bool)
    ensures
        r == (pointer@.len() > 0 && grammar::is_space(pointer@[0])),
{
    match pointer.peek() {
        Ok(c) => space_test(*c),
        Err(_) => false,
    }
}

fn at_separator(pointer: &Pointer) -> (r: bool)
    ensures
        r == (pointer@.len() > 0 && grammar::is_separator(pointer@[0])),
{
    match pointer.peek() {
        Ok(c) => space_test(*c) || *c == ',',
        Err(_) => false,
    }
}

fn not_name_char(c: &char) -> (r: bool)
    ensures
        r == !grammar::is_name_char(*c),
{
    !(('a' <= *c && *c <= 'z') || ('A' <= *c && *c <= 'Z') || ('0' <= *c && *c <= '9') || *c
        == '_')
}

fn is_quote(c: &char) -> (r: bool)
    ensures
        r == (*c == '"'),
{
    *c == '"'
}

fn ends_literal(c: &char) -> (r: bool)
    ensures
        r == grammar::ends_literal(*c),
{
    space_test(*c) || *c == ',' || *c == ')'
}

/// Takes the white space at the front of the text.
fn skip_spaces(pointer: &mut Pointer)
    ensures
        final(pointer)@ == grammar::skip_spaces(old(pointer)@),
{
    let ghost mut taken: int = 0;
    while at_space(pointer)
        invariant
            0 <= taken <= old(pointer)@.len(),
            pointer@ == old(pointer)@.skip(taken),
            forall|i: int| 0 <= i < taken ==> grammar::is_space(#[trigger] old(pointer)@[i]),
        decreases pointer@.len(),
    {
        let _ = pointer.next();
        proof {
            assert(old(pointer)@.skip(taken).skip(1) == old(pointer)@.skip(taken + 1));
            taken = taken + 1;
        }
    }
    proof {
        lemma_run_length_is(old(pointer)@, |c: char| grammar::is_space(c), taken);
    }
}

/// Takes the white space and commas at the front of the text.
fn skip_separators(pointer: &mut Pointer)
    ensures
        final(pointer)@ == grammar::skip_separators(old(pointer)@),
{
    let ghost mut taken: int = 0;
    while at_separator(pointer)
        invariant
            0 <= taken <= old(pointer)@.len(),
            pointer@ == old(pointer)@.skip(taken),
            forall|i: int|
                0 <= i < taken ==> grammar::is_separator(#[trigger] old(pointer)@[i]),
        decreases pointer@.len(),
    {
        let _ = pointer.next();
        proof {
            assert(old(pointer)@.skip(taken).skip(1) == old(pointer)@.skip(taken + 1));
            taken = taken + 1;
        }
    }
    proof {
        lemma_run_length_is(old(pointer)@, |c: char| grammar::is_separator(c), taken);
    }
}

/// Takes white space, of which there must be some.
fn parse_spaces(pointer: &mut Pointer) -> (r: Result<(), ParserError>)
    ensures
        match grammar::spaces(old(pointer)@) {
            Ok(rest) => r is Ok && final(pointer)@ == rest,
            Err(error) => r matches Err(e) && e@ == error,
        },
{
    let found: char = match pointer.peek() {
        Ok(c) => *c,
        Err(e) => {
            return Err(e);
        },
    };
    if !space_test(found) {
        return Err(ParserError::Unexpected(char_text(found), "whitespace".to_string()));
    }
    skip_spaces(pointer);
    Ok(())
}

/// Takes a name; `expected` says which kind of name is looked for.
fn parse_name(pointer: &mut Pointer, expected: &str) -> (r: Result<String, ParserError>)
    ensures
        reads(r, final(pointer)@, grammar::name(old(pointer)@, expected@)),
{
    match pointer.next_until(not_name_char) {
        Err(e) => {
            proof {
                lemma_run_length_is(
                    old(pointer)@,
                    |c: char| grammar::is_name_char(c),
                    old(pointer)@.len() as int,
                );
            }
            Err(e)
        },
        Ok(word) => {
            proof {
                lemma_run_length_is(
                    old(pointer)@,
                    |c: char| grammar::is_name_char(c),
                    word@.len() as int,
                );
            }
            if word.as_str().is_empty() {
                match pointer.peek() {
                    Ok(c) => Err(ParserError::Unexpected(char_text(*c), String::from_str(expected))),
                    Err(e) => Err(e),
                }
            } else {
                Ok(word)
            }
        },
    }
}

/// Takes one literal: a text between double quotes, or a word.
fn parse_literal(pointer: &mut Pointer) -> (r: Result<Argument, ParserError>)
    ensures
        reads(r, final(pointer)@, grammar::literal(old(pointer)@)),
{
    let first: char = match pointer.peek() {
        Ok(c) => *c,
        Err(e) => {
            return Err(e);
        },
    };
    if first == '"' {
        let _ = pointer.next();
        let ghost body = pointer@;
        match pointer.next_until(is_quote) {
            Err(e) => {
                proof {
                    lemma_run_length_is(body, |c: char| c != '"', body.len() as int);
                }
                Err(e)
            },
            Ok(text) => {
                proof {
                    lemma_run_length_is(body, |c: char| c != '"', text@.len() as int);
                    assert(body.skip(text@.len() as int).skip(1) == body.skip(
                        text@.len() as int + 1,
                    ));
                }
                let _ = pointer.next();
                Argument::try_from_string_rule(text.as_str())
            },
        }
    } else {
        match pointer.next_until(ends_literal) {
            Err(e) => {
                proof {
                    lemma_run_length_is(
                        old(pointer)@,
                        |c: char| !grammar::ends_literal(c),
                        old(pointer)@.len() as int,
                    );
                }
                Err(e)
            },
            Ok(word) => {
                proof {
                    lemma_run_length_is(
                        old(pointer)@,
                        |c: char| !grammar::ends_literal(c),
                        word@.len() as int,
                    );
                }
                if word.as_str().is_empty() {
                    Err(ParserError::Unexpected(char_text(first), "literal".to_string()))
                } else {
                    Argument::try_from(word.as_str())
                }
            },
        }
    }
}

/// The outcome of reading some values onto the end of a list: on success
/// the list has grown by the values that `wanted` names and the text
/// `after` is what is left; else the error that `wanted` names came up.
pub open spec fn appends<V>(
    got: Result<(), ParserError>,
    before: Seq<V>,
    now: Seq<V>,
    after: Seq<char>,
    wanted: grammar::Parsed<Seq<V>>,
) -> bool {
    match wanted {
        Ok((values, rest)) => got is Ok && now == before + values && after == rest,
        Err(error) => got matches Err(e) && e@ == error,
    }
}

/// What reading a list gives, with the values in `front` put before those
/// that were read.
pub open spec fn behind<V>(front: Seq<V>, read: grammar::Parsed<Seq<V>>) -> grammar::Parsed<
    Seq<V>,
> {
    match read {
        Ok((values, rest)) => Ok((front + values, rest)),
        Err(error) => Err(error),
    }
}

impl Parser {
    /// A parser for the given text of a configuration.
    pub fn new(file_content: String) -> (parser: Parser)
        ensures
            parser.text() == file_content@,
    {
        Parser { file_content }
    }

    /// The text that this parser reads.
    pub closed spec fn text(&self) -> Seq<char> {
        self.file_content@
    }

    /// Takes the literals of a call that has some, with the commas between
    /// them and the closing bracket behind them, and adds them to `args`.
    fn parse_function_call_args(pointer: &mut Pointer, args: &mut Vec<Argument>) -> (r: Result<
        (),
        ParserError,
    >)
        ensures
            appends(
                r,
                arguments_view(old(args)@),
                arguments_view(final(args)@),
                final(pointer)@,
                grammar::argument_list(old(pointer)@),
            ),
    {
        let ghost wanted = behind(
            arguments_view(old(args)@),
            grammar::argument_list(old(pointer)@),
        );
        loop
            invariant
                wanted == behind(arguments_view(args@), grammar::argument_list(pointer@)),
                wanted == behind(
                    arguments_view(old(args)@),
                    grammar::argument_list(old(pointer)@),
                ),
            decreases pointer@.len(),
        {
            let ghost at_literal = pointer@;
            let ghost had = arguments_view(args@);
            let argument = match parse_literal(pointer) {
                Ok(argument) => argument,
                Err(e) => {
                    return Err(e);
                },
            };
            proof {
                grammar::lemma_literal_shrinks(at_literal);
            }
            let ghost after_literal = pointer@;
            skip_spaces(pointer);
            proof {
                grammar::lemma_skip_spaces_shrinks(after_literal);
            }
            let ghost at_mark = pointer@;
            let mark: char = match pointer.next() {
                Ok(c) => c,
                Err(e) => {
                    return Err(e);
                },
            };
            let ghost value = argument@;
            args.push(argument);
            assert(arguments_view(args@) == had.push(value));
            if mark == ')' {
                assert(had + seq![value] == had.push(value));
                return Ok(());
            } else if mark == ',' {
                let ghost after_mark = pointer@;
                skip_spaces(pointer);
                proof {
                    grammar::lemma_skip_spaces_shrinks(after_mark);
                    match grammar::argument_list(pointer@) {
                        Ok((more, end)) => {
                            assert(had + (seq![value] + more) == had.push(value) + more);
                        },
                        Err(_) => {},
                    }
                }
            } else {
                return Err(ParserError::Unexpected(char_text(mark), "',' or ')'".to_string()));
            }
        }
    }

    /// Takes the arguments of a call, brackets and all, and adds them to
    /// `args`.
    fn parse_function_call(pointer: &mut Pointer, args: &mut Vec<Argument>) -> (r: Result<
        (),
        ParserError,
    >)
        ensures
            appends(
                r,
                arguments_view(old(args)@),
                arguments_view(final(args)@),
                final(pointer)@,
                grammar::arguments(old(pointer)@),
            ),
    {
        let opening: char = match pointer.next() {
            Ok(c) => c,
            Err(e) => {
                return Err(e);
            },
        };
        if opening != '(' {
            return Err(ParserError::Unexpected(char_text(opening), "(".to_string()));
        }
        skip_spaces(pointer);
        let first: char = match pointer.peek() {
            Ok(c) => *c,
            Err(e) => {
                return Err(e);
            },
        };
        if first == ')' {
            let _ = pointer.next();
            assert(arguments_view(args@) + Seq::<ArgumentView>::empty() == arguments_view(args@));
            Ok(())
        } else {
            Self::parse_function_call_args(pointer, args)
        }
    }

    /// Takes a constraint, from its name on: the name must be that of a
    /// constraint, and the arguments as many as that constraint takes.
    fn parse_constraint(pointer: &mut Pointer) -> (r: Result<Constraint, ParserError>)
        ensures
            reads(r, final(pointer)@, grammar::constraint_call(old(pointer)@)),
    {
        let constraint_name = match parse_name(pointer, "constraint name") {
            Ok(name) => name,
            Err(e) => {
                return Err(e);
            },
        };
        let mut constraint_args: Vec<Argument> = Vec::with_capacity(2);
        assert(arguments_view(constraint_args@) == Seq::<ArgumentView>::empty());
        match Self::parse_function_call(pointer, &mut constraint_args) {
            Ok(()) => {},
            Err(e) => {
                return Err(e);
            },
        }
        assert(Seq::<ArgumentView>::empty() + arguments_view(constraint_args@) == arguments_view(
            constraint_args@,
        ));
        let arity: usize = if text_is(constraint_name.as_str(), "primary") {
            0
        } else if text_is(constraint_name.as_str(), "null") {
            1
        } else if text_is(constraint_name.as_str(), "link") {
            1
        } else {
            return Err(ParserError::Unexpected(constraint_name, "Constraint".to_string()));
        };
        let given: usize = constraint_args.len();
        if given < arity {
            Err(ParserError::TooFewArguments(given, arity))
        } else if given > arity {
            Err(ParserError::TooManyArguments(given, arity))
        } else {
            Ok(Constraint::new(constraint_name, constraint_args))
        }
    }

    /// Takes a provider, from its name on.
    fn parse_provider(pointer: &mut Pointer) -> (r: Result<Provider, ParserError>)
        ensures
            reads(r, final(pointer)@, grammar::provider_call(old(pointer)@)),
    {
        let provider_name = match parse_name(pointer, "provider name") {
            Ok(name) => name,
            Err(e) => {
                return Err(e);
            },
        };
        let mut provider_args: Vec<Argument> = Vec::with_capacity(2);
        assert(arguments_view(provider_args@) == Seq::<ArgumentView>::empty());
        match Self::parse_function_call(pointer, &mut provider_args) {
            Ok(()) => {},
            Err(e) => {
                return Err(e);
            },
        }
        assert(Seq::<ArgumentView>::empty() + arguments_view(provider_args@) == arguments_view(
            provider_args@,
        ));
        Ok(Provider::new(provider_name, provider_args))
    }

    /// Takes one column, from its name to the comma or closing bracket that
    /// ends it, and hands out the column together with that character.
    fn parse_column_definition(pointer: &mut Pointer) -> (r: Result<(Column, char), ParserError>)
        ensures
            match grammar::column(old(pointer)@) {
                Ok((column, delimiter, rest)) => r matches Ok(read) && read.0@ == column && read.1
                    == delimiter && final(pointer)@ == rest,
                Err(error) => r matches Err(e) && e@ == error,
            },
    {
        let column_name = match parse_name(pointer, "column name") {
            Ok(name) => name,
            Err(e) => {
                return Err(e);
            },
        };
        match parse_spaces(pointer) {
            Ok(()) => {},
            Err(e) => {
                return Err(e);
            },
        }
        let type_word = match parse_name(pointer, "Type") {
            Ok(word) => word,
            Err(e) => {
                return Err(e);
            },
        };
        let column_type = match ColumnType::try_from(type_word) {
            Ok(kind) => kind,
            Err(e) => {
                return Err(e);
            },
        };
        let mut constraints: Vec<Constraint> = Vec::with_capacity(2);
        let mut provider: Option<Provider> = None;
        let ghost wanted = grammar::column_items(pointer@, Seq::empty(), None);
        assert(constraints_view(constraints@) == Seq::<ConstraintView>::empty());
        loop
            invariant
                wanted == grammar::column_items(
                    pointer@,
                    constraints_view(constraints@),
                    match provider {
                        Some(chosen) => Some(chosen@),
                        None => None,
                    },
                ),
                grammar::column(old(pointer)@) == match wanted {
                    Err(error) => Err::<(crate::parser::config::ColumnView, char, Seq<char>), _>(
                        error,
                    ),
                    Ok((all, chosen, delimiter, rest)) => Ok(
                        (
                            crate::parser::config::ColumnView {
                                name: column_name@,
                                kind: column_type,
                                constraints: all,
                                provider: chosen,
                            },
                            delimiter,
                            rest,
                        ),
                    ),
                },
            decreases pointer@.len(),
        {
            let ghost at_item = pointer@;
            skip_spaces(pointer);
            proof {
                grammar::lemma_skip_spaces_shrinks(at_item);
            }
            let mark: char = match pointer.next() {
                Ok(c) => c,
                Err(e) => {
                    return Err(e);
                },
            };
            if mark == '$' {
                let ghost had = constraints_view(constraints@);
                let ghost at_call = pointer@;
                let constraint = match Self::parse_constraint(pointer) {
                    Ok(constraint) => constraint,
                    Err(e) => {
                        return Err(e);
                    },
                };
                proof {
                    grammar::lemma_call_shrinks(at_call, "constraint name"@);
                }
                let ghost read = constraint@;
                constraints.push(constraint);
                assert(constraints_view(constraints@) == had.push(read));
            } else if mark == '#' {
                if provider.is_some() {
                    return Err(ParserError::MultipleProviders);
                }
                let ghost at_call = pointer@;
                let chosen = match Self::parse_provider(pointer) {
                    Ok(chosen) => chosen,
                    Err(e) => {
                        return Err(e);
                    },
                };
                proof {
                    grammar::lemma_call_shrinks(at_call, "provider name"@);
                }
                provider = Some(chosen);
            } else if mark == ',' || mark == '}' {
                return match provider {
                    None => Err(ParserError::NoProvider),
                    Some(chosen) => Ok(
                        (Column::new(column_name, column_type, constraints, chosen), mark),
                    ),
                };
            } else {
                return Err(
                    ParserError::Unexpected(
                        char_text(mark),
                        "constraint, provider, ',' or '}'".to_string(),
                    ),
                );
            }
        }
    }

    /// Takes the columns of a table, up to and with its closing bracket,
    /// and adds them to `column_output`.
    fn parse_table_content(pointer: &mut Pointer, column_output: &mut Vec<Column>) -> (r: Result<
        (),
        ParserError,
    >)
        ensures
            appends(
                r,
                columns_view(old(column_output)@),
                columns_view(final(column_output)@),
                final(pointer)@,
                grammar::columns(old(pointer)@),
            ),
    {
        let ghost wanted = behind(
            columns_view(old(column_output)@),
            grammar::columns(old(pointer)@),
        );
        loop
            invariant
                wanted == behind(columns_view(column_output@), grammar::columns(pointer@)),
                wanted == behind(
                    columns_view(old(column_output)@),
                    grammar::columns(old(pointer)@),
                ),
            decreases pointer@.len(),
        {
            let ghost at_column = pointer@;
            let ghost had = columns_view(column_output@);
            let (column, delimiter) = match Self::parse_column_definition(pointer) {
                Ok(read) => read,
                Err(e) => {
                    return Err(e);
                },
            };
            proof {
                grammar::lemma_column_shrinks(at_column);
            }
            let ghost value = column@;
            column_output.push(column);
            assert(columns_view(column_output@) == had.push(value));
            assert(had + seq![value] == had.push(value));
            if delimiter == '}' {
                return Ok(());
            }
            let ghost after_column = pointer@;
            skip_separators(pointer);
            proof {
                grammar::lemma_skip_separators_shrinks(after_column);
            }
            let next: char = match pointer.peek() {
                Ok(c) => *c,
                Err(e) => {
                    return Err(e);
                },
            };
            if next == '}' {
                let _ = pointer.next();
                return Ok(());
            }
            proof {
                match grammar::columns(pointer@) {
                    Ok((more, end)) => {
                        assert(had + (seq![value] + more) == had.push(value) + more);
                    },
                    Err(_) => {},
                }
            }
        }
    }

    /// Takes one table, from the word `table` to its closing bracket.
    fn parse_table_definition(pointer: &mut Pointer) -> (r: Result<Table, ParserError>)
        ensures
            reads(r, final(pointer)@, grammar::table(old(pointer)@)),
    {
        let keyword = match pointer.next_multiple(5) {
            Ok(word) => word,
            Err(e) => {
                return Err(e);
            },
        };
        if !text_is(keyword.as_str(), "table") {
            return Err(ParserError::Unexpected(keyword, "table".to_string()));
        }
        match parse_spaces(pointer) {
            Ok(()) => {},
            Err(e) => {
                return Err(e);
            },
        }
        let table_name = match parse_name(pointer, "table name") {
            Ok(name) => name,
            Err(e) => {
                return Err(e);
            },
        };
        skip_spaces(pointer);
        let opening: char = match pointer.next() {
            Ok(c) => c,
            Err(e) => {
                return Err(e);
            },
        };
        if opening != '{' {
            return Err(ParserError::Unexpected(char_text(opening), "{".to_string()));
        }
        skip_separators(pointer);
        let mut table_columns: Vec<Column> = Vec::with_capacity(5);
        assert(columns_view(table_columns@) == Seq::<crate::parser::config::ColumnView>::empty());
        match Self::parse_table_content(pointer, &mut table_columns) {
            Ok(()) => {},
            Err(e) => {
                return Err(e);
            },
        }
        assert(Seq::<crate::parser::config::ColumnView>::empty() + columns_view(table_columns@)
            == columns_view(table_columns@));
        Ok(Table::new(table_name, table_columns))
    }

    /// Reads the whole text: the configuration that it denotes, or the
    /// first reason why it denotes none.
    pub fn parse(&self) -> (r: Result<Config, ParserError>)
        ensures
            agrees(r, grammar::config(self.text())),
    {
        let mut config = Config::new();
        let mut pointer = Pointer::new(self.file_content.clone());
        let ghost wanted = grammar::tables(self.text());
        assert(tables_view(config.tables@) == Seq::<crate::parser::config::TableView>::empty());
        loop
            invariant
                wanted == grammar::tables(self.text()),
                wanted == match grammar::tables(pointer@) {
                    Ok(more) => Ok::<Seq<crate::parser::config::TableView>, ParserErrorView>(
                        tables_view(config.tables@) + more,
                    ),
                    Err(error) => Err(error),
                },
            decreases pointer@.len(),
        {
            let ghost at_gap = pointer@;
            let ghost had = tables_view(config.tables@);
            skip_spaces(&mut pointer);
            proof {
                grammar::lemma_skip_spaces_shrinks(at_gap);
            }
            if pointer.peek().is_err() {
                assert(had + Seq::<crate::parser::config::TableView>::empty() == had);
                return Ok(config);
            }
            let ghost at_table = pointer@;
            let table = match Self::parse_table_definition(&mut pointer) {
                Ok(table) => table,
                Err(e) => {
                    return Err(e);
                },
            };
            proof {
                grammar::lemma_table_shrinks(at_table);
            }
            let ghost value = table@;
            config.add_table(table);
            proof {
                assert(tables_view(config.tables@) == had.push(value));
                match grammar::tables(pointer@) {
                    Ok(more) => {
                        assert(had + (seq![value] + more) == had.push(value) + more);
                    },
                    Err(_) => {},
                }
            }
        }
    }
}

} // verus!
