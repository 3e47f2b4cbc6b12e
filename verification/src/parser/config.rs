//! The tree that a configuration is read into.

use vstd::prelude::*;
use crate::generator::{CellValue, CellValueView};
use crate::parser::errors::{agrees, ParserError, ParserErrorView};
use crate::parser::grammar::{column_type, literal_value};
use crate::text::{
    chars_of,
    float_literal_test,
    i64_text,
    is_float_literal,
    parse_i64,
    parse_int,
    usize_text,
    decimal_text,
};

verus! {

/// A literal value, as it is written between the brackets of a call.
///
/// A floating-point number is held as the decimal text that denotes it.
#[derive(Debug, PartialEq)]
pub enum Argument {
    Int(i64),
    Float(String),
    String(String),
    Boolean(bool),
}

/// An [`Argument`] as a mathematical value.
pub enum ArgumentView {
    Int(i64),
    Float(Seq<char>),
    String(Seq<char>),
    Boolean(bool),
}

impl View for Argument {
    type V = ArgumentView;

    open spec fn view(&self) -> ArgumentView {
        match self {
            Argument::Int(value) => ArgumentView::Int(*value),
            Argument::Float(value) => ArgumentView::Float(value@),
            Argument::String(value) => ArgumentView::String(value@),
            Argument::Boolean(value) => ArgumentView::Boolean(*value),
        }
    }
}

impl Clone for Argument {
    fn clone(&self) -> (copy: Self)
        ensures
            copy == *self,
    {
        match self {
            Argument::Int(value) => Argument::Int(*value),
            Argument::Float(value) => Argument::Float(value.clone()),
            Argument::String(value) => Argument::String(value.clone()),
            Argument::Boolean(value) => Argument::Boolean(*value),
        }
    }
}

/// Tells whether a text is the given word.
pub fn text_is(text: &str, word: &str) -> (same: bool)
    ensures
        same == (text@ == word@),
{
    let a = String::from_str(text);
    let b = String::from_str(word);
    a == b
}

impl Argument {
    /// The integer that `word` denotes.
    pub fn try_from_int_rule(word: &str) -> (r: Result<Self, ParserError>)
        ensures
            agrees(
                r,
                match parse_i64(word@) {
                    Some(value) => Ok(ArgumentView::Int(value)),
                    None => Err(ParserErrorView::Unexpected(word@, "int"@)),
                },
            ),
    {
        let chars = chars_of(word);
        match parse_int(&chars) {
            Some(value) => Ok(Self::Int(value)),
            None => Err(ParserError::Unexpected(String::from_str(word), "int".to_string())),
        }
    }

    /// The fraction that `word` denotes; it is kept as it is written.
    pub fn try_from_float_rule(word: &str) -> (r: Result<Self, ParserError>)
        ensures
            agrees(
                r,
                if is_float_literal(word@) {
                    Ok(ArgumentView::Float(word@))
                } else {
                    Err(ParserErrorView::Unexpected(word@, "float"@))
                },
            ),
    {
        let chars = chars_of(word);
        if float_literal_test(&chars) {
            Ok(Self::Float(String::from_str(word)))
        } else {
            Err(ParserError::Unexpected(String::from_str(word), "float".to_string()))
        }
    }

    /// The text `word` itself.
    pub fn try_from_string_rule(word: &str) -> (r: Result<Self, ParserError>)
        ensures
            agrees(r, Ok(ArgumentView::String(word@))),
    {
        Ok(Self::String(String::from_str(word)))
    }

    /// The truth value that `word` names.
    pub fn try_from_boolean_rule(word: &str) -> (r: Result<Self, ParserError>)
        ensures
            agrees(
                r,
                if word@ == "true"@ {
                    Ok(ArgumentView::Boolean(true))
                } else if word@ == "false"@ {
                    Ok(ArgumentView::Boolean(false))
                } else {
                    Err(ParserErrorView::Unexpected(word@, "boolean"@))
                },
            ),
    {
        if text_is(word, "true") {
            Ok(Self::Boolean(true))
        } else if text_is(word, "false") {
            Ok(Self::Boolean(false))
        } else {
            Err(ParserError::Unexpected(String::from_str(word), "boolean".to_string()))
        }
    }

    /// What a literal that is not quoted stands for: a number where it
    /// begins like one, else a truth value.
    pub fn try_from(word: &str) -> (r: Result<Self, ParserError>)
        ensures
            agrees(r, literal_value(word@)),
    {
        let chars = chars_of(word);
        if chars.len() == 0 {
            return Err(ParserError::Unexpected(String::from_str(word), "literal".to_string()));
        }
        let first: char = chars[0];
        if ('0' <= first && first <= '9') || first == '+' || first == '-' {
            let mut pointed: bool = false;
            let mut i: usize = 0;
            while i < chars.len()
                invariant
                    i <= chars@.len(),
                    pointed == chars@.take(i as int).contains('.'),
                decreases chars@.len() - i,
            {
                if chars[i] == '.' {
                    pointed = true;
                }
                proof {
                    let before = chars@.take(i as int);
                    let after = chars@.take(i as int + 1);
                    assert(after == before.push(chars@[i as int]));
                    if before.contains('.') {
                        let k = choose|k: int| 0 <= k < before.len() && before[k] == '.';
                        assert(after[k] == '.');
                    }
                    if chars@[i as int] == '.' {
                        assert(after[i as int] == '.');
                    }
                    if after.contains('.') {
                        let k = choose|k: int| 0 <= k < after.len() && after[k] == '.';
                        if k < i {
                            assert(before[k] == '.');
                        }
                    }
                }
                i += 1;
            }
            assert(chars@.take(chars@.len() as int) == chars@);
            if pointed {
                Self::try_from_float_rule(word)
            } else {
                Self::try_from_int_rule(word)
            }
        } else {
            Self::try_from_boolean_rule(word)
        }
    }

    /// The argument as a text: a number in decimal notation, a text as it
    /// is, a truth value as `true` or `false`.
    pub fn text(&self) -> (text: String)
        ensures
            text@ == argument_text(self@),
    {
        match self {
            Self::Int(value) => i64_text(*value),
            Self::Float(value) => value.clone(),
            Self::String(value) => value.clone(),
            Self::Boolean(value) => if *value {
                "true".to_string()
            } else {
                "false".to_string()
            },
        }
    }
}

/// An argument as a text: a number in decimal notation, a text as it is,
/// a truth value as `true` or `false`.
pub open spec fn argument_text(argument: ArgumentView) -> Seq<char> {
    match argument {
        ArgumentView::Int(value) => decimal_text(value as int),
        ArgumentView::Float(value) => value,
        ArgumentView::String(value) => value,
        ArgumentView::Boolean(value) => if value {
            "true"@
        } else {
            "false"@
        },
    }
}

/// The type that a column is declared with.
#[derive(Debug, Clone, Copy, PartialEq, Eq, Hash, Structural)]
pub enum ColumnType {
    Int,
    UnsignedInt,
    Float,
    Boolean,
    /// Text of at most so many characters.
    String(usize),
}

impl View for ColumnType {
    type V = ColumnType;

    open spec fn view(&self) -> ColumnType {
        *self
    }
}

/// A column type as it is written: its name, and behind `string` the
/// greatest length in brackets.
pub open spec fn column_type_text(kind: ColumnType) -> Seq<char> {
    match kind {
        ColumnType::Int => "int"@,
        ColumnType::UnsignedInt => "uint"@,
        ColumnType::Float => "float"@,
        ColumnType::Boolean => "bool"@,
        ColumnType::String(max_length) => "string("@ + decimal_text(max_length as int) + ")"@,
    }
}

impl ColumnType {
    /// The column type as it is written.
    pub fn text(&self) -> (text: String)
        ensures
            text@ == column_type_text(*self),
    {
        match self {
            ColumnType::Int => "int".to_string(),
            ColumnType::UnsignedInt => "uint".to_string(),
            ColumnType::Float => "float".to_string(),
            ColumnType::Boolean => "bool".to_string(),
            ColumnType::String(max_length) => {
                let mut text = "string(".to_string();
                text.append(usize_text(*max_length).as_str());
                text.append(")");
                text
            },
        }
    }

    /// The column type that the word `kind` names.
    pub fn try_from(kind: String) -> (r: Result<Self, ParserError>)
        ensures
            agrees(r, column_type(kind@)),
    {
        if text_is(kind.as_str(), "int") {
            Ok(ColumnType::Int)
        } else if text_is(kind.as_str(), "uint") {
            Ok(ColumnType::UnsignedInt)
        } else if text_is(kind.as_str(), "float") {
            Ok(ColumnType::Float)
        } else if text_is(kind.as_str(), "bool") {
            Ok(ColumnType::Boolean)
        } else if text_is(kind.as_str(), "string") {
            Ok(ColumnType::String(usize::MAX))
        } else {
            Err(ParserError::Unexpected(kind, "Type".to_string()))
        }
    }
}

/// A constraint on a column: its name and the arguments it was given.
#[derive(Debug, Clone, PartialEq)]
pub struct Constraint {
    pub name: String,
    pub arguments: Vec<Argument>,
}

/// A [`Constraint`] as a mathematical value.
pub struct ConstraintView {
    pub name: Seq<char>,
    pub arguments: Seq<ArgumentView>,
}

/// The provider that a column draws its values from: its name and the
/// arguments it was given.
#[derive(Debug, Clone, PartialEq)]
pub struct Provider {
    pub name: String,
    pub arguments: Vec<Argument>,
}

/// A [`Provider`] as a mathematical value.
pub struct ProviderView {
    pub name: Seq<char>,
    pub arguments: Seq<ArgumentView>,
}

/// One column of a table.
#[derive(Debug)]
pub struct Column {
    pub name: String,
    pub kind: ColumnType,
    pub constraints: Vec<Constraint>,
    pub provider: Provider,
}

/// A [`Column`] as a mathematical value.
pub struct ColumnView {
    pub name: Seq<char>,
    pub kind: ColumnType,
    pub constraints: Seq<ConstraintView>,
    pub provider: ProviderView,
}

/// One table: its name and its columns, in the order in which they were
/// written.
#[derive(Debug)]
pub struct Table {
    pub name: String,
    pub columns: Vec<Column>,
}

/// A [`Table`] as a mathematical value.
pub struct TableView {
    pub name: Seq<char>,
    pub columns: Seq<ColumnView>,
}

/// A whole configuration: its tables, in the order in which they were
/// written.
#[derive(Debug)]
pub struct Config {
    pub tables: Vec<Table>,
}

/// A [`Config`] as a mathematical value.
pub struct ConfigView {
    pub tables: Seq<TableView>,
}

/// The arguments of a call as mathematical values.
pub open spec fn arguments_view(arguments: Seq<Argument>) -> Seq<ArgumentView> {
    arguments.map_values(|argument: Argument| argument@)
}

/// The constraints of a column as mathematical values.
pub open spec fn constraints_view(constraints: Seq<Constraint>) -> Seq<ConstraintView> {
    constraints.map_values(|constraint: Constraint| constraint@)
}

/// The columns of a table as mathematical values.
pub open spec fn columns_view(columns: Seq<Column>) -> Seq<ColumnView> {
    columns.map_values(|column: Column| column@)
}

/// The tables of a configuration as mathematical values.
pub open spec fn tables_view(tables: Seq<Table>) -> Seq<TableView> {
    tables.map_values(|table: Table| table@)
}

impl View for Constraint {
    type V = ConstraintView;

    open spec fn view(&self) -> ConstraintView {
        ConstraintView { name: self.name@, arguments: arguments_view(self.arguments@) }
    }
}

impl View for Provider {
    type V = ProviderView;

    open spec fn view(&self) -> ProviderView {
        ProviderView { name: self.name@, arguments: arguments_view(self.arguments@) }
    }
}

impl View for Column {
    type V = ColumnView;

    open spec fn view(&self) -> ColumnView {
        ColumnView {
            name: self.name@,
            kind: self.kind,
            constraints: constraints_view(self.constraints@),
            provider: self.provider@,
        }
    }
}

impl View for Table {
    type V = TableView;

    open spec fn view(&self) -> TableView {
        TableView { name: self.name@, columns: columns_view(self.columns@) }
    }
}

impl View for Config {
    type V = ConfigView;

    open spec fn view(&self) -> ConfigView {
        ConfigView { tables: tables_view(self.tables@) }
    }
}

impl Constraint {
    pub fn new(name: String, arguments: Vec<Argument>) -> (constraint: Self)
        ensures
            constraint.name == name,
            constraint.arguments == arguments,
    {
        Self { name, arguments }
    }
}

impl Provider {
    pub fn new(name: String, arguments: Vec<Argument>) -> (provider: Self)
        ensures
            provider.name == name,
            provider.arguments == arguments,
    {
        Self { name, arguments }
    }
}

impl Column {
    pub fn new(
        name: String,
        kind: ColumnType,
        constraints: Vec<Constraint>,
        provider: Provider,
    ) -> (column: Column)
        ensures
            column.name == name,
            column.kind == kind,
            column.constraints == constraints,
            column.provider == provider,
    {
        Self { name, kind, constraints, provider }
    }
}

/// Tells whether a generated value may stand in a column of the given type:
/// an integer in an integer or a floating-point column, an unsigned integer
/// in an unsigned column, a truth value in a boolean column, and a text in a
/// text column that is long enough for it. Nothing else fits.
pub open spec fn compatible(kind: ColumnType, value: CellValueView) -> bool {
    match (kind, value) {
        (ColumnType::Int, CellValueView::Int(_)) => true,
        (ColumnType::UnsignedInt, CellValueView::UnsignedInt(_)) => true,
        (ColumnType::Float, CellValueView::Int(_)) => true,
        (ColumnType::Boolean, CellValueView::Boolean(_)) => true,
        (ColumnType::String(max_length), CellValueView::String(text)) => text.len()
            <= max_length,
        _ => false,
    }
}

impl ColumnType {
    /// Tells whether a generated value may stand in a column of this type.
    pub fn accepts(&self, cell_value: &CellValue) -> (fits: bool)
        ensures
            fits == compatible(*self, cell_value@),
    {
        match (*self, cell_value) {
            (ColumnType::Int, CellValue::Int(_)) => true,
            (ColumnType::UnsignedInt, CellValue::UnsignedInt(_)) => true,
            (ColumnType::Float, CellValue::Int(_)) => true,
            (ColumnType::Boolean, CellValue::Boolean(_)) => true,
            (ColumnType::String(max_length), CellValue::String(value)) => value.as_str().unicode_len()
                <= max_length,
            _ => false,
        }
    }
}

impl Column {
    /// Tells whether a generated value may stand in this column.
    pub fn compatible_with_cell_value(&self, cell_value: &CellValue) -> (fits: bool)
        ensures
            fits == compatible(self.kind, cell_value@),
    {
        self.kind.accepts(cell_value)
    }
}

impl Table {
    pub fn new(name: String, columns: Vec<Column>) -> (table: Table)
        ensures
            table.name == name,
            table.columns == columns,
    {
        Self { name, columns }
    }
}

impl Config {
    /// A configuration without tables.
    pub fn new() -> (config: Config)
        ensures
            config.tables@.len() == 0,
    {
        Config { tables: Vec::with_capacity(5) }
    }

    /// Adds a table after those that are there.
    pub fn add_table(&mut self, table: Table)
        ensures
            final(self).tables@ == old(self).tables@.push(table),
    {
        self.tables.push(table);
    }
}

} // verus!
