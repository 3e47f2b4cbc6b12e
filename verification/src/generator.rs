//! The values that are generated, and what a writer of them has to offer.

use vstd::prelude::*;
use crate::parser::config::{Argument, ArgumentView, ColumnType};
use crate::text::{decimal_text, i64_text, u64_text};

verus! {

/// One generated value: what a provider hands out for one cell of a table.
///
/// A floating-point number is held as its decimal text.
#[derive(Debug, PartialEq)]
pub enum CellValue {
    Int(i64),
    UnsignedInt(u64),
    Float(String),
    String(String),
    Boolean(bool),
}

/// A [`CellValue`] as a mathematical value.
pub enum CellValueView {
    Int(i64),
    UnsignedInt(u64),
    Float(Seq<char>),
    String(Seq<char>),
    Boolean(bool),
}

impl View for CellValue {
    type V = CellValueView;

    open spec fn view(&self) -> CellValueView {
        match self {
            CellValue::Int(value) => CellValueView::Int(*value),
            CellValue::UnsignedInt(value) => CellValueView::UnsignedInt(*value),
            CellValue::Float(value) => CellValueView::Float(value@),
            CellValue::String(value) => CellValueView::String(value@),
            CellValue::Boolean(value) => CellValueView::Boolean(*value),
        }
    }
}

impl Clone for CellValue {
    fn clone(&self) -> (copy: Self)
        ensures
            copy == *self,
    {
        match self {
            CellValue::Int(value) => CellValue::Int(*value),
            CellValue::UnsignedInt(value) => CellValue::UnsignedInt(*value),
            CellValue::Float(value) => CellValue::Float(value.clone()),
            CellValue::String(value) => CellValue::String(value.clone()),
            CellValue::Boolean(value) => CellValue::Boolean(*value),
        }
    }
}

/// The generated value that a configured argument turns into: the same
/// number, text or truth value.
pub open spec fn cell_of_argument(argument: ArgumentView) -> CellValueView {
    match argument {
        ArgumentView::Int(value) => CellValueView::Int(value),
        ArgumentView::Float(value) => CellValueView::Float(value),
        ArgumentView::String(value) => CellValueView::String(value),
        ArgumentView::Boolean(value) => CellValueView::Boolean(value),
    }
}

impl<'a> vstd::std_specs::convert::FromSpecImpl<&'a Argument> for CellValue {
    open spec fn obeys_from_spec() -> bool {
        true
    }

    open spec fn from_spec(arg: &'a Argument) -> CellValue {
        match arg {
            Argument::Int(value) => CellValue::Int(*value),
            Argument::Float(value) => CellValue::Float(*value),
            Argument::String(value) => CellValue::String(*value),
            Argument::Boolean(value) => CellValue::Boolean(*value),
        }
    }
}

impl<'a> From<&'a Argument> for CellValue {
    /// The value that stands for a configured argument.
    fn from(arg: &'a Argument) -> (value: CellValue)
        ensures
            value@ == cell_of_argument(arg@),
    {
        match arg {
            Argument::Int(value) => CellValue::Int(*value),
            Argument::Float(value) => CellValue::Float(value.clone()),
            Argument::String(value) => CellValue::String(value.clone()),
            Argument::Boolean(value) => CellValue::Boolean(*value),
        }
    }
}

/// A generated value with its type before it: `int[5]`, `string[abc]`.
pub open spec fn cell_description(value: CellValueView) -> Seq<char> {
    match value {
        CellValueView::Int(value) => "int["@ + decimal_text(value as int) + "]"@,
        CellValueView::UnsignedInt(value) => "uint["@ + decimal_text(value as int) + "]"@,
        CellValueView::Float(value) => "float["@ + value + "]"@,
        CellValueView::Boolean(value) => "bool["@ + (if value {
            "true"@
        } else {
            "false"@
        }) + "]"@,
        CellValueView::String(value) => "string["@ + value + "]"@,
    }
}

impl CellValue {
    /// The value with its type before it, as it is shown in messages.
    pub fn text(&self) -> (text: String)
        ensures
            text@ == cell_description(self@),
    {
        let (mut text, value) = match self {
            CellValue::Int(value) => ("int[".to_string(), i64_text(*value)),
            CellValue::UnsignedInt(value) => ("uint[".to_string(), u64_text(*value)),
            CellValue::Float(value) => ("float[".to_string(), value.clone()),
            CellValue::Boolean(value) => (
                "bool[".to_string(),
                if *value {
                    "true".to_string()
                } else {
                    "false".to_string()
                },
            ),
            CellValue::String(value) => ("string[".to_string(), value.clone()),
        };
        text.append(value.as_str());
        text.append("]");
        text
    }
}

/// The values of one column, with the name and the type of the column.
#[derive(Debug, Clone)]
pub struct ColumnData {
    pub name: String,
    pub kind: ColumnType,
    pub data: Vec<CellValue>,
}

/// A [`ColumnData`] as a mathematical value.
pub struct ColumnDataView {
    pub name: Seq<char>,
    pub kind: ColumnType,
    pub data: Seq<CellValueView>,
}

/// Generated values as mathematical values.
pub open spec fn cells_view(cells: Seq<CellValue>) -> Seq<CellValueView> {
    cells.map_values(|cell: CellValue| cell@)
}

impl View for ColumnData {
    type V = ColumnDataView;

    open spec fn view(&self) -> ColumnDataView {
        ColumnDataView { name: self.name@, kind: self.kind, data: cells_view(self.data@) }
    }
}

/// The columns of one table, each with its values.
pub type GeneratorData = Vec<ColumnData>;

/// The columns of a table as mathematical values.
pub open spec fn data_view(columns: Seq<ColumnData>) -> Seq<ColumnDataView> {
    columns.map_values(|column: ColumnData| column@)
}

/// The ways in which writing generated values fails.
#[derive(Debug, PartialEq)]
pub enum GeneratorError {
    /// The generator was asked to write before it was given a table.
    Uninitialized,
    /// The values could not be written; the reason is given.
    Write(String),
}

/// What an error says of itself.
pub open spec fn generator_message(error: GeneratorError) -> Seq<char> {
    match error {
        GeneratorError::Uninitialized => "uninitialized generator"@,
        GeneratorError::Write(reason) => {
            "something went wrong while writing data to the output file: "@ + reason@
        },
    }
}

impl GeneratorError {
    /// What the error says of itself.
    pub fn message(&self) -> (text: String)
        ensures
            text@ == generator_message(*self),
    {
        match self {
            GeneratorError::Uninitialized => "uninitialized generator".to_string(),
            GeneratorError::Write(reason) => {
                let mut text =
                    "something went wrong while writing data to the output file: ".to_string();
                text.append(reason.as_str());
                text
            },
        }
    }
}

/// What a generator is made from.
pub struct GeneratorCreationData {}

/// A writer of generated values in some format.
///
/// It is bound to one table by `init`, which also gives it a fresh output;
/// `generate` writes the whole table to that output, and `take_output`
/// hands out what has been written.
pub trait GeneratorImpl {
    fn new() -> Result<Self, GeneratorError> where Self: Sized;

    fn init(&mut self, table_name: String, row_count: usize) -> Result<(), GeneratorError>;

    fn format_cell_value(&mut self, value: &CellValue) -> Result<String, GeneratorError>;

    fn generate(&mut self, data: GeneratorData) -> Result<(), GeneratorError>;

    fn take_output(&mut self) -> String;
}

} // verus!
