//! What a provider of values has to offer, and what can go wrong with one.

use vstd::prelude::*;
use crate::generator::{cell_description, CellValue, CellValueView};
use crate::parser::config::{
    arguments_view,
    column_type_text,
    Argument,
    ArgumentView,
    ColumnType,
};
use crate::text::{decimal_text, usize_text};
use crate::random::Randomness;

verus! {

/// The ways in which a provider fails.
#[derive(Debug, PartialEq)]
pub enum ProviderError {
    /// An argument (first) is not of the kind that was expected (second).
    UnexpectedArgument(String, String),
    /// Fewer arguments were given (first) than are needed (second).
    TooFewArguments(usize, usize),
    /// A value was provided (second) that cannot stand in a column of the
    /// given type (first).
    IncompatibleType(ColumnType, CellValue),
    /// Anything else.
    Unknown(String),
}

/// A [`ProviderError`] as a mathematical value.
pub enum ProviderErrorView {
    UnexpectedArgument(Seq<char>, Seq<char>),
    TooFewArguments(int, int),
    IncompatibleType(ColumnType, CellValueView),
    Unknown(Seq<char>),
}

impl View for ProviderError {
    type V = ProviderErrorView;

    open spec fn view(&self) -> ProviderErrorView {
        match self {
            ProviderError::UnexpectedArgument(found, expected) => {
                ProviderErrorView::UnexpectedArgument(found@, expected@)
            },
            ProviderError::TooFewArguments(given, needed) => ProviderErrorView::TooFewArguments(
                *given as int,
                *needed as int,
            ),
            ProviderError::IncompatibleType(kind, value) => ProviderErrorView::IncompatibleType(
                *kind,
                value@,
            ),
            ProviderError::Unknown(message) => ProviderErrorView::Unknown(message@),
        }
    }
}

/// What an error says of itself.
pub open spec fn provider_message(error: ProviderErrorView) -> Seq<char> {
    match error {
        ProviderErrorView::UnexpectedArgument(found, expected) => "Unexpected argument '"@ + found
            + "', expected "@ + expected,
        ProviderErrorView::TooFewArguments(given, needed) => decimal_text(given)
            + " arguments were given, but at least "@ + decimal_text(needed) + " were expected"@,
        ProviderErrorView::IncompatibleType(kind, value) => {
            "Incompatible types. Provider provided '"@ + cell_description(value) + "', but '"@
                + column_type_text(kind) + "' was needed"@
        },
        ProviderErrorView::Unknown(message) => "An unknown error occurred: "@ + message,
    }
}

impl ProviderError {
    /// What the error says of itself.
    pub fn message(&self) -> (text: String)
        ensures
            text@ == provider_message(self@),
    {
        match self {
            ProviderError::UnexpectedArgument(found, expected) => {
                let mut text = "Unexpected argument '".to_string();
                text.append(found.as_str());
                text.append("', expected ");
                text.append(expected.as_str());
                text
            },
            ProviderError::TooFewArguments(given, needed) => {
                let mut text = usize_text(*given);
                text.append(" arguments were given, but at least ");
                text.append(usize_text(*needed).as_str());
                text.append(" were expected");
                text
            },
            ProviderError::IncompatibleType(kind, value) => {
                let mut text = "Incompatible types. Provider provided '".to_string();
                text.append(value.text().as_str());
                text.append("', but '");
                text.append(kind.text().as_str());
                text.append("' was needed");
                text
            },
            ProviderError::Unknown(message) => {
                let mut text = "An unknown error occurred: ".to_string();
                text.append(message.as_str());
                text
            },
        }
    }
}

/// What a provider is made from.
pub struct ProviderCreationData {
    /// The number of rows that will be asked for in every column.
    pub row_count: usize,
    /// Where the providers that choose at random get their chance from.
    pub randomness: Randomness,
    /// The list of first names, one on each line, or the reason why there
    /// is none.
    pub first_names: Result<String, String>,
}

/// A provider of values for the cells of a column.
pub trait ProviderImpl {
    /// Makes the provider.
    fn new(data: &ProviderCreationData) -> Result<Self, ProviderError> where Self: Sized;

    /// Whether the provider promises that a reset with these arguments goes
    /// well. Unless a provider says otherwise, it promises nothing.
    open spec fn accepts(&self, arguments: Seq<ArgumentView>) -> bool {
        false
    }

    /// Gets the provider ready for a column, with the arguments that the
    /// column gives it. A provider that takes no arguments need not
    /// do anything: left to itself, a reset goes well and leaves the
    /// provider as it is. Every reset goes well where the provider has
    /// promised so.
    fn reset(&mut self, _arguments: &Vec<Argument>) -> (r: Result<(), ProviderError>)
        ensures
            old(self).accepts(arguments_view(_arguments@)) ==> r is Ok,
    {
        Ok(())
    }

    /// The value for the next row.
    fn provide(&mut self) -> Result<CellValue, ProviderError>;
}

} // verus!
