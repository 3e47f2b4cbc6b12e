//! What can go wrong while a configuration is read.

use vstd::prelude::*;
use crate::text::{decimal_text, usize_text};

verus! {

/// The ways in which reading a configuration fails.
#[derive(Debug, PartialEq)]
pub enum ParserError {
    /// The text breaks the rules of the language; the message says how.
    SyntaxError(String),
    /// The configuration could not be read at all; the reason is given.
    FileError(String),
    /// The text ended where more of it was needed.
    EOF,
    /// Something else was found (first) than was expected (second).
    Unexpected(String, String),
    /// A column names no provider.
    NoProvider,
    /// A column names more than one provider.
    MultipleProviders,
    /// Fewer arguments were given (first) than are needed (second).
    TooFewArguments(usize, usize),
    /// More arguments were given (first) than are allowed (second).
    TooManyArguments(usize, usize),
    /// Anything else.
    Unknown(String),
}

/// A [`ParserError`] as a mathematical value: texts as sequences of
/// characters, counts as integers.
pub enum ParserErrorView {
    SyntaxError(Seq<char>),
    FileError(Seq<char>),
    EOF,
    Unexpected(Seq<char>, Seq<char>),
    NoProvider,
    MultipleProviders,
    TooFewArguments(int, int),
    TooManyArguments(int, int),
    Unknown(Seq<char>),
}

impl View for ParserError {
    type V = ParserErrorView;

    open spec fn view(&self) -> ParserErrorView {
        match self {
            ParserError::SyntaxError(message) => ParserErrorView::SyntaxError(message@),
            ParserError::FileError(reason) => ParserErrorView::FileError(reason@),
            ParserError::EOF => ParserErrorView::EOF,
            ParserError::Unexpected(found, expected) => ParserErrorView::Unexpected(
                found@,
                expected@,
            ),
            ParserError::NoProvider => ParserErrorView::NoProvider,
            ParserError::MultipleProviders => ParserErrorView::MultipleProviders,
            ParserError::TooFewArguments(given, needed) => ParserErrorView::TooFewArguments(
                *given as int,
                *needed as int,
            ),
            ParserError::TooManyArguments(given, allowed) => ParserErrorView::TooManyArguments(
                *given as int,
                *allowed as int,
            ),
            ParserError::Unknown(message) => ParserErrorView::Unknown(message@),
        }
    }
}

/// The outcome `got` is the one that `wanted` describes: the value with
/// that view, or the error with that view.
pub open spec fn agrees<T: View>(
    got: Result<T, ParserError>,
    wanted: Result<T::V, ParserErrorView>,
) -> bool {
    match wanted {
        Ok(value) => got matches Ok(x) && x@ == value,
        Err(error) => got matches Err(e) && e@ == error,
    }
}

/// Reading went as `wanted` describes: the value with that view was read and
/// the text `after` is what is left, or the error with that view came up.
pub open spec fn reads<T: View>(
    got: Result<T, ParserError>,
    after: Seq<char>,
    wanted: Result<(T::V, Seq<char>), ParserErrorView>,
) -> bool {
    match wanted {
        Ok((value, rest)) => got matches Ok(x) && x@ == value && after == rest,
        Err(error) => got matches Err(e) && e@ == error,
    }
}

/// What an error says of itself.
pub open spec fn parser_message(error: ParserErrorView) -> Seq<char> {
    match error {
        ParserErrorView::SyntaxError(message) => "syntax error:\n"@ + message,
        ParserErrorView::FileError(_) => Seq::empty(),
        ParserErrorView::EOF => "unexpected Eof Of File"@,
        ParserErrorView::Unexpected(found, expected) => "unexpected '"@ + found + "', expected "@
            + expected,
        ParserErrorView::NoProvider => "no provider assigned to column"@,
        ParserErrorView::MultipleProviders => "only one provider per column is allowed"@,
        ParserErrorView::TooFewArguments(given, needed) => decimal_text(given)
            + " arguments were given, but at least "@ + decimal_text(needed) + " were expected"@,
        ParserErrorView::TooManyArguments(given, allowed) => decimal_text(given)
            + " arguments were given, but at most "@ + decimal_text(allowed) + " were expected"@,
        ParserErrorView::Unknown(message) => "an unknown error occurred: "@ + message,
    }
}

impl ParserError {
    /// What the error says of itself.
    pub fn message(&self) -> (text: String)
        ensures
            text@ == parser_message(self@),
    {
        match self {
            ParserError::SyntaxError(message) => {
                let mut text = "syntax error:\n".to_string();
                text.append(message.as_str());
                text
            },
            ParserError::FileError(_) => String::new(),
            ParserError::EOF => "unexpected Eof Of File".to_string(),
            ParserError::Unexpected(found, expected) => {
                let mut text = "unexpected '".to_string();
                text.append(found.as_str());
                text.append("', expected ");
                text.append(expected.as_str());
                text
            },
            ParserError::NoProvider => "no provider assigned to column".to_string(),
            ParserError::MultipleProviders => "only one provider per column is allowed".to_string(),
            ParserError::TooFewArguments(given, needed) => {
                let mut text = usize_text(*given);
                text.append(" arguments were given, but at least ");
                text.append(usize_text(*needed).as_str());
                text.append(" were expected");
                text
            },
            ParserError::TooManyArguments(given, allowed) => {
                let mut text = usize_text(*given);
                text.append(" arguments were given, but at most ");
                text.append(usize_text(*allowed).as_str());
                text.append(" were expected");
                text
            },
            ParserError::Unknown(message) => {
                let mut text = "an unknown error occurred: ".to_string();
                text.append(message.as_str());
                text
            },
        }
    }
}

} // verus!
