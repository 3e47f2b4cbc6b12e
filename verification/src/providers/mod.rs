//! The providers that there are, and what each of them gives.
//!
//! What a provider gives for a row depends on its kind, on the arguments
//! of the reset before, on the row, and, for the provider of first names,
//! on its list: the functions of this module say so, apart from any one
//! provider. Where a provider chooses at random, they say what it may
//! choose.

use vstd::prelude::*;
use crate::generator::{cells_view, CellValue, CellValueView};
use crate::parser::config::{arguments_view, Argument, ArgumentView};
use crate::provider::{ProviderError, ProviderErrorView, ProviderImpl};
use crate::providers::first_name::FirstNameProvider;
use crate::providers::gender::{gender_cell, is_listed, long_after_reset, Gender, GenderProvider};
use crate::providers::number::{range_after_reset, reset_outcome, NumberProvider};
use crate::providers::random::{cells_of_arguments, RandomProvider};
use crate::providers::row::RowProvider;
use crate::registry::registrars::ProviderKind;
use crate::text::{lines_of, texts_of};

pub mod first_name;
pub mod gender;
pub mod number;
pub mod random;
pub mod row;

verus! {

/// A provider of one of the kinds that there are. It does what the
/// provider of its kind does.
pub enum AnyProvider {
    Row(RowProvider),
    Number(NumberProvider),
    Gender(GenderProvider),
    Random(RandomProvider),
    FirstName(FirstNameProvider),
}

/// The names that the provider of first names chooses from: the lines of
/// its list, and none where there is no list.
pub open spec fn name_list(first_names: Result<String, String>) -> Seq<Seq<char>> {
    match first_names {
        Ok(list) => lines_of(list@),
        Err(_) => Seq::empty(),
    }
}

/// How a reset of a provider of this kind ends: well, or with what is
/// wrong with the arguments.
pub open spec fn reset_result(kind: ProviderKind, arguments: Seq<ArgumentView>) -> Result<
    (),
    ProviderErrorView,
> {
    match kind {
        ProviderKind::Row => Ok(()),
        ProviderKind::Number => reset_outcome(arguments),
        ProviderKind::Gender => match long_after_reset(arguments) {
            Ok(_) => Ok(()),
            Err(error) => Err(error),
        },
        ProviderKind::Random => if arguments.len() < 2 {
            Err(ProviderErrorView::TooFewArguments(arguments.len() as int, 2))
        } else {
            Ok(())
        },
        ProviderKind::FirstName => Ok(()),
    }
}

/// The two ends of the range of the provider of numbers after a reset
/// that went well.
pub open spec fn number_range(arguments: Seq<ArgumentView>) -> (i64, i64) {
    range_after_reset(0, i64::MAX, arguments)
}

/// Whether a provider of this kind, after a reset with these arguments
/// that went well, has a value for the row of this number, counted from
/// zero. `names` is the list of the provider of first names.
pub open spec fn can_give(
    kind: ProviderKind,
    arguments: Seq<ArgumentView>,
    names: Seq<Seq<char>>,
    row: nat,
) -> bool {
    match kind {
        ProviderKind::Row => row + 1 < u64::MAX,
        ProviderKind::Number => number_range(arguments).0 <= number_range(arguments).1,
        ProviderKind::Gender => true,
        ProviderKind::Random => arguments.len() > 0,
        ProviderKind::FirstName => names.len() > 0,
    }
}

/// Whether `value` is what a provider of this kind, after a reset with
/// these arguments that went well, may give for the row of this number,
/// counted from zero. `names` is the list of the provider of first names.
///
/// The number of a row is the number of the row, counted from one. Every
/// other provider chooses as it likes: a number from its range, one of the
/// genders by its name or its letter, one of its arguments, one of the
/// names of its list.
pub open spec fn may_give(
    kind: ProviderKind,
    arguments: Seq<ArgumentView>,
    names: Seq<Seq<char>>,
    row: nat,
    value: CellValueView,
) -> bool {
    match kind {
        ProviderKind::Row => value == CellValueView::UnsignedInt((row + 1) as u64),
        ProviderKind::Number => value matches CellValueView::Int(number) && number_range(
            arguments,
        ).0 <= number <= number_range(arguments).1,
        ProviderKind::Gender => long_after_reset(arguments) matches Ok(long) && exists|
            gender: Gender,
        |
            is_listed(gender) && value == #[trigger] gender_cell(gender, long),
        ProviderKind::Random => cells_of_arguments(arguments).contains(value),
        ProviderKind::FirstName => value matches CellValueView::String(name) && names.contains(
            name,
        ),
    }
}

impl AnyProvider {
    /// The kind of the provider.
    pub open spec fn kind(self) -> ProviderKind {
        match self {
            AnyProvider::Row(_) => ProviderKind::Row,
            AnyProvider::Number(_) => ProviderKind::Number,
            AnyProvider::Gender(_) => ProviderKind::Gender,
            AnyProvider::Random(_) => ProviderKind::Random,
            AnyProvider::FirstName(_) => ProviderKind::FirstName,
        }
    }

    /// The list of the provider of first names; no other provider has one.
    pub open spec fn names(self) -> Seq<Seq<char>> {
        match self {
            AnyProvider::FirstName(provider) => texts_of(provider.items@),
            _ => Seq::empty(),
        }
    }

    /// The provider is as a reset with these arguments that went well, and
    /// so many values that it has given since, leave it.
    pub open spec fn is_drawing(self, arguments: Seq<ArgumentView>, drawn: nat) -> bool {
        match self {
            AnyProvider::Row(provider) => provider.curr_count == drawn + 1,
            AnyProvider::Number(provider) => (provider.min, provider.max) == number_range(
                arguments,
            ),
            AnyProvider::Gender(provider) => long_after_reset(arguments) == Ok::<
                bool,
                ProviderErrorView,
            >(provider.long),
            AnyProvider::Random(provider) => arguments.len() >= 2 && cells_view(provider.items@)
                == cells_of_arguments(arguments),
            AnyProvider::FirstName(_) => true,
        }
    }

    /// Gets the provider ready for a column, with the arguments that the
    /// column gives it.
    pub fn reset(&mut self, arguments: &Vec<Argument>) -> (r: Result<(), ProviderError>)
        ensures
            final(self).kind() == old(self).kind(),
            final(self).names() == old(self).names(),
            match reset_result(old(self).kind(), arguments_view(arguments@)) {
                Ok(_) => r is Ok && final(self).is_drawing(arguments_view(arguments@), 0),
                Err(error) => r matches Err(e) && e@ == error,
            },
    {
        match self {
            AnyProvider::Row(provider) => provider.reset(arguments),
            AnyProvider::Number(provider) => provider.reset(arguments),
            AnyProvider::Gender(provider) => provider.reset(arguments),
            AnyProvider::Random(provider) => provider.reset(arguments),
            AnyProvider::FirstName(provider) => provider.reset(arguments),
        }
    }

    /// The value for the next row: after a reset that went well and so
    /// many values since, the value that the provider may give for the
    /// row of that number, or nothing where it has none.
    pub fn provide(&mut self) -> (r: Result<CellValue, ProviderError>)
        ensures
            final(self).kind() == old(self).kind(),
            final(self).names() == old(self).names(),
            forall|arguments: Seq<ArgumentView>, drawn: nat| #[trigger]
                old(self).is_drawing(arguments, drawn) ==> if can_give(
                    old(self).kind(),
                    arguments,
                    old(self).names(),
                    drawn,
                ) {
                    &&& r matches Ok(value)
                    &&& may_give(old(self).kind(), arguments, old(self).names(), drawn, value@)
                    &&& final(self).is_drawing(arguments, drawn + 1)
                } else {
                    r matches Err(ProviderError::Unknown(_))
                },
    {
        let ghost before = *self;
        let r = match self {
            AnyProvider::Row(provider) => provider.provide(),
            AnyProvider::Number(provider) => provider.provide(),
            AnyProvider::Gender(provider) => provider.provide(),
            AnyProvider::Random(provider) => provider.provide(),
            AnyProvider::FirstName(provider) => provider.provide(),
        };
        proof {
            assert forall|arguments: Seq<ArgumentView>, drawn: nat| #[trigger]
                before.is_drawing(arguments, drawn) implies if can_give(
                before.kind(),
                arguments,
                before.names(),
                drawn,
            ) {
                &&& r matches Ok(value)
                &&& may_give(before.kind(), arguments, before.names(), drawn, value@)
                &&& self.is_drawing(arguments, drawn + 1)
            } else {
                r matches Err(ProviderError::Unknown(_))
            } by {
                match before {
                    AnyProvider::Random(provider) => {
                        assert(cells_view(provider.items@).len() == provider.items@.len());
                    },
                    AnyProvider::FirstName(provider) => {
                        assert(texts_of(provider.items@).len() == provider.items@.len());
                    },
                    _ => {},
                }
            }
        }
        r
    }
}

} // verus!
