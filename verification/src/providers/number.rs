//! The provider `number`: whole numbers from a range, chosen at random.

use vstd::prelude::*;
use crate::generator::CellValue;
use crate::parser::config::{argument_text, arguments_view, Argument, ArgumentView};
use crate::provider::{ProviderCreationData, ProviderError, ProviderErrorView, ProviderImpl};
use crate::random::RandomSource;

verus! {

/// Chooses whole numbers from `min` to `max`, both of which it may choose.
pub struct NumberProvider {
    pub rng: RandomSource,
    pub min: i64,
    pub max: i64,
}

/// The number that an argument stands for where a whole number is
/// expected, or what is wrong with the argument.
pub open spec fn int_argument(argument: ArgumentView) -> Result<i64, ProviderErrorView> {
    match argument {
        ArgumentView::Int(value) => Ok(value),
        _ => Err(ProviderErrorView::UnexpectedArgument(argument_text(argument), "int"@)),
    }
}

/// The range that a reset with the given arguments leaves, as its two
/// ends, where `min` and `max` are the ends before the reset.
///
/// Without arguments the range is the whole of the numbers from zero up.
/// The first argument is the lower end; with it alone the upper end is the
/// greatest number there is. The second argument is the upper end. A
/// reset that fails at the second argument has set the lower end all the
/// same.
pub open spec fn range_after_reset(min: i64, max: i64, arguments: Seq<ArgumentView>) -> (
    i64,
    i64,
) {
    if arguments.len() == 0 {
        (0, i64::MAX)
    } else {
        match int_argument(arguments[0]) {
            Err(_) => (min, max),
            Ok(low) => if arguments.len() == 1 {
                (low, i64::MAX)
            } else {
                match int_argument(arguments[1]) {
                    Err(_) => (low, max),
                    Ok(high) => (low, high),
                }
            },
        }
    }
}

/// How a reset with the given arguments ends: well, or with the first
/// argument that is no whole number.
pub open spec fn reset_outcome(arguments: Seq<ArgumentView>) -> Result<(), ProviderErrorView> {
    if arguments.len() == 0 {
        Ok(())
    } else {
        match int_argument(arguments[0]) {
            Err(error) => Err(error),
            Ok(_) => if arguments.len() == 1 {
                Ok(())
            } else {
                match int_argument(arguments[1]) {
                    Err(error) => Err(error),
                    Ok(_) => Ok(()),
                }
            },
        }
    }
}

/// A reset with two whole numbers goes well and makes them the two ends
/// of the range, whatever the range was before.
pub proof fn lemma_reset_with_two_numbers(min: i64, max: i64, low: i64, high: i64)
    ensures
        reset_outcome(seq![ArgumentView::Int(low), ArgumentView::Int(high)]) is Ok,
        range_after_reset(min, max, seq![ArgumentView::Int(low), ArgumentView::Int(high)]) == (
            low,
            high,
        ),
{
}

/// A reset without arguments goes well and makes the range that of all the
/// numbers from zero up, whatever the range was before.
pub proof fn lemma_reset_without_arguments(min: i64, max: i64)
    ensures
        reset_outcome(Seq::<ArgumentView>::empty()) is Ok,
        range_after_reset(min, max, Seq::<ArgumentView>::empty()) == (0i64, i64::MAX),
{
}

impl NumberProvider {
    /// The number that an argument stands for.
    pub fn parse_value_from_arg(&self, arg: &Argument) -> (r: Result<i64, ProviderError>)
        ensures
            match int_argument(arg@) {
                Ok(value) => r == Ok::<i64, ProviderError>(value),
                Err(error) => r matches Err(e) && e@ == error,
            },
    {
        if let Argument::Int(value) = arg {
            return Ok(*value);
        }
        Err(ProviderError::UnexpectedArgument(arg.text(), "int".to_string()))
    }
}

impl ProviderImpl for NumberProvider {
    /// A provider of the numbers from zero up.
    fn new(data: &ProviderCreationData) -> (r: Result<Self, ProviderError>)
        ensures
            r matches Ok(provider) && provider.min == 0 && provider.max == i64::MAX
                && provider.rng.kind() == data.randomness,
    {
        Ok(NumberProvider { rng: RandomSource::new(data.randomness), min: 0, max: i64::MAX })
    }

    /// A reset goes well unless one of the first two arguments is no whole
    /// number.
    open spec fn accepts(&self, arguments: Seq<ArgumentView>) -> bool {
        reset_outcome(arguments) is Ok
    }

    /// Sets the range from the arguments.
    fn reset(&mut self, arguments: &Vec<Argument>) -> (r: Result<(), ProviderError>)
        ensures
            match reset_outcome(arguments_view(arguments@)) {
                Ok(_) => r is Ok,
                Err(error) => r matches Err(e) && e@ == error,
            },
            (final(self).min, final(self).max) == range_after_reset(
                old(self).min,
                old(self).max,
                arguments_view(arguments@),
            ),
            final(self).rng == old(self).rng,
    {
        if arguments.len() == 0 {
            self.min = 0;
            self.max = i64::MAX;
            return Ok(());
        }
        assert(arguments_view(arguments@)[0] == arguments@[0]@);
        match self.parse_value_from_arg(&arguments[0]) {
            Ok(min) => {
                self.min = min;
            },
            Err(e) => {
                return Err(e);
            },
        }
        if arguments.len() == 1 {
            self.max = i64::MAX;
            return Ok(());
        }
        assert(arguments_view(arguments@)[1] == arguments@[1]@);
        match self.parse_value_from_arg(&arguments[1]) {
            Ok(max) => {
                self.max = max;
            },
            Err(e) => {
                return Err(e);
            },
        }
        Ok(())
    }

    /// A number of the range. There is none where the range is empty.
    fn provide(&mut self) -> (r: Result<CellValue, ProviderError>)
        ensures
            old(self).min <= old(self).max ==> (r matches Ok(CellValue::Int(value)) && old(
                self,
            ).min <= value <= old(self).max),
            old(self).min > old(self).max ==> r matches Err(ProviderError::Unknown(_)),
            final(self).min == old(self).min,
            final(self).max == old(self).max,
            final(self).rng.kind() == old(self).rng.kind(),
    {
        if self.min > self.max {
            return Err(ProviderError::Unknown("the range of numbers is empty".to_string()));
        }
        let value: i64 = self.rng.int_between(self.min, self.max);
        Ok(CellValue::Int(value))
    }
}

} // verus!
