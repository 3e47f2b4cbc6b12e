//! The provider `gender`: one of three genders, by its letter or its name.

use vstd::prelude::*;
use crate::generator::{CellValue, CellValueView};
use crate::parser::config::{argument_text, arguments_view, Argument, ArgumentView};
use crate::provider::{ProviderCreationData, ProviderError, ProviderErrorView, ProviderImpl};
use crate::random::RandomSource;
use crate::text::char_text;

verus! {

/// A gender, by its letter and by its name.
pub struct Gender {
    pub short: char,
    pub long: &'static str,
}

/// The genders that there are to choose from.
pub open spec fn is_listed(gender: Gender) -> bool {
    ||| gender.short == 'F' && gender.long@ == "FEMALE"@
    ||| gender.short == 'M' && gender.long@ == "MALE"@
    ||| gender.short == 'O' && gender.long@ == "OTHER"@
}

/// The genders that there are to choose from.
pub fn gender_list() -> (list: [Gender; 3])
    ensures
        forall|i: int| 0 <= i < 3 ==> is_listed(#[trigger] list@[i]),
        list@[0].short == 'F' && list@[0].long@ == "FEMALE"@,
        list@[1].short == 'M' && list@[1].long@ == "MALE"@,
        list@[2].short == 'O' && list@[2].long@ == "OTHER"@,
{
    [
        Gender { short: 'F', long: "FEMALE" },
        Gender { short: 'M', long: "MALE" },
        Gender { short: 'O', long: "OTHER" },
    ]
}

/// Chooses a gender.
pub struct GenderProvider {
    pub rng: RandomSource,
    /// Whether the name is provided, and not the letter.
    pub long: bool,
}

/// Whether a reset with the given arguments makes the provider give names
/// and not letters, or what is wrong with the arguments. Without arguments
/// it gives letters; else the first argument, a truth value, decides.
pub open spec fn long_after_reset(arguments: Seq<ArgumentView>) -> Result<
    bool,
    ProviderErrorView,
> {
    if arguments.len() == 0 {
        Ok(false)
    } else {
        match arguments[0] {
            ArgumentView::Boolean(value) => Ok(value),
            other => Err(ProviderErrorView::UnexpectedArgument(argument_text(other), "Boolean"@)),
        }
    }
}

/// The value that stands for a gender: its name or its letter.
pub open spec fn gender_cell(gender: Gender, long: bool) -> CellValueView {
    if long {
        CellValueView::String(gender.long@)
    } else {
        CellValueView::String(seq![gender.short])
    }
}

impl ProviderImpl for GenderProvider {
    /// A provider of letters.
    fn new(data: &ProviderCreationData) -> (r: Result<Self, ProviderError>)
        ensures
            r matches Ok(provider) && !provider.long && provider.rng.kind() == data.randomness,
    {
        Ok(GenderProvider { rng: RandomSource::new(data.randomness), long: false })
    }

    /// A reset goes well unless the first argument is no truth value.
    open spec fn accepts(&self, arguments: Seq<ArgumentView>) -> bool {
        long_after_reset(arguments) is Ok
    }

    /// Chooses between names and letters. Where the first argument is no
    /// truth value, the provider stays as it is.
    fn reset(&mut self, arguments: &Vec<Argument>) -> (r: Result<(), ProviderError>)
        ensures
            match long_after_reset(arguments_view(arguments@)) {
                Ok(long) => r is Ok && final(self).long == long,
                Err(error) => (r matches Err(e) && e@ == error) && final(self).long == old(
                    self,
                ).long,
            },
            final(self).rng == old(self).rng,
    {
        if arguments.len() == 0 {
            self.long = false;
            return Ok(());
        }
        assert(arguments_view(arguments@)[0] == arguments@[0]@);
        match &arguments[0] {
            Argument::Boolean(should_be_long) => {
                self.long = *should_be_long;
                Ok(())
            },
            other => Err(ProviderError::UnexpectedArgument(other.text(), "Boolean".to_string())),
        }
    }

    /// One of the genders, by its name or by its letter.
    fn provide(&mut self) -> (r: Result<CellValue, ProviderError>)
        ensures
            r matches Ok(value) && exists|gender: Gender|
                is_listed(gender) && value@ == #[trigger] gender_cell(gender, old(self).long),
            final(self).long == old(self).long,
            final(self).rng.kind() == old(self).rng.kind(),
    {
        let list = gender_list();
        let gender: &Gender = match self.rng.pick(list.as_slice()) {
            Some(gender) => gender,
            None => {
                return Err(ProviderError::Unknown("there are no genders".to_string()));
            },
        };
        assert(is_listed(*gender));
        let value = if self.long {
            CellValue::String(gender.long.to_string())
        } else {
            CellValue::String(char_text(gender.short))
        };
        assert(value@ == gender_cell(*gender, self.long));
        Ok(value)
    }
}

} // verus!
