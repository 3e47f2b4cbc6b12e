//! The provider `first_name`: one of the first names of a list.
//!
//! The list is a text with one name on each line. It is handed over when
//! the provider is made.

use vstd::prelude::*;
use crate::generator::CellValue;
use crate::parser::config::{Argument, ArgumentView};
use crate::provider::{ProviderCreationData, ProviderError, ProviderErrorView, ProviderImpl};
use crate::random::RandomSource;
use crate::text::{lines_of, split_lines, texts_of};

verus! {

/// Chooses among the first names of a list.
pub struct FirstNameProvider {
    pub rng: RandomSource,
    /// The names to choose from.
    pub items: Vec<String>,
}

impl ProviderImpl for FirstNameProvider {
    /// A provider of the names that the list holds, one on each line.
    /// Where there is no list, there is no provider, for the same reason.
    fn new(data: &ProviderCreationData) -> (r: Result<Self, ProviderError>)
        ensures
            match data.first_names {
                Ok(list) => r matches Ok(provider) && texts_of(provider.items@) == lines_of(list@)
                    && provider.rng.kind() == data.randomness,
                Err(reason) => r matches Err(e) && e@ == ProviderErrorView::Unknown(reason@),
            },
    {
        match &data.first_names {
            Ok(list) => Ok(
                FirstNameProvider {
                    rng: RandomSource::new(data.randomness),
                    items: split_lines(list.as_str()),
                },
            ),
            Err(reason) => Err(ProviderError::Unknown(reason.clone())),
        }
    }

    /// Every reset goes well: the provider takes no arguments.
    open spec fn accepts(&self, arguments: Seq<ArgumentView>) -> bool {
        true
    }

    /// Goes well, whatever the arguments, and leaves the provider as it is.
    fn reset(&mut self, _arguments: &Vec<Argument>) -> (r: Result<(), ProviderError>)
        ensures
            r is Ok,
            *final(self) == *old(self),
    {
        Ok(())
    }

    /// One of the names. There is none where the list is empty.
    fn provide(&mut self) -> (r: Result<CellValue, ProviderError>)
        ensures
            old(self).items@.len() > 0 ==> (r matches Ok(CellValue::String(name)) && texts_of(
                old(self).items@,
            ).contains(name@)),
            old(self).items@.len() == 0 ==> r matches Err(ProviderError::Unknown(_)),
            final(self).items == old(self).items,
            final(self).rng.kind() == old(self).rng.kind(),
    {
        if self.items.len() == 0 {
            return Err(ProviderError::Unknown("there are no names to choose from".to_string()));
        }
        let selected: usize = self.rng.index_below(self.items.len());
        assert(texts_of(self.items@)[selected as int] == self.items@[selected as int]@);
        Ok(CellValue::String(self.items[selected].clone()))
    }
}

} // verus!
