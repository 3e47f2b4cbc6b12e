//! The provider `random`: one of the values that the column lists.

use vstd::prelude::*;
use crate::generator::{cell_of_argument, cells_view, CellValue, CellValueView};
use crate::parser::config::{arguments_view, Argument, ArgumentView};
use crate::provider::{ProviderCreationData, ProviderError, ProviderErrorView, ProviderImpl};
use crate::random::RandomSource;

verus! {

/// Chooses among the values that it was reset with.
pub struct RandomProvider {
    pub rng: RandomSource,
    /// The values to choose from.
    pub items: Vec<CellValue>,
}

/// The values that stand for the given arguments, in the same order.
pub open spec fn cells_of_arguments(arguments: Seq<ArgumentView>) -> Seq<CellValueView> {
    arguments.map_values(|argument: ArgumentView| cell_of_argument(argument))
}

/// Whatever a provider hands out that chooses among the values of two
/// arguments or more is the value of one of those arguments.
pub proof fn lemma_provides_an_argument(
    provider: RandomProvider,
    arguments: Seq<ArgumentView>,
    value: CellValueView,
)
    requires
        arguments.len() >= 2,
        cells_view(provider.items@) == cells_of_arguments(arguments),
        cells_view(provider.items@).contains(value),
    ensures
        exists|place: int|
            0 <= place < arguments.len() && value == cell_of_argument(#[trigger] arguments[place]),
{
    let place = choose|place: int|
        0 <= place < cells_view(provider.items@).len() && cells_view(provider.items@)[place]
            == value;
    assert(cells_of_arguments(arguments)[place] == cell_of_argument(arguments[place]));
}

impl ProviderImpl for RandomProvider {
    /// A provider without values to choose from.
    fn new(data: &ProviderCreationData) -> (r: Result<Self, ProviderError>)
        ensures
            r matches Ok(provider) && provider.items@.len() == 0 && provider.rng.kind()
                == data.randomness,
    {
        Ok(RandomProvider { rng: RandomSource::new(data.randomness), items: Vec::new() })
    }

    /// A reset goes well with two arguments or more.
    open spec fn accepts(&self, arguments: Seq<ArgumentView>) -> bool {
        arguments.len() >= 2
    }

    /// Takes the arguments as the values to choose from. There must be two
    /// of them at least, or the provider stays as it is.
    fn reset(&mut self, arguments: &Vec<Argument>) -> (r: Result<(), ProviderError>)
        ensures
            arguments@.len() < 2 ==> (r matches Err(e) && e@
                == ProviderErrorView::TooFewArguments(arguments@.len() as int, 2))
                && final(self).items == old(self).items,
            arguments@.len() >= 2 ==> r is Ok && cells_view(final(self).items@)
                == cells_of_arguments(arguments_view(arguments@)),
            final(self).rng == old(self).rng,
    {
        if arguments.len() < 2 {
            return Err(ProviderError::TooFewArguments(arguments.len(), 2));
        }
        let mut items: Vec<CellValue> = Vec::with_capacity(arguments.len());
        let mut i: usize = 0;
        while i < arguments.len()
            invariant
                i <= arguments@.len(),
                cells_view(items@) == cells_of_arguments(arguments_view(arguments@)).take(
                    i as int,
                ),
            decreases arguments@.len() - i,
        {
            let ghost before = cells_view(items@);
            let value = CellValue::from(&arguments[i]);
            let ghost view = value@;
            items.push(value);
            proof {
                let all = cells_of_arguments(arguments_view(arguments@));
                assert(cells_view(items@) == before.push(view));
                assert(all[i as int] == cell_of_argument(arguments@[i as int]@));
                assert(all.take(i as int + 1) == all.take(i as int).push(all[i as int]));
            }
            i += 1;
        }
        proof {
            let all = cells_of_arguments(arguments_view(arguments@));
            assert(all.take(all.len() as int) == all);
        }
        self.items = items;
        Ok(())
    }

    /// One of the values. There is none where there are no values to choose
    /// from.
    fn provide(&mut self) -> (r: Result<CellValue, ProviderError>)
        ensures
            old(self).items@.len() > 0 ==> (r matches Ok(value) && cells_view(
                old(self).items@,
            ).contains(value@)),
            old(self).items@.len() == 0 ==> r matches Err(ProviderError::Unknown(_)),
            final(self).items == old(self).items,
            final(self).rng.kind() == old(self).rng.kind(),
    {
        if self.items.len() == 0 {
            return Err(ProviderError::Unknown("there are no values to choose from".to_string()));
        }
        let selected: usize = self.rng.index_below(self.items.len());
        assert(cells_view(self.items@)[selected as int] == self.items@[selected as int]@);
        Ok(self.items[selected].clone())
    }
}

} // verus!
