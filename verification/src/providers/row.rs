//! The provider `row`: the number of the row, counted from one.

use vstd::prelude::*;
use crate::generator::{CellValue, CellValueView};
use crate::parser::config::{Argument, ArgumentView};
use crate::provider::{ProviderCreationData, ProviderError, ProviderImpl};

verus! {

/// Counts the rows of a column.
pub struct RowProvider {
    /// The number that the next row gets.
    pub curr_count: u64,
}

impl RowProvider {
    /// The counter as it is after a reset: the next row is the first.
    pub open spec fn fresh() -> RowProvider {
        RowProvider { curr_count: 1 }
    }

    /// Whether there is a number left for the next row.
    pub open spec fn can_provide(self) -> bool {
        self.curr_count < u64::MAX
    }

    /// The value that the next row gets.
    pub open spec fn provided(self) -> CellValueView {
        CellValueView::UnsignedInt(self.curr_count)
    }

    /// The counter after one more row.
    pub open spec fn advanced(self) -> RowProvider {
        RowProvider { curr_count: (self.curr_count + 1) as u64 }
    }

    /// The counter after so many more rows.
    pub open spec fn advanced_by(self, rows: nat) -> RowProvider
        decreases rows,
    {
        if rows == 0 {
            self
        } else {
            self.advanced_by((rows - 1) as nat).advanced()
        }
    }

    /// After a reset the rows are numbered 1, 2, 3 and so on: the row that
    /// comes after `rows` others gets the number `rows + 1`.
    pub proof fn lemma_counts_from_one(rows: nat)
        requires
            rows + 1 < u64::MAX,
        ensures
            Self::fresh().advanced_by(rows).can_provide(),
            Self::fresh().advanced_by(rows).provided() == CellValueView::UnsignedInt(
                (rows + 1) as u64,
            ),
        decreases rows,
    {
        if rows > 0 {
            Self::lemma_counts_from_one((rows - 1) as nat);
        }
    }
}

impl ProviderImpl for RowProvider {
    /// A counter that starts at one.
    fn new(_data: &ProviderCreationData) -> (r: Result<Self, ProviderError>)
        ensures
            r == Ok::<Self, ProviderError>(Self::fresh()),
    {
        Ok(RowProvider { curr_count: 1 })
    }

    /// Every reset goes well.
    open spec fn accepts(&self, arguments: Seq<ArgumentView>) -> bool {
        true
    }

    /// Starts again at one, whatever the arguments.
    fn reset(&mut self, _arguments: &Vec<Argument>) -> (r: Result<(), ProviderError>)
        ensures
            r is Ok,
            *final(self) == Self::fresh(),
    {
        self.curr_count = 1;
        Ok(())
    }

    /// The number of the next row. Once the numbers of 64 bits are used
    /// up, there is none.
    fn provide(&mut self) -> (r: Result<CellValue, ProviderError>)
        ensures
            old(self).can_provide() ==> (r matches Ok(value) && value@ == old(self).provided())
                && *final(self) == old(self).advanced(),
            !old(self).can_provide() ==> (r matches Err(ProviderError::Unknown(_)))
                && *final(self) == *old(self),
    {
        if self.curr_count == u64::MAX {
            return Err(ProviderError::Unknown("the row numbers are used up".to_string()));
        }
        let temp: u64 = self.curr_count;
        self.curr_count += 1;
        Ok(CellValue::UnsignedInt(temp))
    }
}

} // verus!
