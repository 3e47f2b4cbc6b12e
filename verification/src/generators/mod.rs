//! The writers that there are, one for each format.

use vstd::prelude::*;
use crate::generator::{data_view, CellValue, GeneratorData, GeneratorError, GeneratorImpl};
use crate::generators::tsql::{
    cell_text,
    column_names,
    fills_rows,
    rows_text,
    statement_front,
    TsqlGenerator,
};

pub mod tsql;

verus! {

/// A writer of one of the formats that there are. It does what the writer
/// of its format does.
pub enum AnyGenerator {
    Tsql(TsqlGenerator),
}

impl AnyGenerator {
    /// The writer of `insert` statements that this is.
    pub open spec fn tsql(self) -> TsqlGenerator {
        match self {
            AnyGenerator::Tsql(generator) => generator,
        }
    }

    /// The writer has not been given a table yet, and has written nothing.
    pub open spec fn is_fresh(self) -> bool {
        &&& !self.tsql().initialized
        &&& self.tsql().output@.len() == 0
        &&& self.tsql().columns@.len() == 0
        &&& self.tsql().table_name@.len() == 0
        &&& self.tsql().row_count == 0
    }
}

impl GeneratorImpl for AnyGenerator {
    /// A writer of `insert` statements that has not been given a table yet.
    fn new() -> (r: Result<Self, GeneratorError>)
        ensures
            r matches Ok(generator) && generator.is_fresh(),
    {
        match TsqlGenerator::new() {
            Ok(generator) => Ok(AnyGenerator::Tsql(generator)),
            Err(e) => Err(e),
        }
    }

    /// Gives the writer its table and a fresh, empty output.
    fn init(&mut self, table_name: String, row_count: usize) -> (r: Result<(), GeneratorError>)
        ensures
            r is Ok,
            final(self).tsql().table_name == table_name,
            final(self).tsql().row_count == row_count,
            final(self).tsql().output@.len() == 0,
            final(self).tsql().initialized,
            final(self).tsql().columns == old(self).tsql().columns,
    {
        match self {
            AnyGenerator::Tsql(generator) => generator.init(table_name, row_count),
        }
    }

    /// How a generated value is written.
    fn format_cell_value(&mut self, value: &CellValue) -> (r: Result<String, GeneratorError>)
        ensures
            (r matches Ok(text) && text@ == cell_text(value@)),
            *final(self) == *old(self),
    {
        match self {
            AnyGenerator::Tsql(generator) => generator.format_cell_value(value),
        }
    }

    /// Writes the rows of a table. Where the writer has no table yet, or
    /// where a column holds too few values for the rows, the call fails
    /// and nothing is written.
    fn generate(&mut self, data: GeneratorData) -> (r: Result<(), GeneratorError>)
        ensures
            !old(self).tsql().initialized ==> r == Err::<(), GeneratorError>(
                GeneratorError::Uninitialized,
            ) && *final(self) == *old(self),
            old(self).tsql().initialized && !fills_rows(
                data_view(data@),
                old(self).tsql().row_count as nat,
            ) ==> (r matches Err(GeneratorError::Write(_)) && *final(self) == *old(self)),
            old(self).tsql().initialized && fills_rows(
                data_view(data@),
                old(self).tsql().row_count as nat,
            ) ==> r is Ok && final(self).tsql().columns@ == statement_front(
                old(self).tsql().table_name@,
                column_names(data_view(data@)),
            ) && final(self).tsql().output@ == old(self).tsql().output@ + rows_text(
                final(self).tsql().columns@,
                data_view(data@),
                old(self).tsql().row_count as nat,
            ),
            final(self).tsql().table_name == old(self).tsql().table_name,
            final(self).tsql().row_count == old(self).tsql().row_count,
            final(self).tsql().initialized == old(self).tsql().initialized,
    {
        match self {
            AnyGenerator::Tsql(generator) => generator.generate(data),
        }
    }

    /// Hands out what has been written, and goes on with an empty output.
    fn take_output(&mut self) -> (text: String)
        ensures
            text == old(self).tsql().output,
            final(self).tsql().output@.len() == 0,
            final(self).tsql().table_name == old(self).tsql().table_name,
            final(self).tsql().row_count == old(self).tsql().row_count,
            final(self).tsql().columns == old(self).tsql().columns,
            final(self).tsql().initialized == old(self).tsql().initialized,
    {
        match self {
            AnyGenerator::Tsql(generator) => generator.take_output(),
        }
    }
}

} // verus!
