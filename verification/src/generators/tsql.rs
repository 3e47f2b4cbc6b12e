//! A writer of `insert` statements.
//!
//! Every row of a table becomes one statement on a line of its own:
//! `insert into <table> (<col1>, <col2>, ...) values (<v1>, <v2>, ...);`
//! with the columns in the order in which they were handed over. Numbers
//! are written in plain decimal notation, a text between single quotes as
//! it is (a quote inside it is not escaped), and a truth value as `1` or `0`.

use vstd::prelude::*;
use crate::generator::{
    data_view,
    CellValue,
    CellValueView,
    ColumnData,
    ColumnDataView,
    GeneratorData,
    GeneratorError,
    GeneratorImpl,
};
use crate::text::{decimal_text, i64_text, u64_text};

verus! {

/// The parts in a row, with the separator between each two of them.
pub open spec fn joined(parts: Seq<Seq<char>>, separator: Seq<char>) -> Seq<char>
    decreases parts.len(),
{
    if parts.len() == 0 {
        Seq::empty()
    } else if parts.len() == 1 {
        parts[0]
    } else {
        parts[0] + separator + joined(parts.skip(1), separator)
    }
}

/// How a generated value is written in a statement.
pub open spec fn cell_text(value: CellValueView) -> Seq<char> {
    match value {
        CellValueView::Int(value) => decimal_text(value as int),
        CellValueView::UnsignedInt(value) => decimal_text(value as int),
        CellValueView::Float(value) => value,
        CellValueView::String(value) => "'"@ + value + "'"@,
        CellValueView::Boolean(value) => if value {
            "1"@
        } else {
            "0"@
        },
    }
}

/// The values of a row as they are written.
pub open spec fn cell_texts(cells: Seq<CellValueView>) -> Seq<Seq<char>> {
    cells.map_values(|cell: CellValueView| cell_text(cell))
}

/// The names of the columns.
pub open spec fn column_names(columns: Seq<ColumnDataView>) -> Seq<Seq<char>> {
    columns.map_values(|column: ColumnDataView| column.name)
}

/// The front of every statement for a table: everything up to the values,
/// with the blank before them.
pub open spec fn statement_front(table_name: Seq<char>, names: Seq<Seq<char>>) -> Seq<char> {
    "insert into "@ + table_name + " ("@ + joined(names, ", "@) + ") values "@
}

/// The statement for one row, with the end of its line.
pub open spec fn row_text(front: Seq<char>, cells: Seq<CellValueView>) -> Seq<char> {
    front + "("@ + joined(cell_texts(cells), ", "@) + ");\n"@
}

/// The values of the row of the given number: one of each column.
pub open spec fn row_cells(columns: Seq<ColumnDataView>, row: int) -> Seq<CellValueView> {
    Seq::new(columns.len(), |column: int| columns[column].data[row])
}

/// The statements for the first `rows` rows of a table.
pub open spec fn rows_text(front: Seq<char>, columns: Seq<ColumnDataView>, rows: nat) -> Seq<char>
    decreases rows,
{
    if rows == 0 {
        Seq::empty()
    } else {
        rows_text(front, columns, (rows - 1) as nat) + row_text(
            front,
            row_cells(columns, rows - 1),
        )
    }
}

/// The columns can be written as so many rows: each of them holds a value
/// for every row, and there is a column at all where there is a row.
pub open spec fn fills_rows(columns: Seq<ColumnDataView>, rows: nat) -> bool {
    &&& rows > 0 ==> columns.len() > 0
    &&& forall|column: int|
        0 <= column < columns.len() ==> (#[trigger] columns[column]).data.len() >= rows
}

/// Writes tables as `insert` statements.
pub struct TsqlGenerator {
    /// The table that is written.
    pub table_name: String,
    /// The number of rows that are written of it.
    pub row_count: usize,
    /// What has been written since the generator was given its table.
    pub output: String,
    /// The front of every statement, up to the values: set by
    /// `generate_columns`.
    pub columns: String,
    /// Whether the generator has been given a table.
    pub initialized: bool,
}

impl TsqlGenerator {
    /// Writes `data` at the end of the output.
    pub fn write_to_output(&mut self, data: String) -> (r: Result<(), GeneratorError>)
        ensures
            old(self).initialized ==> r is Ok && final(self).output@ == old(self).output@
                + data@,
            !old(self).initialized ==> r == Err::<(), GeneratorError>(
                GeneratorError::Uninitialized,
            ) && final(self).output@ == old(self).output@,
            final(self).table_name == old(self).table_name,
            final(self).row_count == old(self).row_count,
            final(self).columns == old(self).columns,
            final(self).initialized == old(self).initialized,
    {
        if !self.initialized {
            return Err(GeneratorError::Uninitialized);
        }
        self.output.append(data.as_str());
        Ok(())
    }

    /// Sets the front of the statements from the name of the table and the
    /// names of the columns.
    pub fn generate_columns(&mut self, columns: &Vec<ColumnData>) -> (r: Result<
        (),
        GeneratorError,
    >)
        ensures
            r is Ok,
            final(self).columns@ == statement_front(
                old(self).table_name@,
                column_names(data_view(columns@)),
            ),
            final(self).table_name == old(self).table_name,
            final(self).row_count == old(self).row_count,
            final(self).output == old(self).output,
            final(self).initialized == old(self).initialized,
    {
        let ghost names = column_names(data_view(columns@));
        let mut front = "insert into ".to_string();
        front.append(self.table_name.as_str());
        front.append(" (");
        let ghost start = front@;
        let n: usize = columns.len();
        let mut i: usize = 0;
        assert(names.skip(0) == names);
        while i < n
            invariant
                i <= n,
                n == columns@.len(),
                names == column_names(data_view(columns@)),
                front@ + joined(names.skip(i as int), ", "@) == start + joined(names, ", "@),
            decreases n - i,
        {
            proof {
                assert(names.skip(i as int)[0] == columns@[i as int].name@);
                assert(names.skip(i as int).skip(1) == names.skip(i as int + 1));
            }
            let ghost before = front@;
            front.append(columns[i].name.as_str());
            if i + 1 < n {
                front.append(", ");
                assert(front@ + joined(names.skip(i as int + 1), ", "@) == before + (
                columns@[i as int].name@ + ", "@ + joined(names.skip(i as int + 1), ", "@)));
            } else {
                assert(joined(names.skip(i as int + 1), ", "@) == Seq::<char>::empty());
                assert(front@ + joined(names.skip(i as int + 1), ", "@) == before
                    + columns@[i as int].name@);
            }
            i += 1;
        }
        assert(joined(names.skip(n as int), ", "@) == Seq::<char>::empty());
        assert(front@ + Seq::<char>::empty() == front@);
        front.append(") values ");
        assert(front@ == start + joined(names, ", "@) + ") values "@);
        self.columns = front;
        Ok(())
    }

    /// Writes the statement for one row. A row without values cannot be
    /// written, and nothing is written of it.
    pub fn generate_row(&mut self, rows: &Vec<&CellValue>) -> (r: Result<(), GeneratorError>)
        ensures
            !old(self).initialized ==> r == Err::<(), GeneratorError>(
                GeneratorError::Uninitialized,
            ) && final(self).output@ == old(self).output@,
            old(self).initialized && rows@.len() == 0 ==> (r matches Err(
                GeneratorError::Write(_),
            ) && final(self).output@ == old(self).output@),
            old(self).initialized && rows@.len() > 0 ==> r is Ok && final(self).output@ == old(
                self,
            ).output@ + row_text(old(self).columns@, rows@.map_values(|cell: &CellValue| cell@)),
            final(self).table_name == old(self).table_name,
            final(self).row_count == old(self).row_count,
            final(self).columns == old(self).columns,
            final(self).initialized == old(self).initialized,
    {
        if !self.initialized {
            return Err(GeneratorError::Uninitialized);
        }
        let n: usize = rows.len();
        if n == 0 {
            return Err(GeneratorError::Write("a row without values".to_string()));
        }
        let ghost cells = rows@.map_values(|cell: &CellValue| cell@);
        let ghost texts = cell_texts(cells);
        let ghost wanted = old(self).output@ + row_text(old(self).columns@, cells);
        match self.write_to_output(self.columns.clone()) {
            Ok(()) => {},
            Err(e) => {
                return Err(e);
            },
        }
        match self.write_to_output("(".to_string()) {
            Ok(()) => {},
            Err(e) => {
                return Err(e);
            },
        }
        assert(self.output@ + joined(texts, ", "@) + ");\n"@ == wanted);
        let mut i: usize = 0;
        assert(texts.skip(0) == texts);
        while i < n - 1
            invariant
                i <= n - 1,
                n == rows@.len(),
                n > 0,
                self.initialized,
                cells == rows@.map_values(|cell: &CellValue| cell@),
                texts == cell_texts(cells),
                self.output@ + joined(texts.skip(i as int), ", "@) + ");\n"@ == wanted,
                self.table_name == old(self).table_name,
                self.row_count == old(self).row_count,
                self.columns == old(self).columns,
            decreases n - i,
        {
            let ghost before = self.output@;
            proof {
                assert(texts.skip(i as int)[0] == cell_text(rows@[i as int]@));
                assert(texts.skip(i as int).skip(1) == texts.skip(i as int + 1));
            }
            let data = match self.format_cell_value(rows[i]) {
                Ok(data) => data,
                Err(e) => {
                    return Err(e);
                },
            };
            match self.write_to_output(data) {
                Ok(()) => {},
                Err(e) => {
                    return Err(e);
                },
            }
            match self.write_to_output(", ".to_string()) {
                Ok(()) => {},
                Err(e) => {
                    return Err(e);
                },
            }
            assert(self.output@ + joined(texts.skip(i as int + 1), ", "@) + ");\n"@ == before + (
            texts.skip(i as int)[0] + ", "@ + joined(texts.skip(i as int + 1), ", "@)) + ");\n"@);
            i += 1;
        }
        proof {
            assert(texts.skip(n - 1)[0] == cell_text(rows@[n - 1]@));
            assert(texts.skip(n - 1).len() == 1);
        }
        let last_row_data = match self.format_cell_value(rows[n - 1]) {
            Ok(data) => data,
            Err(e) => {
                return Err(e);
            },
        };
        match self.write_to_output(last_row_data) {
            Ok(()) => {},
            Err(e) => {
                return Err(e);
            },
        }
        self.write_to_output(");\n".to_string())
    }
}

impl GeneratorImpl for TsqlGenerator {
    /// A generator that has not been given a table yet.
    fn new() -> (r: Result<Self, GeneratorError>)
        ensures
            (r matches Ok(generator) && !generator.initialized && generator.output@.len() == 0
                && generator.columns@.len() == 0 && generator.table_name@.len() == 0
                && generator.row_count == 0),
    {
        Ok(
            TsqlGenerator {
                table_name: String::new(),
                row_count: 0,
                output: String::new(),
                columns: String::new(),
                initialized: false,
            },
        )
    }

    /// Gives the generator its table and a fresh, empty output.
    fn init(&mut self, table_name: String, row_count: usize) -> (r: Result<(), GeneratorError>)
        ensures
            r is Ok,
            final(self).table_name == table_name,
            final(self).row_count == row_count,
            final(self).output@.len() == 0,
            final(self).initialized,
            final(self).columns == old(self).columns,
    {
        self.table_name = table_name;
        self.row_count = row_count;
        self.output = String::new();
        self.initialized = true;
        Ok(())
    }

    /// How a generated value is written in a statement.
    fn format_cell_value(&mut self, value: &CellValue) -> (r: Result<String, GeneratorError>)
        ensures
            (r matches Ok(text) && text@ == cell_text(value@)),
            *final(self) == *old(self),
    {
        Ok(
            match value {
                CellValue::Int(value) => i64_text(*value),
                CellValue::UnsignedInt(value) => u64_text(*value),
                CellValue::Float(value) => value.clone(),
                CellValue::String(value) => {
                    let mut quoted = "'".to_string();
                    quoted.append(value.as_str());
                    quoted.append("'");
                    quoted
                },
                CellValue::Boolean(true) => "1".to_string(),
                CellValue::Boolean(false) => "0".to_string(),
            },
        )
    }

    /// Writes the rows of a table, one statement each. Where the generator
    /// has no table yet, or where a column holds too few values for the
    /// rows, the call fails and nothing is written.
    fn generate(&mut self, data: GeneratorData) -> (r: Result<(), GeneratorError>)
        ensures
            !old(self).initialized ==> r == Err::<(), GeneratorError>(
                GeneratorError::Uninitialized,
            ) && *final(self) == *old(self),
            old(self).initialized && !fills_rows(data_view(data@), old(self).row_count as nat)
                ==> (r matches Err(GeneratorError::Write(_)) && *final(self) == *old(self)),
            old(self).initialized && fills_rows(data_view(data@), old(self).row_count as nat)
                ==> r is Ok && final(self).columns@ == statement_front(
                old(self).table_name@,
                column_names(data_view(data@)),
            ) && final(self).output@ == old(self).output@ + rows_text(
                final(self).columns@,
                data_view(data@),
                old(self).row_count as nat,
            ),
            final(self).table_name == old(self).table_name,
            final(self).row_count == old(self).row_count,
            final(self).initialized == old(self).initialized,
    {
        if !self.initialized {
            return Err(GeneratorError::Uninitialized);
        }
        let ghost columns = data_view(data@);
        let n: usize = data.len();
        if self.row_count > 0 && n == 0 {
            return Err(GeneratorError::Write("a table without columns".to_string()));
        }
        let mut c: usize = 0;
        while c < n
            invariant
                c <= n,
                n == data@.len(),
                columns == data_view(data@),
                *self == *old(self),
                self.initialized,
                forall|k: int| 0 <= k < c ==> (#[trigger] columns[k]).data.len() >= self.row_count,
            decreases n - c,
        {
            if data[c].data.len() < self.row_count {
                assert(columns[c as int].data.len() < self.row_count);
                return Err(
                    GeneratorError::Write("a column with fewer values than rows".to_string()),
                );
            }
            assert(columns[c as int].data.len() == data@[c as int].data@.len());
            c += 1;
        }
        match self.generate_columns(&data) {
            Ok(()) => {},
            Err(e) => {
                return Err(e);
            },
        }
        let ghost front = self.columns@;
        let mut row_data: Vec<&CellValue> = Vec::with_capacity(n);
        let mut i: usize = 0;
        while i < self.row_count
            invariant
                i <= self.row_count,
                n == data@.len(),
                self.row_count > 0 ==> n > 0,
                columns == data_view(data@),
                fills_rows(columns, self.row_count as nat),
                self.initialized,
                self.columns@ == front,
                self.table_name == old(self).table_name,
                self.row_count == old(self).row_count,
                row_data@.len() == 0,
                self.output@ == old(self).output@ + rows_text(front, columns, i as nat),
            decreases self.row_count - i,
        {
            let mut k: usize = 0;
            while k < n
                invariant
                    k <= n,
                    i < self.row_count,
                    n == data@.len(),
                    columns == data_view(data@),
                    fills_rows(columns, self.row_count as nat),
                    row_data@.len() == k,
                    forall|j: int|
                        0 <= j < k ==> (#[trigger] row_data@[j])@ == columns[j].data[i as int],
                decreases n - k,
            {
                assert(columns[k as int].data.len() >= self.row_count);
                assert(columns[k as int].data.len() == data@[k as int].data@.len());
                row_data.push(&data[k].data[i]);
                k += 1;
            }
            assert(row_data@.map_values(|cell: &CellValue| cell@) == row_cells(columns, i as int));
            match self.generate_row(&row_data) {
                Ok(()) => {},
                Err(e) => {
                    return Err(e);
                },
            }
            row_data.clear();
            i += 1;
        }
        Ok(())
    }

    /// Hands out what has been written, and goes on with an empty output.
    fn take_output(&mut self) -> (text: String)
        ensures
            text == old(self).output,
            final(self).output@.len() == 0,
            final(self).table_name == old(self).table_name,
            final(self).row_count == old(self).row_count,
            final(self).columns == old(self).columns,
            final(self).initialized == old(self).initialized,
    {
        let mut text = String::new();
        std::mem::swap(&mut text, &mut self.output);
        text
    }
}

/// The statements for a table: one for each of its first `row_count` rows.
/// Where a column holds too few values for the rows, or there are rows but
/// no columns, there are none.
pub fn write_table(table_name: String, row_count: usize, data: GeneratorData) -> (r: Result<
    String,
    GeneratorError,
>)
    ensures
        fills_rows(data_view(data@), row_count as nat) ==> (r matches Ok(text) && text@
            == rows_text(
            statement_front(table_name@, column_names(data_view(data@))),
            data_view(data@),
            row_count as nat,
        )),
        !fills_rows(data_view(data@), row_count as nat) ==> r matches Err(
            GeneratorError::Write(_),
        ),
{
    let mut generator = match TsqlGenerator::new() {
        Ok(generator) => generator,
        Err(e) => {
            return Err(e);
        },
    };
    match generator.init(table_name, row_count) {
        Ok(()) => {},
        Err(e) => {
            return Err(e);
        },
    }
    let ghost front = statement_front(table_name@, column_names(data_view(data@)));
    let ghost wanted = rows_text(front, data_view(data@), row_count as nat);
    match generator.generate(data) {
        Ok(()) => {},
        Err(e) => {
            return Err(e);
        },
    }
    assert(generator.output@ == Seq::<char>::empty() + wanted);
    assert(Seq::<char>::empty() + wanted == wanted);
    Ok(generator.take_output())
}

} // verus!
