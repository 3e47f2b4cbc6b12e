//! A run, from the text of a configuration to the text of its output.

use vstd::prelude::*;
use crate::arguments::Args;
use crate::generator::{
    data_view,
    CellValue,
    ColumnData,
    GeneratorData,
    GeneratorError,
    GeneratorImpl,
};
use crate::generators::tsql::{column_names, fills_rows, rows_text, statement_front};
use crate::parser::config::{
    arguments_view,
    compatible,
    text_is,
    ArgumentView,
    Column,
    ColumnType,
    Config,
    Table,
};
use crate::parser::errors::{agrees, ParserError};
use crate::parser::{grammar, Parser};
use crate::generator::CellValueView;
use crate::provider::{ProviderError, ProviderErrorView};
use crate::providers::{can_give, may_give, name_list, reset_result, AnyProvider};
use crate::random::Randomness;
use crate::registry::registrars::{
    lemma_provider_names_differ,
    provider_kind,
    provider_names,
    register_generators,
    register_providers,
    ProviderKind,
    ProviderRegistry,
};
use crate::registry::Creator;
use crate::registry::RegistryError;

verus! {

/// The ways in which a run fails once its configuration is read.
#[derive(Debug)]
pub enum MockerError {
    /// No provider could be had for a column.
    ProviderRegistry(RegistryError<ProviderError>),
    /// A provider failed, or provided what its column cannot hold.
    Provider(ProviderError),
    /// No generator could be had for the format.
    GeneratorRegistry(RegistryError<GeneratorError>),
    /// The generator failed.
    Generator(GeneratorError),
}

/// The rows of every table, by the name of the table, in the order of the
/// configuration.
pub type MockData = Vec<(String, GeneratorData)>;

/// What is to be written to one file.
#[derive(Debug)]
pub struct OutputFile {
    /// The name of the file, without a folder.
    pub name: String,
    /// What the file holds.
    pub content: String,
}

/// The ending of the files of a format: `sql` for `tsql`, and the name of
/// the format itself for every other.
pub open spec fn file_extension(format: Seq<char>) -> Seq<char> {
    if format == "tsql"@ {
        "sql"@
    } else {
        format
    }
}

/// The name of the file for a table: the name of the table, a point, and
/// the ending of the format.
pub open spec fn file_name(table: Seq<char>, format: Seq<char>) -> Seq<char> {
    table + "."@ + file_extension(format)
}

/// The columns of a table can be written as so many rows: each of them
/// holds a value for every row, and there is a column at all where there
/// is a row.
pub open spec fn can_be_written(table: (String, GeneratorData), row_count: usize) -> bool {
    fills_rows(data_view(table.1@), row_count as nat)
}

/// The file is that of the table in the format `tsql`: it has the name of
/// the table and the ending of the format, and holds one `insert`
/// statement for each of the rows.
pub open spec fn is_file_of(
    file: OutputFile,
    table: (String, GeneratorData),
    format: Seq<char>,
    row_count: usize,
) -> bool {
    &&& file.name@ == file_name(table.0@, format)
    &&& file.content@ == rows_text(
        statement_front(table.0@, column_names(data_view(table.1@))),
        data_view(table.1@),
        row_count as nat,
    )
}

/// The values of a column are as many as there are rows, and each of them
/// may stand in the column.
pub open spec fn fills_column(data: ColumnData, column: Column, row_count: usize) -> bool {
    &&& data.name@ == column.name@
    &&& data.kind == column.kind
    &&& data.data@.len() == row_count
    &&& forall|row: int|
        0 <= row < data.data@.len() ==> compatible(column.kind, #[trigger] data.data@[row]@)
}

/// The provider has a value for the row, and whatever it gives may stand
/// in a column of the type.
pub open spec fn surely_fits(
    kind: ProviderKind,
    arguments: Seq<ArgumentView>,
    names: Seq<Seq<char>>,
    row: nat,
    column_type: ColumnType,
) -> bool {
    &&& can_give(kind, arguments, names, row)
    &&& forall|value: CellValueView| #[trigger]
        may_give(kind, arguments, names, row, value) ==> compatible(column_type, value)
}

/// The provider has a value for the row, and something that it may give
/// may stand in a column of the type.
pub open spec fn may_fit(
    kind: ProviderKind,
    arguments: Seq<ArgumentView>,
    names: Seq<Seq<char>>,
    row: nat,
    column_type: ColumnType,
) -> bool {
    &&& can_give(kind, arguments, names, row)
    &&& exists|value: CellValueView| #[trigger]
        may_give(kind, arguments, names, row, value) && compatible(column_type, value)
}

/// The error is what drawing the value for the row fails with: where the
/// provider has a value for the row, it is a value that may not stand in
/// a column of the type, and the error names the type and the value; where
/// it has none, the error is what the provider says.
pub open spec fn fails_at(
    kind: ProviderKind,
    arguments: Seq<ArgumentView>,
    names: Seq<Seq<char>>,
    row: nat,
    column_type: ColumnType,
    error: ProviderErrorView,
) -> bool {
    if can_give(kind, arguments, names, row) {
        exists|value: CellValueView| #[trigger]
            may_give(kind, arguments, names, row, value) && !compatible(column_type, value)
                && error == ProviderErrorView::IncompatibleType(column_type, value)
    } else {
        error is Unknown
    }
}

/// The value at the place of a row is one that the provider has and may
/// give for the row.
pub open spec fn is_given_at(
    kind: ProviderKind,
    arguments: Seq<ArgumentView>,
    names: Seq<Seq<char>>,
    values: Seq<CellValue>,
    row: int,
) -> bool {
    &&& can_give(kind, arguments, names, row as nat)
    &&& may_give(kind, arguments, names, row as nat, values[row]@)
}

/// What drawing the values of a column from a provider of this kind may
/// come to. Where the reset with the arguments of the column fails, it is
/// the failure of the reset. Else it is a value for every row, each of
/// them one that the provider may give for the row and that may stand in
/// the column; or the failure at the first row that has no such value.
pub open spec fn is_outcome_of_column(
    kind: ProviderKind,
    names: Seq<Seq<char>>,
    column: Column,
    row_count: usize,
    outcome: Result<ColumnData, ProviderError>,
) -> bool {
    let arguments = arguments_view(column.provider.arguments@);
    match reset_result(kind, arguments) {
        Err(error) => outcome matches Err(e) && e@ == error,
        Ok(_) => match outcome {
            Ok(data) => {
                &&& fills_column(data, column, row_count)
                &&& forall|row: int|
                    0 <= row < row_count ==> #[trigger] is_given_at(
                        kind,
                        arguments,
                        names,
                        data.data@,
                        row,
                    )
            },
            Err(e) => exists|row: nat|
                row < row_count && #[trigger] fails_at(
                    kind,
                    arguments,
                    names,
                    row,
                    column.kind,
                    e@,
                ) && forall|before: nat|
                    before < row ==> #[trigger] may_fit(
                        kind,
                        arguments,
                        names,
                        before,
                        column.kind,
                    ),
        },
    }
}

/// Drawing the values of a column from a provider of this kind goes well
/// whatever the provider chooses: the reset with the arguments of the
/// column goes well, and for every row the provider has a value and
/// whatever it gives may stand in the column.
pub open spec fn surely_drawn(
    kind: ProviderKind,
    names: Seq<Seq<char>>,
    column: Column,
    row_count: usize,
) -> bool {
    &&& reset_result(kind, arguments_view(column.provider.arguments@)) is Ok
    &&& forall|row: nat|
        row < row_count ==> #[trigger] surely_fits(
            kind,
            arguments_view(column.provider.arguments@),
            names,
            row,
            column.kind,
        )
}

/// Drawing the values of a column from a provider of this kind fails
/// whatever the provider chooses: the reset with the arguments of the
/// column fails, or there is a row, and for the first row the provider has
/// no value that may stand in the column.
pub open spec fn never_drawn(
    kind: ProviderKind,
    names: Seq<Seq<char>>,
    column: Column,
    row_count: usize,
) -> bool {
    ||| reset_result(kind, arguments_view(column.provider.arguments@)) is Err
    ||| row_count > 0 && !may_fit(
        kind,
        arguments_view(column.provider.arguments@),
        names,
        0,
        column.kind,
    )
}

/// The names that a provider of this kind chooses from: those of the list
/// for the provider of first names, and none for any other.
pub open spec fn names_of(kind: ProviderKind, first_names: Result<String, String>) -> Seq<
    Seq<char>,
> {
    if kind == ProviderKind::FirstName {
        name_list(first_names)
    } else {
        Seq::empty()
    }
}

/// A provider of this name can be had: there is one of the name, and where
/// it is the provider of first names, there is a list of them.
pub open spec fn available(name: Seq<char>, first_names: Result<String, String>) -> bool {
    &&& provider_names().contains(name)
    &&& name == "first_name"@ ==> first_names is Ok
}

/// Why no provider of this name can be had: there is none of the name, or
/// it could not be made, for the reason why there is no list of first
/// names.
pub open spec fn is_refusal(
    error: RegistryError<ProviderError>,
    name: Seq<char>,
    first_names: Result<String, String>,
) -> bool {
    if provider_names().contains(name) {
        &&& name == "first_name"@
        &&& first_names matches Err(reason)
        &&& error matches RegistryError::CreationError(inner)
        &&& inner@ == ProviderErrorView::Unknown(reason@)
    } else {
        error matches RegistryError::UnknownCreator(unknown) && unknown@ == name
    }
}

/// The column is filled whatever its provider chooses: the provider can be
/// had, and drawing the values from it goes well for sure.
pub open spec fn surely_filled(
    column: Column,
    row_count: usize,
    first_names: Result<String, String>,
) -> bool {
    &&& available(column.provider.name@, first_names)
    &&& surely_drawn(
        provider_kind(column.provider.name@),
        names_of(provider_kind(column.provider.name@), first_names),
        column,
        row_count,
    )
}

/// The column is not filled whatever its provider chooses: the provider
/// cannot be had, or drawing the values from it fails for sure.
pub open spec fn never_filled(
    column: Column,
    row_count: usize,
    first_names: Result<String, String>,
) -> bool {
    ||| !available(column.provider.name@, first_names)
    ||| never_drawn(
        provider_kind(column.provider.name@),
        names_of(provider_kind(column.provider.name@), first_names),
        column,
        row_count,
    )
}

/// The values are what the column may get from its provider, which can be
/// had.
pub open spec fn may_hold(
    data: ColumnData,
    column: Column,
    row_count: usize,
    first_names: Result<String, String>,
) -> bool {
    &&& available(column.provider.name@, first_names)
    &&& is_outcome_of_column(
        provider_kind(column.provider.name@),
        names_of(provider_kind(column.provider.name@), first_names),
        column,
        row_count,
        Ok(data),
    )
}

/// The failure is one that filling the column may end with: where the
/// provider of the column cannot be had, the reason why; else what drawing
/// the values from it may fail with.
pub open spec fn is_failure_of(
    column: Column,
    row_count: usize,
    first_names: Result<String, String>,
    failure: MockerError,
) -> bool {
    if available(column.provider.name@, first_names) {
        failure matches MockerError::Provider(e) && is_outcome_of_column(
            provider_kind(column.provider.name@),
            names_of(provider_kind(column.provider.name@), first_names),
            column,
            row_count,
            Err(e),
        )
    } else {
        failure matches MockerError::ProviderRegistry(error) && is_refusal(
            error,
            column.provider.name@,
            first_names,
        )
    }
}

/// The columns of a table are those of its configuration, in the same
/// order, each with values that it may get from its provider.
pub open spec fn fills_table(
    data: (String, GeneratorData),
    table: Table,
    row_count: usize,
    first_names: Result<String, String>,
) -> bool {
    &&& data.0@ == table.name@
    &&& data.1@.len() == table.columns@.len()
    &&& forall|column: int|
        0 <= column < table.columns@.len() ==> may_hold(
            #[trigger] data.1@[column],
            table.columns@[column],
            row_count,
            first_names,
        )
}

/// Every column that stands before the given place in the configuration
/// is filled whatever its provider chooses.
pub open spec fn filled_before(
    config: Config,
    table: int,
    column: int,
    row_count: usize,
    first_names: Result<String, String>,
) -> bool {
    forall|t: int, c: int|
        0 <= t < config.tables@.len() && 0 <= c < config.tables@[t].columns@.len() && (t < table
            || (t == table && c < column)) ==> surely_filled(
            #[trigger] config.tables@[t].columns@[c],
            row_count,
            first_names,
        )
}

/// The registry holds every provider that there is, each under its name
/// and with the creator of its kind, and makes the provider of first names
/// from this list. What it has made is of the kind of its name, and the
/// provider of first names has the names of the list.
pub open spec fn is_stocked(registry: ProviderRegistry, first_names: Result<String, String>) -> bool {
    &&& registry@.dom() == provider_names()
    &&& forall|name: Seq<char>| #[trigger]
        provider_names().contains(name) ==> registry.creator(name) == provider_kind(name)
    &&& registry.creation_data().first_names == first_names
    &&& forall|name: Seq<char>| #[trigger]
        provider_names().contains(name) ==> (registry@[name] matches Some(made) ==> is_made_for(
            made,
            name,
            first_names,
        ))
}

/// The provider is the one that the registry makes for the name.
pub open spec fn is_made_for(
    provider: AnyProvider,
    name: Seq<char>,
    first_names: Result<String, String>,
) -> bool {
    &&& available(name, first_names)
    &&& provider.kind() == provider_kind(name)
    &&& provider.names() == names_of(provider_kind(name), first_names)
}

/// What asking a stocked registry for a provider comes to: the provider is
/// handed out where it is available, and the refusal says why it is not.
proof fn lemma_refusal(
    registry: ProviderRegistry,
    first_names: Result<String, String>,
    name: Seq<char>,
    outcome: Result<AnyProvider, RegistryError<ProviderError>>,
)
    requires
        is_stocked(registry, first_names),
        !registry@.dom().contains(name) ==> (outcome matches Err(
            RegistryError::UnknownCreator(unknown),
        ) && unknown@ == name),
        registry@.dom().contains(name) ==> match outcome {
            Ok(item) => match registry@[name] {
                Some(made) => item == made,
                None => registry.creator(name).creates(registry.creation_data(), Ok(item)),
            },
            Err(error) => {
                &&& registry@[name] is None
                &&& error matches RegistryError::CreationError(inner)
                &&& registry.creator(name).creates(registry.creation_data(), Err(inner))
            },
        },
    ensures
        outcome matches Ok(item) ==> is_made_for(item, name, first_names),
        outcome matches Err(error) ==> !available(name, first_names) && is_refusal(
            error,
            name,
            first_names,
        ),
{
    lemma_provider_names_differ();
    if registry@.dom().contains(name) {
        assert(provider_names().contains(name));
        assert(registry.creator(name) == provider_kind(name));
    }
}

/// Where filling the column at a place fails, and every column before it
/// has been filled, the failure is that of the run: not every column is
/// filled for sure, and a column that is never filled, with columns before
/// it that are filled for sure, is the column at the place.
proof fn lemma_failure_at(
    config: Config,
    table: int,
    column: int,
    row_count: usize,
    first_names: Result<String, String>,
    failure: MockerError,
)
    requires
        0 <= table < config.tables@.len(),
        0 <= column < config.tables@[table].columns@.len(),
        forall|t: int, c: int|
            0 <= t < config.tables@.len() && 0 <= c < config.tables@[t].columns@.len() && (t
                < table || (t == table && c < column)) ==> !never_filled(
                #[trigger] config.tables@[t].columns@[c],
                row_count,
                first_names,
            ),
        is_failure_of(config.tables@[table].columns@[column], row_count, first_names, failure),
        !surely_filled(config.tables@[table].columns@[column], row_count, first_names),
    ensures
        exists|t: int, c: int|
            0 <= t < config.tables@.len() && 0 <= c < config.tables@[t].columns@.len()
                && is_failure_of(
                #[trigger] config.tables@[t].columns@[c],
                row_count,
                first_names,
                failure,
            ),
        !(forall|t: int, c: int|
            0 <= t < config.tables@.len() && 0 <= c < config.tables@[t].columns@.len()
                ==> surely_filled(
                #[trigger] config.tables@[t].columns@[c],
                row_count,
                first_names,
            )),
        forall|t: int, c: int|
            0 <= t < config.tables@.len() && 0 <= c < config.tables@[t].columns@.len()
                && filled_before(config, t, c, row_count, first_names) && never_filled(
                #[trigger] config.tables@[t].columns@[c],
                row_count,
                first_names,
            ) ==> is_failure_of(config.tables@[t].columns@[c], row_count, first_names, failure),
{
    let here = config.tables@[table].columns@[column];
    assert forall|t: int, c: int|
        0 <= t < config.tables@.len() && 0 <= c < config.tables@[t].columns@.len()
            && filled_before(config, t, c, row_count, first_names) && never_filled(
            #[trigger] config.tables@[t].columns@[c],
            row_count,
            first_names,
        ) implies is_failure_of(
        config.tables@[t].columns@[c],
        row_count,
        first_names,
        failure,
    ) by {
        if t < table || (t == table && c < column) {
        } else if t == table && c == column {
        } else {
            assert(surely_filled(here, row_count, first_names));
        }
    }
}

/// The rows of a column that is filled by the provider `row` are numbered
/// from one, whatever columns that provider has filled before.
pub proof fn lemma_rows_are_numbered(
    data: ColumnData,
    column: Column,
    row_count: usize,
    first_names: Result<String, String>,
    row: int,
)
    requires
        column.provider.name@ == "row"@,
        may_hold(data, column, row_count, first_names),
        0 <= row < row_count,
    ensures
        data.data@[row]@ == CellValueView::UnsignedInt((row + 1) as u64),
{
    let kind = provider_kind(column.provider.name@);
    assert(is_given_at(
        kind,
        arguments_view(column.provider.arguments@),
        names_of(kind, first_names),
        data.data@,
        row,
    ));
}

/// Where there are rows, a column of another type than that of whole
/// numbers without sign is never filled by the provider `row`: filling it
/// fails with the type of the column and the number of the first row.
pub proof fn lemma_row_numbers_need_their_type(
    column: Column,
    row_count: usize,
    first_names: Result<String, String>,
    failure: MockerError,
)
    requires
        column.provider.name@ == "row"@,
        column.kind != ColumnType::UnsignedInt,
        row_count > 0,
    ensures
        never_filled(column, row_count, first_names),
        is_failure_of(column, row_count, first_names, failure) ==> (failure matches MockerError::Provider(
            e,
        ) && e@ == ProviderErrorView::IncompatibleType(
            column.kind,
            CellValueView::UnsignedInt(1),
        )),
{
    lemma_provider_names_differ();
    let kind = provider_kind(column.provider.name@);
    let arguments = arguments_view(column.provider.arguments@);
    let names = names_of(kind, first_names);
    assert(provider_names().contains("row"@));
    assert(!may_fit(kind, arguments, names, 0, column.kind));
    if is_failure_of(column, row_count, first_names, failure) {
        let e = failure->Provider_0;
        let row = choose|row: nat|
            row < row_count && #[trigger] fails_at(kind, arguments, names, row, column.kind, e@)
                && forall|before: nat|
                before < row ==> #[trigger] may_fit(kind, arguments, names, before, column.kind);
        if row > 0 {
            assert(may_fit(kind, arguments, names, 0, column.kind));
        }
    }
}

/// Checks that a value that was provided may stand in a column of the
/// given type.
pub fn check_cell(kind: ColumnType, value: CellValue) -> (r: Result<CellValue, ProviderError>)
    ensures
        compatible(kind, value@) ==> r == Ok::<CellValue, ProviderError>(value),
        !compatible(kind, value@) ==> r == Err::<CellValue, ProviderError>(
            ProviderError::IncompatibleType(kind, value),
        ),
{
    if kind.accepts(&value) {
        Ok(value)
    } else {
        Err(ProviderError::IncompatibleType(kind, value))
    }
}

/// Draws the values of one column from its provider: the provider is
/// reset with the arguments that the column gives it and then asked for a
/// value for every row. A reset that fails, a row for which the provider
/// has no value, and a value that may not stand in the column each end the
/// drawing, with what the provider says or with the type of the column and
/// the value.
pub fn fill_column(provider: &mut AnyProvider, column: &Column, row_count: usize) -> (r: Result<
    ColumnData,
    ProviderError,
>)
    ensures
        final(provider).kind() == old(provider).kind(),
        final(provider).names() == old(provider).names(),
        is_outcome_of_column(old(provider).kind(), old(provider).names(), *column, row_count, r),
        surely_drawn(old(provider).kind(), old(provider).names(), *column, row_count) ==> r is Ok,
{
    let ghost kind = provider.kind();
    let ghost names = provider.names();
    let ghost arguments = arguments_view(column.provider.arguments@);
    match provider.reset(&column.provider.arguments) {
        Ok(()) => {},
        Err(e) => {
            return Err(e);
        },
    }
    let mut rows: Vec<CellValue> = Vec::with_capacity(row_count);
    let mut i: usize = 0;
    while i < row_count
        invariant
            i <= row_count,
            rows@.len() == i,
            kind == old(provider).kind(),
            names == old(provider).names(),
            provider.kind() == kind,
            provider.names() == names,
            arguments == arguments_view(column.provider.arguments@),
            reset_result(kind, arguments) is Ok,
            provider.is_drawing(arguments, i as nat),
            forall|row: int|
                0 <= row < i ==> compatible(column.kind, #[trigger] rows@[row]@),
            forall|row: int|
                0 <= row < i ==> #[trigger] is_given_at(kind, arguments, names, rows@, row),
        decreases row_count - i,
    {
        let ghost row = i as nat;
        proof {
            assert forall|before: nat| before < row implies #[trigger] may_fit(
                kind,
                arguments,
                names,
                before,
                column.kind,
            ) by {
                assert(is_given_at(kind, arguments, names, rows@, before as int));
                assert(compatible(column.kind, rows@[before as int]@));
            }
        }
        let value = match provider.provide() {
            Ok(value) => value,
            Err(e) => {
                assert(fails_at(kind, arguments, names, row, column.kind, e@));
                assert(!surely_fits(kind, arguments, names, row, column.kind));
                return Err(e);
            },
        };
        let ghost given = value@;
        assert(may_give(kind, arguments, names, row, given));
        let value = match check_cell(column.kind, value) {
            Ok(value) => value,
            Err(e) => {
                assert(fails_at(kind, arguments, names, row, column.kind, e@));
                assert(!surely_fits(kind, arguments, names, row, column.kind));
                return Err(e);
            },
        };
        let ghost before = rows@;
        rows.push(value);
        proof {
            assert forall|row: int| 0 <= row < i + 1 implies #[trigger] is_given_at(
                kind,
                arguments,
                names,
                rows@,
                row,
            ) by {
                if row < i {
                    assert(is_given_at(kind, arguments, names, before, row));
                }
            }
        }
        i += 1;
    }
    Ok(ColumnData { name: column.name.clone(), kind: column.kind, data: rows })
}

/// The ending of the files of a format.
pub fn extension_for(format: &str) -> (extension: String)
    ensures
        extension@ == file_extension(format@),
{
    if text_is(format, "tsql") {
        "sql".to_string()
    } else {
        String::from_str(format)
    }
}

/// One run.
pub struct Mocker<'a> {
    args: &'a Args,
}

impl<'a> Mocker<'a> {
    /// A run with the given arguments.
    pub fn new(args: &'a Args) -> (mocker: Self)
        ensures
            mocker.args() == args,
    {
        Self { args }
    }

    /// The arguments of the run.
    pub closed spec fn args(&self) -> &Args {
        self.args
    }

    /// Reads the configuration from its text.
    pub fn parse_config(&self, file_content: String) -> (r: Result<Config, ParserError>)
        ensures
            agrees(r, grammar::config(file_content@)),
    {
        let parser = Parser::new(file_content);
        parser.parse()
    }

    /// Makes the rows of every table of the configuration: for every
    /// column, in the order of the configuration, the provider that the
    /// column names is fetched, reset with the arguments of the column and
    /// asked for as many values as there are rows. A provider that is
    /// named twice is made once, and reset for every column.
    ///
    /// Where this goes well, every table of the configuration has its
    /// columns, and every column values that it may get from its provider.
    /// It goes well where every column is filled whatever its provider
    /// chooses. Where it fails, it fails with what filling one of the
    /// columns may end with; and where the first column that is not filled
    /// for sure is one that is never filled, with what filling that column
    /// may end with.
    pub fn generate_mock_data(
        &self,
        config: Config,
        randomness: Randomness,
        first_names: Result<String, String>,
    ) -> (r: Result<MockData, MockerError>)
        ensures
            r matches Ok(data) ==> {
                &&& data@.len() == config.tables@.len()
                &&& forall|table: int|
                    0 <= table < data@.len() ==> fills_table(
                        #[trigger] data@[table],
                        config.tables@[table],
                        self.args().row_count,
                        first_names,
                    )
            },
            (forall|table: int, column: int|
                0 <= table < config.tables@.len() && 0 <= column
                    < config.tables@[table].columns@.len() ==> surely_filled(
                    #[trigger] config.tables@[table].columns@[column],
                    self.args().row_count,
                    first_names,
                )) ==> r is Ok,
            r matches Err(failure) ==> exists|table: int, column: int|
                0 <= table < config.tables@.len() && 0 <= column
                    < config.tables@[table].columns@.len() && is_failure_of(
                    #[trigger] config.tables@[table].columns@[column],
                    self.args().row_count,
                    first_names,
                    failure,
                ),
            forall|table: int, column: int|
                0 <= table < config.tables@.len() && 0 <= column
                    < config.tables@[table].columns@.len() && filled_before(
                    config,
                    table,
                    column,
                    self.args().row_count,
                    first_names,
                ) && never_filled(
                    #[trigger] config.tables@[table].columns@[column],
                    self.args().row_count,
                    first_names,
                ) ==> (r matches Err(failure) && is_failure_of(
                    config.tables@[table].columns@[column],
                    self.args().row_count,
                    first_names,
                    failure,
                )),
    {
        let mut provider_registry = match register_providers(self.args, randomness, first_names) {
            Ok(registry) => registry,
            Err(e) => {
                return Err(MockerError::ProviderRegistry(e));
            },
        };
        let mut generated_data: MockData = Vec::with_capacity(config.tables.len());
        let mut t: usize = 0;
        while t < config.tables.len()
            invariant
                t <= config.tables@.len(),
                provider_registry.wf(),
                is_stocked(provider_registry, first_names),
                generated_data@.len() == t,
                forall|table: int|
                    0 <= table < t ==> fills_table(
                        #[trigger] generated_data@[table],
                        config.tables@[table],
                        self.args().row_count,
                        first_names,
                    ),
                forall|table: int, column: int|
                    0 <= table < t && 0 <= column < config.tables@[table].columns@.len()
                        ==> !never_filled(
                        #[trigger] config.tables@[table].columns@[column],
                        self.args().row_count,
                        first_names,
                    ),
            decreases config.tables@.len() - t,
        {
            let table = &config.tables[t];
            let mut columns: GeneratorData = Vec::with_capacity(table.columns.len());
            let mut c: usize = 0;
            while c < table.columns.len()
                invariant
                    t < config.tables@.len(),
                    *table == config.tables@[t as int],
                    c <= table.columns@.len(),
                    provider_registry.wf(),
                    is_stocked(provider_registry, first_names),
                    columns@.len() == c,
                    forall|column: int|
                        0 <= column < c ==> may_hold(
                            #[trigger] columns@[column],
                            table.columns@[column],
                            self.args().row_count,
                            first_names,
                        ),
                    forall|column: int|
                        0 <= column < c ==> !never_filled(
                            #[trigger] table.columns@[column],
                            self.args().row_count,
                            first_names,
                        ),
                    forall|table: int, column: int|
                        0 <= table < t && 0 <= column < config.tables@[table].columns@.len()
                            ==> !never_filled(
                            #[trigger] config.tables@[table].columns@[column],
                            self.args().row_count,
                            first_names,
                        ),
                decreases table.columns@.len() - c,
            {
                let column = &table.columns[c];
                let ghost name = column.provider.name@;
                let ghost before = provider_registry;
                assert(config.tables@[t as int].columns@[c as int] == *column);
                let provider = match provider_registry.get(column.provider.name.as_str()) {
                    Ok(provider) => provider,
                    Err(e) => {
                        let failure = MockerError::ProviderRegistry(e);
                        proof {
                            lemma_refusal(before, first_names, name, Err(e));
                            lemma_failure_at(
                                config,
                                t as int,
                                c as int,
                                self.args().row_count,
                                first_names,
                                failure,
                            );
                        }
                        return Err(failure);
                    },
                };
                proof {
                    lemma_refusal(before, first_names, name, Ok(*provider));
                }
                let data = match fill_column(provider, column, self.args.row_count) {
                    Ok(data) => data,
                    Err(e) => {
                        let failure = MockerError::Provider(e);
                        proof {
                            lemma_failure_at(
                                config,
                                t as int,
                                c as int,
                                self.args().row_count,
                                first_names,
                                failure,
                            );
                        }
                        return Err(failure);
                    },
                };
                proof {
                    assert(provider_registry@.dom() =~= before@.dom());
                    if self.args().row_count > 0 {
                        assert(compatible(column.kind, data.data@[0]@));
                        assert(is_given_at(
                            provider_kind(name),
                            arguments_view(column.provider.arguments@),
                            names_of(provider_kind(name), first_names),
                            data.data@,
                            0,
                        ));
                    }
                    assert(!never_filled(*column, self.args().row_count, first_names));
                }
                columns.push(data);
                c += 1;
            }
            generated_data.push((table.name.clone(), columns));
            t += 1;
        }
        Ok(generated_data)
    }

    /// Turns the rows of every table into what is to be written: for each
    /// table one file, named after the table and the format, which holds
    /// what the generator of the format has written of the table, given the
    /// name of the table, the number of rows of the run and the columns.
    /// The generator is fetched first; where there is none for the format,
    /// nothing else is done. Else the tables are written in their order,
    /// up to the first that cannot be written, which fails the call.
    pub fn write_mock_data(&self, generated_data: MockData) -> (r: Result<
        Vec<OutputFile>,
        MockerError,
    >)
        ensures
            self.args().format@ != "tsql"@ ==> (r matches Err(
                MockerError::GeneratorRegistry(RegistryError::UnknownCreator(name)),
            ) && name@ == self.args().format@),
            self.args().format@ == "tsql"@ && (forall|table: int|
                0 <= table < generated_data@.len() ==> can_be_written(
                    #[trigger] generated_data@[table],
                    self.args().row_count,
                )) ==> (r matches Ok(files) && files@.len() == generated_data@.len()
                && forall|table: int|
                0 <= table < files@.len() ==> is_file_of(
                    #[trigger] files@[table],
                    generated_data@[table],
                    self.args().format@,
                    self.args().row_count,
                )),
            self.args().format@ == "tsql"@ && (exists|table: int|
                0 <= table < generated_data@.len() && !can_be_written(
                    #[trigger] generated_data@[table],
                    self.args().row_count,
                )) ==> r matches Err(MockerError::Generator(GeneratorError::Write(_))),
    {
        let mut generator_registry = match register_generators(self.args) {
            Ok(registry) => registry,
            Err(e) => {
                return Err(MockerError::GeneratorRegistry(e));
            },
        };
        let ending = extension_for(self.args.format.as_str());
        let generator = match generator_registry.get(self.args.format.as_str()) {
            Ok(generator) => generator,
            Err(e) => {
                return Err(MockerError::GeneratorRegistry(e));
            },
        };
        let mut files: Vec<OutputFile> = Vec::with_capacity(generated_data.len());
        let mut tables = generated_data;
        let ghost all = tables@;
        while tables.len() > 0
            invariant
                self.args().format@ == "tsql"@,
                ending@ == file_extension(self.args().format@),
                all == generated_data@,
                files@.len() + tables@.len() == all.len(),
                tables@ == all.skip(files@.len() as int),
                forall|table: int|
                    0 <= table < files@.len() ==> can_be_written(
                        #[trigger] all[table],
                        self.args().row_count,
                    ),
                forall|table: int|
                    0 <= table < files@.len() ==> is_file_of(
                        #[trigger] files@[table],
                        all[table],
                        self.args().format@,
                        self.args().row_count,
                    ),
            decreases tables@.len(),
        {
            let ghost place = files@.len() as int;
            let (table, data) = tables.remove(0);
            assert(all.skip(place).remove(0) == all.skip(place + 1));
            assert((table, data) == all[place]);
            let mut name = table.clone();
            name.append(".");
            name.append(ending.as_str());
            match generator.init(table, self.args.row_count) {
                Ok(()) => {},
                Err(e) => {
                    return Err(MockerError::Generator(e));
                },
            }
            match generator.generate(data) {
                Ok(()) => {},
                Err(e) => {
                    return Err(MockerError::Generator(e));
                },
            }
            let content = generator.take_output();
            files.push(OutputFile { name, content });
        }
        Ok(files)
    }
}

} // verus!
