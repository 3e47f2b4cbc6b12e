//! What a run is started with.

use vstd::prelude::*;
use crate::parser::config::text_is;

verus! {

/// What a run is started with.
#[derive(Debug)]
pub struct Args {
    /// The number of rows to make for each table.
    pub row_count: usize,
    /// The format in which the rows are written.
    pub format: String,
    /// The folder that the rows are written to.
    pub output: String,
    /// The file that holds the configuration.
    pub config: String,
}

/// The formats that there are to choose from.
pub open spec fn is_output_type(format: Seq<char>) -> bool {
    format == "tsql"@ || format == "csv"@ || format == "json"@ || format == "xml"@
}

/// Tells whether a format is one of those that there are to choose from;
/// where it is not, the message names them.
pub fn validate_output_type(format: &str) -> (r: Result<(), String>)
    ensures
        is_output_type(format@) ==> r is Ok,
        !is_output_type(format@) ==> (r matches Err(message) && message@
            == "valid output types are tsql, csv, json, xml."@),
{
    let allowed: bool = text_is(format, "tsql") || text_is(format, "csv") || text_is(
        format,
        "json",
    ) || text_is(format, "xml");
    if !allowed {
        return Err("valid output types are tsql, csv, json, xml.".to_string());
    }
    Ok(())
}

} // verus!
