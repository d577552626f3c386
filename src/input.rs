//! Reading the cells of a CSV document, through the `csv` crate.

use vstd::prelude::*;

verus! {

#[verifier::external_type_specification]
#[verifier::external_body]
pub struct ExCsvError(csv::Error);

/// The records of a CSV document, each a sequence of cells, or `None` when
/// the document is not well-formed (invalid UTF-8, records of unequal
/// length). What counts as a cell is the `csv` crate's reading of RFC 4180.
pub uninterp spec fn csv_cells(bytes: Seq<u8>) -> Option<Seq<Seq<Seq<char>>>>;

/// Relies on `csv::ReaderBuilder::from_reader` with headers off and
/// `Reader::records`: every record of the document, the header included, in
/// order; parsing depends on the bytes alone.
#[verifier::external_body]
pub(crate) fn read_csv(bytes: &[u8]) -> (r: Result<Vec<Vec<String>>, csv::Error>)
    ensures
        match r {
            Ok(t) => csv_cells(bytes@) == Some(t.deep_view()),
            Err(_) => csv_cells(bytes@) is None,
        },
{
    let mut reader = csv::ReaderBuilder::new().has_headers(false).from_reader(bytes);
    reader.records().map(|rec| rec.map(|r| r.iter().map(String::from).collect())).collect()
}

/// Relies on the `Display` impl of `csv::Error` for a readable message.
#[verifier::external_body]
pub(crate) fn csv_error_text(e: &csv::Error) -> (r: String) {
    e.to_string()
}

} // verus!
