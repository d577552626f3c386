//! From the bytes of a corner-kick document to joined records.

use vstd::prelude::*;

use crate::error::MyError;
use crate::input::{csv_cells, csv_error_text, read_csv};
use crate::join::{join_fixtures, joined, CornerKickData};
use crate::loader::{parse_table, table_of, DataSource};
use crate::tilt::{join_tilt, parse_tilt_table, tilt_join_prefix, tilt_table_of, FieldTilt};

verus! {

/// Reads the observations of a CSV document whose first record is the
/// header. Fails with `Csv` when the document is not well-formed CSV, and
/// otherwise exactly as `parse_table` does on its cells.
pub fn load_observations(bytes: &[u8]) -> (r: Result<Vec<DataSource>, MyError>)
    ensures
        match csv_cells(bytes@) {
            None => r matches Err(MyError::Csv(_)),
            Some(c) => match table_of(c) {
                Ok(s) => r matches Ok(v) && v@ == s,
                Err(e) => r == Err::<Vec<DataSource>, MyError>(MyError::Parse(e)),
            },
        },
{
    let cells = match read_csv(bytes) {
        Ok(c) => c,
        Err(e) => return Err(MyError::Csv(csv_error_text(&e))),
    };
    match parse_table(&cells) {
        Ok(v) => Ok(v),
        Err(e) => Err(MyError::Parse(e)),
    }
}

/// Reads a corner-kick document and joins every record with its opponent's
/// record: `Csv` for a document that is not well-formed CSV, `Parse` for the
/// first record that does not fit the schema, `Join` for the first record
/// without a single opponent record.
pub fn parse_csv(bytes: &[u8]) -> (r: Result<Vec<CornerKickData>, MyError>)
    ensures
        match csv_cells(bytes@) {
            None => r matches Err(MyError::Csv(_)),
            Some(c) => match table_of(c) {
                Err(e) => r == Err::<Vec<CornerKickData>, MyError>(MyError::Parse(e)),
                Ok(s) => match joined(s) {
                    Ok(j) => r matches Ok(v) && v@ == j,
                    Err(e) => r == Err::<Vec<CornerKickData>, MyError>(MyError::Join(e)),
                },
            },
        },
{
    let obs = match load_observations(bytes) {
        Ok(v) => v,
        Err(e) => return Err(e),
    };
    match join_fixtures(&obs) {
        Ok(v) => Ok(v),
        Err(e) => Err(MyError::Join(e)),
    }
}

/// Reads a field-tilt document and sets every record against its
/// opponent's record of the same fixture: `Csv` for a document that is not
/// well-formed CSV, `Parse` for the first record that does not fit the
/// schema, `Join` for the first record without a single opponent record.
pub fn parse_field_tilt(bytes: &[u8]) -> (r: Result<Vec<FieldTilt>, MyError>)
    ensures
        match csv_cells(bytes@) {
            None => r matches Err(MyError::Csv(_)),
            Some(c) => match tilt_table_of(c) {
                Err(e) => r == Err::<Vec<FieldTilt>, MyError>(MyError::Parse(e)),
                Ok(s) => match tilt_join_prefix(s, s.len() as int) {
                    Ok(j) => r matches Ok(v) && v@ == j,
                    Err(e) => r == Err::<Vec<FieldTilt>, MyError>(MyError::Join(e)),
                },
            },
        },
{
    let cells = match read_csv(bytes) {
        Ok(c) => c,
        Err(e) => return Err(MyError::Csv(csv_error_text(&e))),
    };
    let obs = match parse_tilt_table(&cells) {
        Ok(v) => v,
        Err(e) => return Err(MyError::Parse(e)),
    };
    match join_tilt(&obs) {
        Ok(v) => Ok(v),
        Err(e) => Err(MyError::Join(e)),
    }
}

} // verus!
