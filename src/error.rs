//! Errors of the pipeline.

use vstd::prelude::*;

use crate::teams::Teams;

verus! {

/// A column of the corner-kick table or of the field-tilt table.
#[derive(Debug, Clone, Copy, PartialEq, Eq, Structural)]
pub enum Column {
    Team,
    Match,
    GameWeek,
    TotalCkFor,
    ShotsFromCk,
    Xg,
    Winning,
    Drawing,
    Losing,
}

/// A record that does not fit the table's schema. `row` is the position of
/// the record among the data records, counting from 0.
#[derive(Debug, Clone, Copy, PartialEq, Eq, Structural)]
pub enum ParseError {
    /// The header names no such column.
    MissingColumn(Column),
    /// The record has fewer cells than the columns it needs.
    ShortRow { row: usize },
    /// The cell does not hold a value of the column's kind.
    BadValue { row: usize, column: Column },
}

/// A record whose opponent cannot be told apart. `row` is the position of
/// the record in the joined sequence.
#[derive(Debug, Clone, Copy, PartialEq, Eq, Structural)]
pub enum JoinError {
    /// The record's team is not exactly one of the two sides of its fixture.
    ForeignTeam { row: usize },
    /// No record of the opponent for the same fixture and week.
    NoOpponent { row: usize },
    /// More than one record of the opponent for the same fixture and week.
    AmbiguousOpponent { row: usize },
}

/// Everything that can stop a run.
#[derive(Debug, Clone, PartialEq, Eq)]
pub enum MyError {
    /// The input could not be read.
    Io(String),
    /// The input is not well-formed CSV.
    Csv(String),
    /// A chart could not be drawn.
    Plotters(String),
    /// A record does not fit the schema.
    Parse(ParseError),
    /// A record has no single opponent record.
    Join(JoinError),
    /// A team faced or took no corner kick all season, so a per-corner ratio
    /// has no value.
    Computation(Teams),
}

} // verus!
