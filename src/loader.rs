//! Turning the cells of the corner-kick table into typed observations.

use vstd::prelude::*;

use crate::error::{Column, MyError, ParseError};
use crate::fixture::{fixture_of, Fixture};
use crate::teams::{lemma_roster_closure, team_name, team_of_name, Teams};
use crate::text::{chars_of, count_of, micro_of, parse_count, parse_micro, slice_eq};

verus! {

/// One team's record of one fixture, as read from one row.
#[derive(Debug, Clone, Copy, PartialEq, Eq, Structural)]
pub struct DataSource {
    pub team: Teams,
    pub game: Fixture,
    /// Week of the season, from 1.
    pub game_week: u32,
    pub total_ck_for: u32,
    pub shots_from_ck: u32,
    /// Expected goals from corner kicks, in millionths of a goal.
    pub xg: u32,
}

/// Where each column stands in a record.
#[derive(Debug, Clone, Copy, PartialEq, Eq, Structural)]
pub struct Columns {
    pub team: usize,
    pub game: usize,
    pub game_week: usize,
    pub total_ck_for: usize,
    pub shots_from_ck: usize,
    pub xg: usize,
}

pub open spec fn column_title(c: Column) -> Seq<char> {
    match c {
        Column::Team => "team"@,
        Column::Match => "match"@,
        Column::GameWeek => "game_week"@,
        Column::TotalCkFor => "total_ck_for"@,
        Column::ShotsFromCk => "shots_from_ck"@,
        Column::Xg => "xg"@,
        Column::Winning => "Winning"@,
        Column::Drawing => "Drawing"@,
        Column::Losing => "Losing"@,
    }
}

/// The first index `i < n` of the header that holds `title`.
pub open spec fn header_index(h: Seq<Seq<char>>, title: Seq<char>, n: int) -> Option<int>
    decreases n,
{
    if n <= 0 {
        None
    } else {
        match header_index(h, title, n - 1) {
            Some(i) => Some(i),
            None => if h[n - 1] == title {
                Some(n - 1)
            } else {
                None
            },
        }
    }
}

pub open spec fn position_of(h: Seq<Seq<char>>, c: Column) -> Option<int> {
    header_index(h, column_title(c), h.len() as int)
}

/// The positions of the columns, or the first missing one, in the order
/// team, match, game week, corner kicks, shots, expected goals.
pub open spec fn columns_of(h: Seq<Seq<char>>) -> Result<Columns, ParseError> {
    match (
        position_of(h, Column::Team),
        position_of(h, Column::Match),
        position_of(h, Column::GameWeek),
        position_of(h, Column::TotalCkFor),
        position_of(h, Column::ShotsFromCk),
        position_of(h, Column::Xg),
    ) {
        (None, _, _, _, _, _) => Err(ParseError::MissingColumn(Column::Team)),
        (_, None, _, _, _, _) => Err(ParseError::MissingColumn(Column::Match)),
        (_, _, None, _, _, _) => Err(ParseError::MissingColumn(Column::GameWeek)),
        (_, _, _, None, _, _) => Err(ParseError::MissingColumn(Column::TotalCkFor)),
        (_, _, _, _, None, _) => Err(ParseError::MissingColumn(Column::ShotsFromCk)),
        (_, _, _, _, _, None) => Err(ParseError::MissingColumn(Column::Xg)),
        (Some(a), Some(b), Some(c), Some(d), Some(e), Some(f)) => Ok(
            Columns {
                team: a as usize,
                game: b as usize,
                game_week: c as usize,
                total_ck_for: d as usize,
                shots_from_ck: e as usize,
                xg: f as usize,
            },
        ),
    }
}

/// A count cell: a whole number that fits in `u32`.
pub open spec fn u32_of(s: Seq<char>) -> Option<u32> {
    match count_of(s) {
        Some(n) => if n <= u32::MAX {
            Some(n as u32)
        } else {
            None
        },
        None => None,
    }
}

/// A week cell: a whole number from 1 that fits in `u32`.
pub open spec fn week_of(s: Seq<char>) -> Option<u32> {
    match u32_of(s) {
        Some(n) => if n >= 1 {
            Some(n)
        } else {
            None
        },
        None => None,
    }
}

/// An expected-goals cell, in millionths, that fits in `u32`.
pub open spec fn xg_of(s: Seq<char>) -> Option<u32> {
    match micro_of(s) {
        Some(n) => if n <= u32::MAX {
            Some(n as u32)
        } else {
            None
        },
        None => None,
    }
}

/// The observation of record `r`, or why it does not fit. Cells are checked
/// in column order.
pub open spec fn record_of(c: Columns, row: Seq<Seq<char>>, r: int) -> Result<DataSource, ParseError> {
    if c.team >= row.len() || c.game >= row.len() || c.game_week >= row.len() || c.total_ck_for
        >= row.len() || c.shots_from_ck >= row.len() || c.xg >= row.len() {
        Err(ParseError::ShortRow { row: r as usize })
    } else {
        match (
            team_of_name(row[c.team as int]),
            fixture_of(row[c.game as int]),
            week_of(row[c.game_week as int]),
            u32_of(row[c.total_ck_for as int]),
            u32_of(row[c.shots_from_ck as int]),
            xg_of(row[c.xg as int]),
        ) {
            (None, _, _, _, _, _) => Err(ParseError::BadValue { row: r as usize, column: Column::Team }),
            (_, None, _, _, _, _) => Err(ParseError::BadValue { row: r as usize, column: Column::Match }),
            (_, _, None, _, _, _) => Err(
                ParseError::BadValue { row: r as usize, column: Column::GameWeek },
            ),
            (_, _, _, None, _, _) => Err(
                ParseError::BadValue { row: r as usize, column: Column::TotalCkFor },
            ),
            (_, _, _, _, None, _) => Err(
                ParseError::BadValue { row: r as usize, column: Column::ShotsFromCk },
            ),
            (_, _, _, _, _, None) => Err(ParseError::BadValue { row: r as usize, column: Column::Xg }),
            (Some(t), Some(f), Some(w), Some(k), Some(s), Some(x)) => Ok(
                DataSource {
                    team: t,
                    game: f,
                    game_week: w,
                    total_ck_for: k,
                    shots_from_ck: s,
                    xg: x,
                },
            ),
        }
    }
}

/// The first `n` data records, or the first failure among them.
pub open spec fn records_of(c: Columns, rows: Seq<Seq<Seq<char>>>, n: int) -> Result<
    Seq<DataSource>,
    ParseError,
>
    decreases n,
{
    if n <= 0 {
        Ok(Seq::empty())
    } else {
        match records_of(c, rows, n - 1) {
            Err(e) => Err(e),
            Ok(s) => match record_of(c, rows[n - 1], n - 1) {
                Ok(d) => Ok(s.push(d)),
                Err(e) => Err(e),
            },
        }
    }
}

/// The table's header: its first record, or nothing for an empty table.
pub open spec fn header_of(cells: Seq<Seq<Seq<char>>>) -> Seq<Seq<char>> {
    if cells.len() > 0 {
        cells[0]
    } else {
        Seq::empty()
    }
}

/// The observations of a table whose first record is the header.
pub open spec fn table_of(cells: Seq<Seq<Seq<char>>>) -> Result<Seq<DataSource>, ParseError> {
    match columns_of(header_of(cells)) {
        Err(e) => Err(e),
        Ok(c) => records_of(c, cells.skip(1), cells.len() - 1),
    }
}

proof fn lemma_header_index_found(h: Seq<Seq<char>>, title: Seq<char>, i: int, n: int)
    requires
        0 <= i < n <= h.len(),
        header_index(h, title, i) is None,
        h[i] == title,
    ensures
        header_index(h, title, n) == Some(i),
    decreases n - i,
{
    if n > i + 1 {
        lemma_header_index_found(h, title, i, n - 1);
    }
}

pub fn column_name(c: Column) -> (r: &'static str)
    ensures
        r@ == column_title(c),
{
    match c {
        Column::Team => "team",
        Column::Match => "match",
        Column::GameWeek => "game_week",
        Column::TotalCkFor => "total_ck_for",
        Column::ShotsFromCk => "shots_from_ck",
        Column::Xg => "xg",
        Column::Winning => "Winning",
        Column::Drawing => "Drawing",
        Column::Losing => "Losing",
    }
}

/// The first position of the header that holds `title`.
pub fn find_column(header: &Vec<String>, title: &str) -> (r: Option<usize>)
    ensures
        match r {
            Some(i) => i < header@.len() && header_index(
                header.deep_view(),
                title@,
                header@.len() as int,
            ) == Some(i as int),
            None => header_index(header.deep_view(), title@, header@.len() as int) is None,
        },
{
    let ghost h = header.deep_view();
    let mut i: usize = 0;
    while i < header.len()
        invariant
            i <= header@.len(),
            h == header.deep_view(),
            h.len() == header@.len(),
            header_index(h, title@, i as int) is None,
        decreases header@.len() - i,
    {
        let cell = chars_of(header[i].as_str());
        let n = cell.len();
        assert(cell@.subrange(0, n as int) == cell@);
        if slice_eq(&cell, 0, n, title) {
            assert(h[i as int] == header@[i as int]@);
            proof {
                lemma_header_index_found(h, title@, i as int, h.len() as int);
            }
            return Some(i);
        }
        i += 1;
    }
    None
}

/// Finds where each column stands in the header.
pub fn locate_columns(header: &Vec<String>) -> (r: Result<Columns, ParseError>)
    ensures
        r == columns_of(header.deep_view()),
{
    let a = find_column(header, column_name(Column::Team));
    let b = find_column(header, column_name(Column::Match));
    let c = find_column(header, column_name(Column::GameWeek));
    let d = find_column(header, column_name(Column::TotalCkFor));
    let e = find_column(header, column_name(Column::ShotsFromCk));
    let f = find_column(header, column_name(Column::Xg));
    match (a, b, c, d, e, f) {
        (None, _, _, _, _, _) => Err(ParseError::MissingColumn(Column::Team)),
        (_, None, _, _, _, _) => Err(ParseError::MissingColumn(Column::Match)),
        (_, _, None, _, _, _) => Err(ParseError::MissingColumn(Column::GameWeek)),
        (_, _, _, None, _, _) => Err(ParseError::MissingColumn(Column::TotalCkFor)),
        (_, _, _, _, None, _) => Err(ParseError::MissingColumn(Column::ShotsFromCk)),
        (_, _, _, _, _, None) => Err(ParseError::MissingColumn(Column::Xg)),
        (Some(a), Some(b), Some(c), Some(d), Some(e), Some(f)) => Ok(
            Columns {
                team: a,
                game: b,
                game_week: c,
                total_ck_for: d,
                shots_from_ck: e,
                xg: f,
            },
        ),
    }
}

pub fn cell_chars(row: &Vec<String>, i: usize) -> (r: Vec<char>)
    requires
        i < row@.len(),
    ensures
        r@ == row.deep_view()[i as int],
{
    chars_of(row[i].as_str())
}

fn u32_cell(v: &Vec<char>) -> (r: Option<u32>)
    ensures
        r == u32_of(v@),
{
    let n = v.len();
    assert(v@.subrange(0, n as int) == v@);
    match parse_count(v, 0, n, u32::MAX as u64) {
        Some(x) => Some(x as u32),
        None => None,
    }
}

fn week_cell(v: &Vec<char>) -> (r: Option<u32>)
    ensures
        r == week_of(v@),
{
    match u32_cell(v) {
        Some(w) => if w >= 1 {
            Some(w)
        } else {
            None
        },
        None => None,
    }
}

pub fn team_cell(v: &Vec<char>) -> (r: Option<Teams>)
    ensures
        r == team_of_name(v@),
{
    let n = v.len();
    assert(v@.subrange(0, n as int) == v@);
    Teams::from_chars(v, 0, n)
}

/// Reads data record number `r` with the columns at `c`.
pub fn parse_record(c: &Columns, row: &Vec<String>, r: usize) -> (res: Result<DataSource, ParseError>)
    ensures
        res == record_of(*c, row.deep_view(), r as int),
{
    let n = row.len();
    if c.team >= n || c.game >= n || c.game_week >= n || c.total_ck_for >= n || c.shots_from_ck
        >= n || c.xg >= n {
        return Err(ParseError::ShortRow { row: r });
    }
    let team = team_cell(&cell_chars(row, c.team));
    let game = Fixture::parse(&cell_chars(row, c.game));
    let week = week_cell(&cell_chars(row, c.game_week));
    let kicks = u32_cell(&cell_chars(row, c.total_ck_for));
    let shots = u32_cell(&cell_chars(row, c.shots_from_ck));
    let xg = parse_micro(&cell_chars(row, c.xg));
    match (team, game, week, kicks, shots, xg) {
        (None, _, _, _, _, _) => Err(ParseError::BadValue { row: r, column: Column::Team }),
        (_, None, _, _, _, _) => Err(ParseError::BadValue { row: r, column: Column::Match }),
        (_, _, None, _, _, _) => Err(ParseError::BadValue { row: r, column: Column::GameWeek }),
        (_, _, _, None, _, _) => Err(ParseError::BadValue { row: r, column: Column::TotalCkFor }),
        (_, _, _, _, None, _) => Err(ParseError::BadValue { row: r, column: Column::ShotsFromCk }),
        (_, _, _, _, _, None) => Err(ParseError::BadValue { row: r, column: Column::Xg }),
        (Some(t), Some(f), Some(w), Some(k), Some(s), Some(x)) => Ok(
            DataSource {
                team: t,
                game: f,
                game_week: w,
                total_ck_for: k,
                shots_from_ck: s,
                xg: x,
            },
        ),
    }
}

/// Reads the observations of a table whose first record is the header.
/// Fails on the first record, in table order, that does not fit.
pub fn parse_table(cells: &Vec<Vec<String>>) -> (r: Result<Vec<DataSource>, ParseError>)
    ensures
        match r {
            Ok(v) => table_of(cells.deep_view()) == Ok::<Seq<DataSource>, ParseError>(v@),
            Err(e) => table_of(cells.deep_view()) == Err::<Seq<DataSource>, ParseError>(e),
        },
{
    let ghost d = cells.deep_view();
    let empty: Vec<String> = Vec::new();
    let header = if cells.len() > 0 {
        &cells[0]
    } else {
        &empty
    };
    assert(header.deep_view() == header_of(d));
    let c = match locate_columns(header) {
        Ok(c) => c,
        Err(e) => return Err(e),
    };
    let ghost rows = d.skip(1);
    let mut out: Vec<DataSource> = Vec::new();
    let mut i: usize = 1;
    while i < cells.len()
        invariant
            1 <= i <= cells@.len() || (i == 1 && cells@.len() == 0),
            d == cells.deep_view(),
            rows == d.skip(1),
            columns_of(header_of(d)) == Ok::<Columns, ParseError>(c),
            records_of(c, rows, i - 1) == Ok::<Seq<DataSource>, ParseError>(out@),
        decreases cells@.len() - i,
    {
        assert(rows[i - 1] == cells@[i as int].deep_view());
        match parse_record(&c, &cells[i], i - 1) {
            Ok(rec) => {
                out.push(rec);
            },
            Err(e) => {
                proof {
                    lemma_records_err(c, rows, i as int, rows.len() as int);
                }
                return Err(e);
            },
        }
        i += 1;
    }
    assert(cells@.len() == 0 ==> rows.len() == 0);
    Ok(out)
}

pub proof fn lemma_records_err(c: Columns, rows: Seq<Seq<Seq<char>>>, n: int, m: int)
    requires
        0 <= n <= m,
        records_of(c, rows, n) is Err,
    ensures
        records_of(c, rows, m) == records_of(c, rows, n),
    decreases m - n,
{
    if m > n {
        lemma_records_err(c, rows, n, m - 1);
    }
}

proof fn lemma_records_rows(c: Columns, rows: Seq<Seq<Seq<char>>>, n: int, k: int)
    requires
        0 <= k < n,
        records_of(c, rows, n) is Ok,
    ensures
        records_of(c, rows, n)->Ok_0.len() == n,
        record_of(c, rows[k], k) == Ok::<DataSource, ParseError>(records_of(c, rows, n)->Ok_0[k]),
    decreases n,
{
    if k < n - 1 {
        lemma_records_rows(c, rows, n - 1, k);
    } else if n - 1 > 0 {
        lemma_records_rows(c, rows, n - 1, 0);
    }
}

/// Roster closure: a table with a data record whose team cell names no team
/// of the roster is refused with a parse error; and in a table that is
/// accepted, every observation's team carries exactly the name in its
/// record's team cell.
pub proof fn lemma_roster_closed_table(cells: Seq<Seq<Seq<char>>>, k: int)
    requires
        1 <= k < cells.len(),
    ensures
        columns_of(header_of(cells)) matches Ok(c) ==> (c.team < cells[k].len() && team_of_name(
            cells[k][c.team as int],
        ) is None ==> table_of(cells) is Err),
        table_of(cells) matches Ok(s) ==> (columns_of(header_of(cells)) matches Ok(c) && s.len()
            == cells.len() - 1 && team_name(s[k - 1].team) == cells[k][c.team as int]),
{
    let rows = cells.skip(1);
    if let Ok(c) = columns_of(header_of(cells)) {
        assert(rows[k - 1] == cells[k]);
        if records_of(c, rows, k) is Err {
            lemma_records_err(c, rows, k, rows.len() as int);
        } else if c.team < cells[k].len() && team_of_name(cells[k][c.team as int]) is None {
            assert(records_of(c, rows, k + 1) is Err);
            lemma_records_err(c, rows, k + 1, rows.len() as int);
        }
        if let Ok(s) = table_of(cells) {
            lemma_records_rows(c, rows, rows.len() as int, k - 1);
            lemma_roster_closure(cells[k][c.team as int]);
        }
    }
}

} // verus!
