//! The field-tilt table: each team's share of the territory while winning,
//! drawing and losing, set against its opponent's in the same fixture and
//! averaged over the season.

use vstd::prelude::*;

use crate::error::{Column, JoinError, ParseError};
use crate::fixture::{fixture_of, opponent_in, Fixture};
use crate::loader::{cell_chars, find_column, header_index, header_of, team_cell, xg_of};
use crate::teams::{contains_team, team_of_name, Teams};
use crate::text::parse_micro;

verus! {

/// One team's record of one fixture in the field-tilt table. The three
/// figures are percentages, in millionths.
#[derive(Debug, Clone, Copy, PartialEq, Eq, Structural)]
pub struct TiltSource {
    pub team: Teams,
    pub game: Fixture,
    pub winning: u32,
    pub drawing: u32,
    pub losing: u32,
}

/// Where each column of the field-tilt table stands in a record.
#[derive(Debug, Clone, Copy, PartialEq, Eq, Structural)]
pub struct TiltColumns {
    pub team: usize,
    pub game: usize,
    pub winning: usize,
    pub drawing: usize,
    pub losing: usize,
}

pub open spec fn tilt_title(c: Column) -> Seq<char> {
    match c {
        Column::Team => "Team"@,
        Column::Match => "Match"@,
        Column::Winning => "Winning"@,
        Column::Drawing => "Drawing"@,
        _ => "Losing"@,
    }
}

pub open spec fn tilt_position(h: Seq<Seq<char>>, c: Column) -> Option<int> {
    header_index(h, tilt_title(c), h.len() as int)
}

/// The positions of the columns, or the first missing one, in the order
/// team, match, winning, drawing, losing.
pub open spec fn tilt_columns_of(h: Seq<Seq<char>>) -> Result<TiltColumns, ParseError> {
    match (
        tilt_position(h, Column::Team),
        tilt_position(h, Column::Match),
        tilt_position(h, Column::Winning),
        tilt_position(h, Column::Drawing),
        tilt_position(h, Column::Losing),
    ) {
        (None, _, _, _, _) => Err(ParseError::MissingColumn(Column::Team)),
        (_, None, _, _, _) => Err(ParseError::MissingColumn(Column::Match)),
        (_, _, None, _, _) => Err(ParseError::MissingColumn(Column::Winning)),
        (_, _, _, None, _) => Err(ParseError::MissingColumn(Column::Drawing)),
        (_, _, _, _, None) => Err(ParseError::MissingColumn(Column::Losing)),
        (Some(a), Some(b), Some(c), Some(d), Some(e)) => Ok(
            TiltColumns {
                team: a as usize,
                game: b as usize,
                winning: c as usize,
                drawing: d as usize,
                losing: e as usize,
            },
        ),
    }
}

/// The record of data row `r`, or why it does not fit. Cells are checked in
/// column order.
pub open spec fn tilt_record_of(c: TiltColumns, row: Seq<Seq<char>>, r: int) -> Result<
    TiltSource,
    ParseError,
> {
    if c.team >= row.len() || c.game >= row.len() || c.winning >= row.len() || c.drawing
        >= row.len() || c.losing >= row.len() {
        Err(ParseError::ShortRow { row: r as usize })
    } else {
        match (
            team_of_name(row[c.team as int]),
            fixture_of(row[c.game as int]),
            xg_of(row[c.winning as int]),
            xg_of(row[c.drawing as int]),
            xg_of(row[c.losing as int]),
        ) {
            (None, _, _, _, _) => Err(ParseError::BadValue { row: r as usize, column: Column::Team }),
            (_, None, _, _, _) => Err(ParseError::BadValue { row: r as usize, column: Column::Match }),
            (_, _, None, _, _) => Err(
                ParseError::BadValue { row: r as usize, column: Column::Winning },
            ),
            (_, _, _, None, _) => Err(
                ParseError::BadValue { row: r as usize, column: Column::Drawing },
            ),
            (_, _, _, _, None) => Err(ParseError::BadValue { row: r as usize, column: Column::Losing }),
            (Some(t), Some(f), Some(w), Some(d), Some(l)) => Ok(
                TiltSource { team: t, game: f, winning: w, drawing: d, losing: l },
            ),
        }
    }
}

/// The first `n` data records, or the first failure among them.
pub open spec fn tilt_records_of(c: TiltColumns, rows: Seq<Seq<Seq<char>>>, n: int) -> Result<
    Seq<TiltSource>,
    ParseError,
>
    decreases n,
{
    if n <= 0 {
        Ok(Seq::empty())
    } else {
        match tilt_records_of(c, rows, n - 1) {
            Err(e) => Err(e),
            Ok(s) => match tilt_record_of(c, rows[n - 1], n - 1) {
                Ok(d) => Ok(s.push(d)),
                Err(e) => Err(e),
            },
        }
    }
}

/// The records of a field-tilt table whose first record is the header.
pub open spec fn tilt_table_of(cells: Seq<Seq<Seq<char>>>) -> Result<Seq<TiltSource>, ParseError> {
    match tilt_columns_of(header_of(cells)) {
        Err(e) => Err(e),
        Ok(c) => tilt_records_of(c, cells.skip(1), cells.len() - 1),
    }
}

proof fn lemma_tilt_records_err(c: TiltColumns, rows: Seq<Seq<Seq<char>>>, n: int, m: int)
    requires
        0 <= n <= m,
        tilt_records_of(c, rows, n) is Err,
    ensures
        tilt_records_of(c, rows, m) == tilt_records_of(c, rows, n),
    decreases m - n,
{
    if m > n {
        lemma_tilt_records_err(c, rows, n, m - 1);
    }
}

fn tilt_column_name(c: Column) -> (r: &'static str)
    ensures
        r@ == tilt_title(c),
{
    match c {
        Column::Team => "Team",
        Column::Match => "Match",
        Column::Winning => "Winning",
        Column::Drawing => "Drawing",
        _ => "Losing",
    }
}

/// Finds where each column of the field-tilt table stands in the header.
pub fn locate_tilt_columns(header: &Vec<String>) -> (r: Result<TiltColumns, ParseError>)
    ensures
        r == tilt_columns_of(header.deep_view()),
{
    let a = find_column(header, tilt_column_name(Column::Team));
    let b = find_column(header, tilt_column_name(Column::Match));
    let c = find_column(header, tilt_column_name(Column::Winning));
    let d = find_column(header, tilt_column_name(Column::Drawing));
    let e = find_column(header, tilt_column_name(Column::Losing));
    match (a, b, c, d, e) {
        (None, _, _, _, _) => Err(ParseError::MissingColumn(Column::Team)),
        (_, None, _, _, _) => Err(ParseError::MissingColumn(Column::Match)),
        (_, _, None, _, _) => Err(ParseError::MissingColumn(Column::Winning)),
        (_, _, _, None, _) => Err(ParseError::MissingColumn(Column::Drawing)),
        (_, _, _, _, None) => Err(ParseError::MissingColumn(Column::Losing)),
        (Some(a), Some(b), Some(c), Some(d), Some(e)) => Ok(
            TiltColumns { team: a, game: b, winning: c, drawing: d, losing: e },
        ),
    }
}

/// Reads data record number `r` of the field-tilt table.
pub fn parse_tilt_record(c: &TiltColumns, row: &Vec<String>, r: usize) -> (res: Result<
    TiltSource,
    ParseError,
>)
    ensures
        res == tilt_record_of(*c, row.deep_view(), r as int),
{
    let n = row.len();
    if c.team >= n || c.game >= n || c.winning >= n || c.drawing >= n || c.losing >= n {
        return Err(ParseError::ShortRow { row: r });
    }
    let team = team_cell(&cell_chars(row, c.team));
    let game = Fixture::parse(&cell_chars(row, c.game));
    let winning = parse_micro(&cell_chars(row, c.winning));
    let drawing = parse_micro(&cell_chars(row, c.drawing));
    let losing = parse_micro(&cell_chars(row, c.losing));
    match (team, game, winning, drawing, losing) {
        (None, _, _, _, _) => Err(ParseError::BadValue { row: r, column: Column::Team }),
        (_, None, _, _, _) => Err(ParseError::BadValue { row: r, column: Column::Match }),
        (_, _, None, _, _) => Err(ParseError::BadValue { row: r, column: Column::Winning }),
        (_, _, _, None, _) => Err(ParseError::BadValue { row: r, column: Column::Drawing }),
        (_, _, _, _, None) => Err(ParseError::BadValue { row: r, column: Column::Losing }),
        (Some(t), Some(f), Some(w), Some(d), Some(l)) => Ok(
            TiltSource { team: t, game: f, winning: w, drawing: d, losing: l },
        ),
    }
}

/// Reads the records of a field-tilt table whose first record is the
/// header. Fails on the first record, in table order, that does not fit.
pub fn parse_tilt_table(cells: &Vec<Vec<String>>) -> (r: Result<Vec<TiltSource>, ParseError>)
    ensures
        match r {
            Ok(v) => tilt_table_of(cells.deep_view()) == Ok::<Seq<TiltSource>, ParseError>(v@),
            Err(e) => tilt_table_of(cells.deep_view()) == Err::<Seq<TiltSource>, ParseError>(e),
        },
{
    let ghost d = cells.deep_view();
    let empty: Vec<String> = Vec::new();
    let header = if cells.len() > 0 {
        &cells[0]
    } else {
        &empty
    };
    assert(header.deep_view() == header_of(d));
    let c = match locate_tilt_columns(header) {
        Ok(c) => c,
        Err(e) => return Err(e),
    };
    let ghost rows = d.skip(1);
    let mut out: Vec<TiltSource> = Vec::new();
    let mut i: usize = 1;
    while i < cells.len()
        invariant
            1 <= i <= cells@.len() || (i == 1 && cells@.len() == 0),
            d == cells.deep_view(),
            rows == d.skip(1),
            tilt_columns_of(header_of(d)) == Ok::<TiltColumns, ParseError>(c),
            tilt_records_of(c, rows, i - 1) == Ok::<Seq<TiltSource>, ParseError>(out@),
        decreases cells@.len() - i,
    {
        assert(rows[i - 1] == cells@[i as int].deep_view());
        match parse_tilt_record(&c, &cells[i], i - 1) {
            Ok(rec) => {
                out.push(rec);
            },
            Err(e) => {
                proof {
                    lemma_tilt_records_err(c, rows, i as int, rows.len() as int);
                }
                return Err(e);
            },
        }
        i += 1;
    }
    assert(cells@.len() == 0 ==> rows.len() == 0);
    Ok(out)
}

/// A record set against its opponent's record of the same fixture: each
/// figure is this team's share, in millionths, of the territory that the
/// two teams held in matching match states.
#[derive(Debug, Clone, Copy, PartialEq, Eq, Structural)]
pub struct FieldTilt {
    pub team: Teams,
    pub opponent: Teams,
    /// Share while winning, against the opponent while losing.
    pub winning: u32,
    /// Share while drawing, against the opponent while drawing.
    pub drawing: u32,
    /// Share while losing, against the opponent while winning.
    pub losing: u32,
}

/// `a / (a + b)` in millionths, rounded down; 0 when both are 0.
pub open spec fn share(a: u32, b: u32) -> u32 {
    if a + b == 0 {
        0
    } else {
        ((a as int * 1_000_000) / (a as int + b as int)) as u32
    }
}

/// Record `j` is the opponent's record for record `i`: the other side of the
/// same fixture.
pub open spec fn is_tilt_opponent_row(obs: Seq<TiltSource>, i: int, j: int) -> bool {
    &&& opponent_in(obs[i].game, obs[i].team) == Some(obs[j].team)
    &&& obs[j].game == obs[i].game
}

pub open spec fn tilt_opponent_rows(obs: Seq<TiltSource>, i: int, n: int) -> nat
    decreases n,
{
    if n <= 0 {
        0
    } else {
        tilt_opponent_rows(obs, i, n - 1) + if is_tilt_opponent_row(obs, i, n - 1) {
            1nat
        } else {
            0nat
        }
    }
}

pub open spec fn first_tilt_opponent_row(obs: Seq<TiltSource>, i: int, n: int) -> Option<int>
    decreases n,
{
    if n <= 0 {
        None
    } else {
        match first_tilt_opponent_row(obs, i, n - 1) {
            Some(j) => Some(j),
            None => if is_tilt_opponent_row(obs, i, n - 1) {
                Some(n - 1)
            } else {
                None
            },
        }
    }
}

pub open spec fn tilt_against(d: TiltSource, o: TiltSource) -> FieldTilt {
    FieldTilt {
        team: d.team,
        opponent: o.team,
        winning: share(d.winning, o.losing),
        drawing: share(d.drawing, o.drawing),
        losing: share(d.losing, o.winning),
    }
}

/// Record `i` set against its single opponent record.
pub open spec fn tilt_join_row(obs: Seq<TiltSource>, i: int) -> Result<FieldTilt, JoinError> {
    if opponent_in(obs[i].game, obs[i].team) is None {
        Err(JoinError::ForeignTeam { row: i as usize })
    } else if tilt_opponent_rows(obs, i, obs.len() as int) == 0 {
        Err(JoinError::NoOpponent { row: i as usize })
    } else if tilt_opponent_rows(obs, i, obs.len() as int) > 1 {
        Err(JoinError::AmbiguousOpponent { row: i as usize })
    } else {
        Ok(tilt_against(obs[i], obs[first_tilt_opponent_row(obs, i, obs.len() as int)->Some_0]))
    }
}

pub open spec fn tilt_join_prefix(obs: Seq<TiltSource>, n: int) -> Result<Seq<FieldTilt>, JoinError>
    decreases n,
{
    if n <= 0 {
        Ok(Seq::empty())
    } else {
        match tilt_join_prefix(obs, n - 1) {
            Err(e) => Err(e),
            Ok(s) => match tilt_join_row(obs, n - 1) {
                Ok(d) => Ok(s.push(d)),
                Err(e) => Err(e),
            },
        }
    }
}

proof fn lemma_tilt_join_err(obs: Seq<TiltSource>, n: int, m: int)
    requires
        0 <= n <= m,
        tilt_join_prefix(obs, n) is Err,
    ensures
        tilt_join_prefix(obs, m) == tilt_join_prefix(obs, n),
    decreases m - n,
{
    if m > n {
        lemma_tilt_join_err(obs, n, m - 1);
    }
}

/// `a / (a + b)` in millionths, rounded down; 0 when both are 0.
pub fn share_of(a: u32, b: u32) -> (r: u32)
    ensures
        r == share(a, b),
        r <= 1_000_000,
{
    let total = a as u64 + b as u64;
    if total == 0 {
        return 0;
    }
    proof {
        assert((a as int * 1_000_000) / (total as int) <= 1_000_000) by (nonlinear_arith)
            requires
                0 <= a <= total,
                total > 0,
        ;
    }
    ((a as u64 * 1_000_000) / total) as u32
}

fn tilt_join_one(obs: &Vec<TiltSource>, i: usize) -> (r: Result<FieldTilt, JoinError>)
    requires
        i < obs@.len(),
    ensures
        r == tilt_join_row(obs@, i as int),
{
    let d = obs[i];
    let opp = match d.game.opponent_of(d.team) {
        None => return Err(JoinError::ForeignTeam { row: i }),
        Some(o) => o,
    };
    let mut count: usize = 0;
    let mut first: usize = 0;
    let mut j: usize = 0;
    while j < obs.len()
        invariant
            i < obs@.len(),
            d == obs@[i as int],
            opponent_in(d.game, d.team) == Some(opp),
            j <= obs@.len(),
            count == tilt_opponent_rows(obs@, i as int, j as int),
            count <= j,
            count > 0 ==> first_tilt_opponent_row(obs@, i as int, j as int) == Some(first as int),
            count == 0 ==> first_tilt_opponent_row(obs@, i as int, j as int) is None,
            count > 0 ==> first < obs@.len(),
        decreases obs@.len() - j,
    {
        let e = obs[j];
        if e.team == opp && e.game == d.game {
            if count == 0 {
                first = j;
            }
            count += 1;
        }
        j += 1;
    }
    if count == 0 {
        Err(JoinError::NoOpponent { row: i })
    } else if count > 1 {
        Err(JoinError::AmbiguousOpponent { row: i })
    } else {
        let o = obs[first];
        Ok(
            FieldTilt {
                team: d.team,
                opponent: o.team,
                winning: share_of(d.winning, o.losing),
                drawing: share_of(d.drawing, o.drawing),
                losing: share_of(d.losing, o.winning),
            },
        )
    }
}

/// Sets every record against its opponent's record of the same fixture, in
/// input order. Fails on the first record whose team is not exactly one
/// side of its fixture, or that has no opponent record, or more than one.
pub fn join_tilt(obs: &Vec<TiltSource>) -> (r: Result<Vec<FieldTilt>, JoinError>)
    ensures
        match r {
            Ok(v) => tilt_join_prefix(obs@, obs@.len() as int) == Ok::<Seq<FieldTilt>, JoinError>(
                v@,
            ),
            Err(e) => tilt_join_prefix(obs@, obs@.len() as int) == Err::<
                Seq<FieldTilt>,
                JoinError,
            >(e),
        },
{
    let mut out: Vec<FieldTilt> = Vec::new();
    let mut i: usize = 0;
    while i < obs.len()
        invariant
            i <= obs@.len(),
            tilt_join_prefix(obs@, i as int) == Ok::<Seq<FieldTilt>, JoinError>(out@),
        decreases obs@.len() - i,
    {
        match tilt_join_one(obs, i) {
            Ok(d) => out.push(d),
            Err(e) => {
                proof {
                    lemma_tilt_join_err(obs@, i + 1, obs@.len() as int);
                }
                return Err(e);
            },
        }
        i += 1;
    }
    Ok(out)
}

/// A team's mean shares over the season, in millionths, rounded down.
#[derive(Debug, Clone, Copy, PartialEq, Eq, Structural)]
pub struct TeamFieldTiltData {
    pub team_name: Teams,
    pub winning: u32,
    pub drawing: u32,
    pub losing: u32,
}

/// A match state whose shares are averaged.
#[derive(Debug, Clone, Copy, PartialEq, Eq, Structural)]
pub enum Phase {
    Winning,
    Drawing,
    Losing,
}

pub open spec fn phase_share(f: FieldTilt, p: Phase) -> int {
    match p {
        Phase::Winning => f.winning as int,
        Phase::Drawing => f.drawing as int,
        Phase::Losing => f.losing as int,
    }
}

/// The sum of the shares in state `p` over the records of team `t`.
pub open spec fn phase_sum(rows: Seq<FieldTilt>, t: Teams, p: Phase) -> int
    decreases rows.len(),
{
    if rows.len() == 0 {
        0
    } else {
        phase_sum(rows.drop_last(), t, p) + if rows.last().team == t {
            phase_share(rows.last(), p)
        } else {
            0
        }
    }
}

/// How many records team `t` has.
pub open spec fn team_count(rows: Seq<FieldTilt>, t: Teams) -> int
    decreases rows.len(),
{
    if rows.len() == 0 {
        0
    } else {
        team_count(rows.drop_last(), t) + if rows.last().team == t {
            1int
        } else {
            0
        }
    }
}

/// The teams of the records, each once, in order of first record.
pub open spec fn tilt_teams(rows: Seq<FieldTilt>) -> Seq<Teams>
    decreases rows.len(),
{
    if rows.len() == 0 {
        Seq::empty()
    } else {
        let s = tilt_teams(rows.drop_last());
        if s.contains(rows.last().team) {
            s
        } else {
            s.push(rows.last().team)
        }
    }
}

/// The mean of the shares in state `p` over the records of team `t`,
/// rounded down; 0 for a team without records.
pub open spec fn phase_mean(rows: Seq<FieldTilt>, t: Teams, p: Phase) -> int {
    if team_count(rows, t) == 0 {
        0
    } else {
        phase_sum(rows, t, p) / team_count(rows, t)
    }
}

proof fn lemma_phase_bounds(rows: Seq<FieldTilt>, t: Teams, p: Phase)
    ensures
        0 <= phase_sum(rows, t, p) <= team_count(rows, t) * (u32::MAX as int),
        0 <= team_count(rows, t) <= rows.len(),
    decreases rows.len(),
{
    if rows.len() > 0 {
        lemma_phase_bounds(rows.drop_last(), t, p);
    }
}

proof fn lemma_mean_bound(s: int, n: int)
    requires
        0 <= s <= n * (u32::MAX as int),
        n > 0,
    ensures
        0 <= s / n <= u32::MAX,
{
    assert(0 <= s / n <= u32::MAX) by (nonlinear_arith)
        requires
            0 <= s <= n * (u32::MAX as int),
            n > 0,
    ;
}

/// The mean shares of team `t` over the records.
pub fn tilt_means(rows: &Vec<FieldTilt>, t: Teams) -> (r: TeamFieldTiltData)
    requires
        rows@.len() <= u32::MAX,
    ensures
        r.team_name == t,
        r.winning == phase_mean(rows@, t, Phase::Winning),
        r.drawing == phase_mean(rows@, t, Phase::Drawing),
        r.losing == phase_mean(rows@, t, Phase::Losing),
{
    let mut w: u64 = 0;
    let mut d: u64 = 0;
    let mut l: u64 = 0;
    let mut n: u64 = 0;
    let mut i: usize = 0;
    while i < rows.len()
        invariant
            i <= rows@.len() <= u32::MAX,
            w == phase_sum(rows@.take(i as int), t, Phase::Winning),
            d == phase_sum(rows@.take(i as int), t, Phase::Drawing),
            l == phase_sum(rows@.take(i as int), t, Phase::Losing),
            n == team_count(rows@.take(i as int), t),
        decreases rows@.len() - i,
    {
        let ghost p = rows@.take(i + 1);
        assert(p.drop_last() == rows@.take(i as int));
        proof {
            lemma_phase_bounds(p, t, Phase::Winning);
            lemma_phase_bounds(p, t, Phase::Drawing);
            lemma_phase_bounds(p, t, Phase::Losing);
            assert(team_count(p, t) * (u32::MAX as int) <= u64::MAX) by (nonlinear_arith)
                requires
                    team_count(p, t) <= u32::MAX + 1,
            ;
        }
        let f = rows[i];
        if f.team == t {
            w = w + f.winning as u64;
            d = d + f.drawing as u64;
            l = l + f.losing as u64;
            n = n + 1;
        }
        i += 1;
    }
    assert(rows@.take(rows@.len() as int) == rows@);
    if n == 0 {
        return TeamFieldTiltData { team_name: t, winning: 0, drawing: 0, losing: 0 };
    }
    proof {
        lemma_phase_bounds(rows@, t, Phase::Winning);
        lemma_phase_bounds(rows@, t, Phase::Drawing);
        lemma_phase_bounds(rows@, t, Phase::Losing);
        lemma_mean_bound(w as int, n as int);
        lemma_mean_bound(d as int, n as int);
        lemma_mean_bound(l as int, n as int);
    }
    TeamFieldTiltData {
        team_name: t,
        winning: (w / n) as u32,
        drawing: (d / n) as u32,
        losing: (l / n) as u32,
    }
}

/// The teams of the records, each once, in order of first record.
pub fn field_tilt_teams(rows: &Vec<FieldTilt>) -> (r: Vec<Teams>)
    ensures
        r@ == tilt_teams(rows@),
{
    let mut out: Vec<Teams> = Vec::new();
    let mut i: usize = 0;
    while i < rows.len()
        invariant
            i <= rows@.len(),
            out@ == tilt_teams(rows@.take(i as int)),
        decreases rows@.len() - i,
    {
        assert(rows@.take(i + 1).drop_last() == rows@.take(i as int));
        let t = rows[i].team;
        if !contains_team(&out, t) {
            out.push(t);
        }
        i += 1;
    }
    assert(rows@.take(rows@.len() as int) == rows@);
    out
}

/// One record per team, in order of its first record: the mean of each of
/// its shares over all of its records. Shares are averaged, not summed, so
/// that a mean of shares is again a share.
pub fn tilt_season(rows: &Vec<FieldTilt>) -> (r: Vec<TeamFieldTiltData>)
    requires
        rows@.len() <= u32::MAX,
    ensures
        r@.len() == tilt_teams(rows@).len(),
        forall|k: int|
            0 <= k < r@.len() ==> {
                &&& (#[trigger] r@[k]).team_name == tilt_teams(rows@)[k]
                &&& r@[k].winning == phase_mean(rows@, tilt_teams(rows@)[k], Phase::Winning)
                &&& r@[k].drawing == phase_mean(rows@, tilt_teams(rows@)[k], Phase::Drawing)
                &&& r@[k].losing == phase_mean(rows@, tilt_teams(rows@)[k], Phase::Losing)
            },
{
    let teams = field_tilt_teams(rows);
    let mut out: Vec<TeamFieldTiltData> = Vec::new();
    let mut k: usize = 0;
    while k < teams.len()
        invariant
            rows@.len() <= u32::MAX,
            teams@ == tilt_teams(rows@),
            k <= teams@.len(),
            out@.len() == k,
            forall|j: int|
                0 <= j < k ==> {
                    &&& (#[trigger] out@[j]).team_name == teams@[j]
                    &&& out@[j].winning == phase_mean(rows@, teams@[j], Phase::Winning)
                    &&& out@[j].drawing == phase_mean(rows@, teams@[j], Phase::Drawing)
                    &&& out@[j].losing == phase_mean(rows@, teams@[j], Phase::Losing)
                },
        decreases teams@.len() - k,
    {
        let m = tilt_means(rows, teams[k]);
        out.push(m);
        k += 1;
    }
    out
}

} // verus!
