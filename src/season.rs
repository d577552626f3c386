//! Folding joined records into one season record per team.

use vstd::prelude::*;

use crate::join::CornerKickData;
use crate::teams::{contains_team, Teams};

verus! {

/// A team's figures summed over every fixture of the season.
#[derive(Debug, Clone, Copy, PartialEq, Eq, Structural)]
pub struct TeamCKData {
    pub team_name: Teams,
    pub total_ck_for: u64,
    pub total_ck_against: u64,
    pub shots_from_ck: u64,
    pub shots_against_from_ck: u64,
    /// In millionths of a goal.
    pub xg: u64,
    /// In millionths of a goal.
    pub xg_against: u64,
}

/// A summed figure of a joined record.
#[derive(Debug, Clone, Copy, PartialEq, Eq, Structural)]
pub enum Metric {
    CkFor,
    CkAgainst,
    ShotsFor,
    ShotsAgainst,
    XgFor,
    XgAgainst,
}

pub open spec fn metric(d: CornerKickData, m: Metric) -> int {
    match m {
        Metric::CkFor => d.total_ck_for as int,
        Metric::CkAgainst => d.total_ck_against as int,
        Metric::ShotsFor => d.shots_from_ck as int,
        Metric::ShotsAgainst => d.shots_against_from_ck as int,
        Metric::XgFor => d.xg as int,
        Metric::XgAgainst => d.xg_against as int,
    }
}

/// The sum of figure `m` over the records of team `t`.
pub open spec fn team_sum(rows: Seq<CornerKickData>, t: Teams, m: Metric) -> int
    decreases rows.len(),
{
    if rows.len() == 0 {
        0
    } else {
        team_sum(rows.drop_last(), t, m) + if rows.last().team == t {
            metric(rows.last(), m)
        } else {
            0
        }
    }
}

/// The teams with a record in week 1, each once, in order of first record.
pub open spec fn week_one_teams(rows: Seq<CornerKickData>) -> Seq<Teams>
    decreases rows.len(),
{
    if rows.len() == 0 {
        Seq::empty()
    } else {
        let s = week_one_teams(rows.drop_last());
        let d = rows.last();
        if d.game_week == 1 && !s.contains(d.team) {
            s.push(d.team)
        } else {
            s
        }
    }
}

/// The season record of team `t`: each figure summed over its records.
pub open spec fn season_of(rows: Seq<CornerKickData>, t: Teams) -> TeamCKData {
    TeamCKData {
        team_name: t,
        total_ck_for: team_sum(rows, t, Metric::CkFor) as u64,
        total_ck_against: team_sum(rows, t, Metric::CkAgainst) as u64,
        shots_from_ck: team_sum(rows, t, Metric::ShotsFor) as u64,
        shots_against_from_ck: team_sum(rows, t, Metric::ShotsAgainst) as u64,
        xg: team_sum(rows, t, Metric::XgFor) as u64,
        xg_against: team_sum(rows, t, Metric::XgAgainst) as u64,
    }
}

proof fn lemma_team_sum_bounds(rows: Seq<CornerKickData>, t: Teams, m: Metric)
    ensures
        0 <= team_sum(rows, t, m) <= rows.len() * (u32::MAX as int),
    decreases rows.len(),
{
    if rows.len() > 0 {
        lemma_team_sum_bounds(rows.drop_last(), t, m);
    }
}

/// The teams with a record in week 1, each once, in order of first record.
pub fn season_teams(rows: &Vec<CornerKickData>) -> (r: Vec<Teams>)
    ensures
        r@ == week_one_teams(rows@),
{
    let mut out: Vec<Teams> = Vec::new();
    let mut i: usize = 0;
    while i < rows.len()
        invariant
            i <= rows@.len(),
            out@ == week_one_teams(rows@.take(i as int)),
        decreases rows@.len() - i,
    {
        assert(rows@.take(i + 1).drop_last() == rows@.take(i as int));
        let d = rows[i];
        if d.game_week == 1 && !contains_team(&out, d.team) {
            out.push(d.team);
        }
        i += 1;
    }
    assert(rows@.take(rows@.len() as int) == rows@);
    out
}

/// Sums every figure of team `t` over the records.
pub fn season_totals(rows: &Vec<CornerKickData>, t: Teams) -> (r: TeamCKData)
    requires
        rows@.len() <= u32::MAX,
    ensures
        r.team_name == t,
        r.total_ck_for == team_sum(rows@, t, Metric::CkFor),
        r.total_ck_against == team_sum(rows@, t, Metric::CkAgainst),
        r.shots_from_ck == team_sum(rows@, t, Metric::ShotsFor),
        r.shots_against_from_ck == team_sum(rows@, t, Metric::ShotsAgainst),
        r.xg == team_sum(rows@, t, Metric::XgFor),
        r.xg_against == team_sum(rows@, t, Metric::XgAgainst),
{
    let mut r = TeamCKData {
        team_name: t,
        total_ck_for: 0,
        total_ck_against: 0,
        shots_from_ck: 0,
        shots_against_from_ck: 0,
        xg: 0,
        xg_against: 0,
    };
    let mut i: usize = 0;
    while i < rows.len()
        invariant
            i <= rows@.len() <= u32::MAX,
            r.team_name == t,
            r.total_ck_for == team_sum(rows@.take(i as int), t, Metric::CkFor),
            r.total_ck_against == team_sum(rows@.take(i as int), t, Metric::CkAgainst),
            r.shots_from_ck == team_sum(rows@.take(i as int), t, Metric::ShotsFor),
            r.shots_against_from_ck == team_sum(rows@.take(i as int), t, Metric::ShotsAgainst),
            r.xg == team_sum(rows@.take(i as int), t, Metric::XgFor),
            r.xg_against == team_sum(rows@.take(i as int), t, Metric::XgAgainst),
        decreases rows@.len() - i,
    {
        let ghost p = rows@.take(i + 1);
        assert(p.drop_last() == rows@.take(i as int));
        proof {
            lemma_team_sum_bounds(p, t, Metric::CkFor);
            lemma_team_sum_bounds(p, t, Metric::CkAgainst);
            lemma_team_sum_bounds(p, t, Metric::ShotsFor);
            lemma_team_sum_bounds(p, t, Metric::ShotsAgainst);
            lemma_team_sum_bounds(p, t, Metric::XgFor);
            lemma_team_sum_bounds(p, t, Metric::XgAgainst);
            assert(p.len() * (u32::MAX as int) <= u64::MAX) by (nonlinear_arith)
                requires
                    p.len() <= u32::MAX + 1,
            ;
        }
        let d = rows[i];
        if d.team == t {
            r.total_ck_for = r.total_ck_for + d.total_ck_for as u64;
            r.total_ck_against = r.total_ck_against + d.total_ck_against as u64;
            r.shots_from_ck = r.shots_from_ck + d.shots_from_ck as u64;
            r.shots_against_from_ck = r.shots_against_from_ck + d.shots_against_from_ck as u64;
            r.xg = r.xg + d.xg as u64;
            r.xg_against = r.xg_against + d.xg_against as u64;
        }
        i += 1;
    }
    assert(rows@.take(rows@.len() as int) == rows@);
    r
}

/// One season record per team that has a record in week 1, in order of its
/// first week-1 record; each figure is the sum over all of the team's
/// records, whatever their week. A team with no week-1 record gets no
/// season record (see `missing_from_week_one`).
pub fn accumulate(rows: &Vec<CornerKickData>) -> (r: Vec<TeamCKData>)
    requires
        rows@.len() <= u32::MAX,
    ensures
        r@.len() == week_one_teams(rows@).len(),
        forall|k: int| 0 <= k < r@.len() ==> #[trigger] r@[k] == season_of(rows@, week_one_teams(rows@)[k]),
        forall|k: int| 0 <= k < r@.len() ==> r@[k].total_ck_for == team_sum(rows@, #[trigger] week_one_teams(rows@)[k], Metric::CkFor),
{
    let teams = season_teams(rows);
    let mut out: Vec<TeamCKData> = Vec::new();
    let mut k: usize = 0;
    while k < teams.len()
        invariant
            rows@.len() <= u32::MAX,
            teams@ == week_one_teams(rows@),
            k <= teams@.len(),
            out@.len() == k,
            forall|j: int| 0 <= j < k ==> #[trigger] out@[j] == season_of(rows@, teams@[j]),
            forall|j: int| 0 <= j < k ==> out@[j].total_ck_for == team_sum(rows@, #[trigger] teams@[j], Metric::CkFor),
        decreases teams@.len() - k,
    {
        let t = season_totals(rows, teams[k]);
        out.push(t);
        k += 1;
    }
    out
}

/// The teams that have records but none in week 1, each once, in order of
/// first record: the teams that `accumulate` leaves out.
pub open spec fn week_one_gaps(rows: Seq<CornerKickData>, firsts: Seq<Teams>) -> Seq<Teams>
    decreases rows.len(),
{
    if rows.len() == 0 {
        Seq::empty()
    } else {
        let s = week_one_gaps(rows.drop_last(), firsts);
        let t = rows.last().team;
        if !firsts.contains(t) && !s.contains(t) {
            s.push(t)
        } else {
            s
        }
    }
}

/// The teams that have records but none in week 1, each once, in order of
/// first record: they get no season record from `accumulate`.
pub fn missing_from_week_one(rows: &Vec<CornerKickData>) -> (r: Vec<Teams>)
    ensures
        r@ == week_one_gaps(rows@, week_one_teams(rows@)),
{
    let firsts = season_teams(rows);
    let mut out: Vec<Teams> = Vec::new();
    let mut i: usize = 0;
    while i < rows.len()
        invariant
            i <= rows@.len(),
            firsts@ == week_one_teams(rows@),
            out@ == week_one_gaps(rows@.take(i as int), firsts@),
        decreases rows@.len() - i,
    {
        assert(rows@.take(i + 1).drop_last() == rows@.take(i as int));
        let t = rows[i].team;
        if !contains_team(&firsts, t) && !contains_team(&out, t) {
            out.push(t);
        }
        i += 1;
    }
    assert(rows@.take(rows@.len() as int) == rows@);
    out
}

} // verus!
