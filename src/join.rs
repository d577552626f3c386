//! Pairing each record with its opponent's record of the same fixture.

use vstd::prelude::*;

use crate::error::JoinError;
use crate::fixture::{opponent_in, Fixture};
use crate::loader::DataSource;
use crate::teams::Teams;

verus! {

/// A record together with the opponent's figures for the same fixture: what
/// the opponent had "for" is this team's "against".
#[derive(Debug, Clone, Copy, PartialEq, Eq, Structural)]
pub struct CornerKickData {
    pub team: Teams,
    pub game: Fixture,
    pub game_week: u32,
    pub opponent: Teams,
    pub total_ck_for: u32,
    pub total_ck_against: u32,
    pub shots_from_ck: u32,
    pub shots_against_from_ck: u32,
    /// In millionths of a goal.
    pub xg: u32,
    /// In millionths of a goal.
    pub xg_against: u32,
}

/// Record `j` is the opponent's record for record `i`: the other side of the
/// same fixture, in the same week.
pub open spec fn is_opponent_row(obs: Seq<DataSource>, i: int, j: int) -> bool {
    &&& opponent_in(obs[i].game, obs[i].team) == Some(obs[j].team)
    &&& obs[j].game == obs[i].game
    &&& obs[j].game_week == obs[i].game_week
}

/// How many of the first `n` records are opponent records for record `i`.
pub open spec fn opponent_rows(obs: Seq<DataSource>, i: int, n: int) -> nat
    decreases n,
{
    if n <= 0 {
        0
    } else {
        opponent_rows(obs, i, n - 1) + if is_opponent_row(obs, i, n - 1) {
            1nat
        } else {
            0nat
        }
    }
}

/// The first of the first `n` records that is an opponent record for `i`.
pub open spec fn first_opponent_row(obs: Seq<DataSource>, i: int, n: int) -> Option<int>
    decreases n,
{
    if n <= 0 {
        None
    } else {
        match first_opponent_row(obs, i, n - 1) {
            Some(j) => Some(j),
            None => if is_opponent_row(obs, i, n - 1) {
                Some(n - 1)
            } else {
                None
            },
        }
    }
}

pub open spec fn enrich(d: DataSource, o: DataSource) -> CornerKickData {
    CornerKickData {
        team: d.team,
        game: d.game,
        game_week: d.game_week,
        opponent: o.team,
        total_ck_for: d.total_ck_for,
        total_ck_against: o.total_ck_for,
        shots_from_ck: d.shots_from_ck,
        shots_against_from_ck: o.shots_from_ck,
        xg: d.xg,
        xg_against: o.xg,
    }
}

/// Record `i` joined with its single opponent record.
pub open spec fn join_row(obs: Seq<DataSource>, i: int) -> Result<CornerKickData, JoinError> {
    if opponent_in(obs[i].game, obs[i].team) is None {
        Err(JoinError::ForeignTeam { row: i as usize })
    } else if opponent_rows(obs, i, obs.len() as int) == 0 {
        Err(JoinError::NoOpponent { row: i as usize })
    } else if opponent_rows(obs, i, obs.len() as int) > 1 {
        Err(JoinError::AmbiguousOpponent { row: i as usize })
    } else {
        Ok(enrich(obs[i], obs[first_opponent_row(obs, i, obs.len() as int)->Some_0]))
    }
}

/// The first `n` records joined, or the first of them that cannot be.
pub open spec fn join_prefix(obs: Seq<DataSource>, n: int) -> Result<Seq<CornerKickData>, JoinError>
    decreases n,
{
    if n <= 0 {
        Ok(Seq::empty())
    } else {
        match join_prefix(obs, n - 1) {
            Err(e) => Err(e),
            Ok(s) => match join_row(obs, n - 1) {
                Ok(d) => Ok(s.push(d)),
                Err(e) => Err(e),
            },
        }
    }
}

/// Every record joined with its opponent's, in input order.
pub open spec fn joined(obs: Seq<DataSource>) -> Result<Seq<CornerKickData>, JoinError> {
    join_prefix(obs, obs.len() as int)
}

proof fn lemma_join_prefix_err(obs: Seq<DataSource>, n: int, m: int)
    requires
        0 <= n <= m,
        join_prefix(obs, n) is Err,
    ensures
        join_prefix(obs, m) == join_prefix(obs, n),
    decreases m - n,
{
    if m > n {
        lemma_join_prefix_err(obs, n, m - 1);
    }
}

/// Joins record `i` with its opponent's record.
fn join_one(obs: &Vec<DataSource>, i: usize) -> (r: Result<CornerKickData, JoinError>)
    requires
        i < obs@.len(),
    ensures
        r == join_row(obs@, i as int),
{
    let d = obs[i];
    let opp = match d.game.opponent_of(d.team) {
        None => return Err(JoinError::ForeignTeam { row: i }),
        Some(o) => o,
    };
    let mut count: usize = 0;
    let mut first: usize = 0;
    let mut j: usize = 0;
    while j < obs.len()
        invariant
            i < obs@.len(),
            d == obs@[i as int],
            opponent_in(d.game, d.team) == Some(opp),
            j <= obs@.len(),
            count == opponent_rows(obs@, i as int, j as int),
            count <= j,
            count > 0 ==> first_opponent_row(obs@, i as int, j as int) == Some(first as int),
            count == 0 ==> first_opponent_row(obs@, i as int, j as int) is None,
            count > 0 ==> first < obs@.len(),
        decreases obs@.len() - j,
    {
        let e = obs[j];
        if e.team == opp && e.game == d.game && e.game_week == d.game_week {
            if count == 0 {
                first = j;
            }
            count += 1;
        }
        j += 1;
    }
    if count == 0 {
        Err(JoinError::NoOpponent { row: i })
    } else if count > 1 {
        Err(JoinError::AmbiguousOpponent { row: i })
    } else {
        let o = obs[first];
        Ok(
            CornerKickData {
                team: d.team,
                game: d.game,
                game_week: d.game_week,
                opponent: o.team,
                total_ck_for: d.total_ck_for,
                total_ck_against: o.total_ck_for,
                shots_from_ck: d.shots_from_ck,
                shots_against_from_ck: o.shots_from_ck,
                xg: d.xg,
                xg_against: o.xg,
            },
        )
    }
}

/// Joins every record with its opponent's record for the same fixture and
/// week. Fails on the first record, in input order, whose team is not
/// exactly one side of its fixture, or that has no opponent record, or more
/// than one.
pub fn join_fixtures(obs: &Vec<DataSource>) -> (r: Result<Vec<CornerKickData>, JoinError>)
    ensures
        match r {
            Ok(v) => joined(obs@) == Ok::<Seq<CornerKickData>, JoinError>(v@),
            Err(e) => joined(obs@) == Err::<Seq<CornerKickData>, JoinError>(e),
        },
{
    let mut out: Vec<CornerKickData> = Vec::new();
    let mut i: usize = 0;
    while i < obs.len()
        invariant
            i <= obs@.len(),
            join_prefix(obs@, i as int) == Ok::<Seq<CornerKickData>, JoinError>(out@),
        decreases obs@.len() - i,
    {
        match join_one(obs, i) {
            Ok(d) => out.push(d),
            Err(e) => {
                proof {
                    lemma_join_prefix_err(obs@, i + 1, obs@.len() as int);
                }
                return Err(e);
            },
        }
        i += 1;
    }
    Ok(out)
}

proof fn lemma_none_counted(obs: Seq<DataSource>, i: int, n: int)
    requires
        opponent_rows(obs, i, n) == 0,
    ensures
        first_opponent_row(obs, i, n) is None,
    decreases n,
{
    if n > 0 {
        lemma_none_counted(obs, i, n - 1);
    }
}

proof fn lemma_match_counted(obs: Seq<DataSource>, i: int, j: int, n: int)
    requires
        0 <= j < n,
        is_opponent_row(obs, i, j),
    ensures
        opponent_rows(obs, i, n) >= 1,
    decreases n,
{
    if n - 1 > j {
        lemma_match_counted(obs, i, j, n - 1);
    }
}

/// When exactly one of the first `n` records is an opponent record for `i`,
/// it is the first one.
proof fn lemma_single_match(obs: Seq<DataSource>, i: int, j: int, n: int)
    requires
        0 <= j < n,
        is_opponent_row(obs, i, j),
        opponent_rows(obs, i, n) == 1,
    ensures
        first_opponent_row(obs, i, n) == Some(j),
    decreases n,
{
    if n - 1 == j {
        lemma_none_counted(obs, i, n - 1);
    } else {
        lemma_match_counted(obs, i, j, n - 1);
        lemma_single_match(obs, i, j, n - 1);
    }
}

/// A successful join holds, at each position, the join of that record.
proof fn lemma_join_prefix_rows(obs: Seq<DataSource>, n: int, k: int)
    requires
        0 <= k < n <= obs.len(),
        join_prefix(obs, n) is Ok,
    ensures
        join_prefix(obs, n)->Ok_0.len() == n,
        join_row(obs, k) == Ok::<CornerKickData, JoinError>(join_prefix(obs, n)->Ok_0[k]),
    decreases n,
{
    if k < n - 1 {
        lemma_join_prefix_rows(obs, n - 1, k);
    } else if n - 1 > 0 {
        lemma_join_prefix_rows(obs, n - 1, 0);
    }
}

proof fn lemma_joined_with(obs: Seq<DataSource>, i: int, j: int)
    requires
        joined(obs) is Ok,
        0 <= i < obs.len(),
        0 <= j < obs.len(),
        obs[i].game == obs[j].game,
        obs[i].game_week == obs[j].game_week,
        obs[i].team != obs[j].team,
    ensures
        joined(obs)->Ok_0.len() == obs.len(),
        joined(obs)->Ok_0[i] == enrich(obs[i], obs[j]),
{
    lemma_join_prefix_rows(obs, obs.len() as int, i);
    lemma_join_prefix_rows(obs, obs.len() as int, j);
    assert(is_opponent_row(obs, i, j));
    lemma_single_match(obs, i, j, obs.len() as int);
}

/// Join symmetry: when two different teams both have a record of the same
/// fixture and week, and the join succeeds, each one's "against" figures are
/// the other's "for" figures, and each is the other's opponent.
pub proof fn lemma_join_symmetry(obs: Seq<DataSource>, i: int, j: int)
    requires
        joined(obs) is Ok,
        0 <= i < obs.len(),
        0 <= j < obs.len(),
        obs[i].game == obs[j].game,
        obs[i].game_week == obs[j].game_week,
        obs[i].team != obs[j].team,
    ensures
        ({
            let r = joined(obs)->Ok_0;
            &&& r.len() == obs.len()
            &&& r[i].opponent == r[j].team
            &&& r[j].opponent == r[i].team
            &&& r[i].total_ck_against == r[j].total_ck_for
            &&& r[i].shots_against_from_ck == r[j].shots_from_ck
            &&& r[i].xg_against == r[j].xg
            &&& r[j].total_ck_against == r[i].total_ck_for
            &&& r[j].shots_against_from_ck == r[i].shots_from_ck
            &&& r[j].xg_against == r[i].xg
        }),
{
    lemma_joined_with(obs, i, j);
    lemma_joined_with(obs, j, i);
}

} // verus!
