//! Efficiency ratios derived from season records, and the columnar view
//! handed to presentation.

use vstd::prelude::*;

use crate::error::MyError;
use crate::join::CornerKickData;
use crate::season::TeamCKData;
use crate::teams::Teams;

verus! {

/// An exact non-negative ratio `num / den`; `den` is never 0.
#[derive(Debug, Clone, Copy, PartialEq, Eq, Structural)]
pub struct Ratio {
    pub num: u64,
    pub den: u64,
}

/// `num / den`, or 0 when `den` is 0.
pub open spec fn guarded(num: u64, den: u64) -> Ratio {
    if den == 0 {
        Ratio { num: 0, den: 1 }
    } else {
        Ratio { num, den }
    }
}

/// The efficiency ratios of one team's season.
#[derive(Debug, Clone, Copy, PartialEq, Eq, Structural)]
pub struct DerivedMetrics {
    pub team_name: Teams,
    /// Expected goals per shot from a corner kick, in millionths of a goal;
    /// 0 for a team without such shots.
    pub xg_per_shot: Ratio,
    /// Shots per corner kick taken.
    pub shots_per_ck: Ratio,
    /// Expected goals conceded per shot conceded from a corner kick, in
    /// millionths of a goal; 0 for a team that conceded no such shot.
    pub xg_conceded_per_shot: Ratio,
    /// Shots conceded per corner kick faced.
    pub shots_conceded_per_ck: Ratio,
}

/// The ratios of a season record. A season without a corner kick taken, or
/// without one faced, has no shots-per-corner ratio and is an error.
pub open spec fn projection(t: TeamCKData) -> Result<DerivedMetrics, MyError> {
    if t.total_ck_for == 0 || t.total_ck_against == 0 {
        Err(MyError::Computation(t.team_name))
    } else {
        Ok(
            DerivedMetrics {
                team_name: t.team_name,
                xg_per_shot: guarded(t.xg, t.shots_from_ck),
                shots_per_ck: Ratio { num: t.shots_from_ck, den: t.total_ck_for },
                xg_conceded_per_shot: guarded(t.xg_against, t.shots_against_from_ck),
                shots_conceded_per_ck: Ratio {
                    num: t.shots_against_from_ck,
                    den: t.total_ck_against,
                },
            },
        )
    }
}

/// The ratios of each season record, in order, or the error of the first
/// record that has none.
pub open spec fn projections(ts: Seq<TeamCKData>, n: int) -> Result<Seq<DerivedMetrics>, MyError>
    decreases n,
{
    if n <= 0 {
        Ok(Seq::empty())
    } else {
        match projections(ts, n - 1) {
            Err(e) => Err(e),
            Ok(s) => match projection(ts[n - 1]) {
                Ok(d) => Ok(s.push(d)),
                Err(e) => Err(e),
            },
        }
    }
}

fn guard(num: u64, den: u64) -> (r: Ratio)
    ensures
        r == guarded(num, den),
{
    if den == 0 {
        Ratio { num: 0, den: 1 }
    } else {
        Ratio { num, den }
    }
}

impl CornerKickData {
    /// Expected goals per shot from a corner kick in this fixture, in
    /// millionths of a goal; 0 when the team had no such shot.
    pub fn xg_per_shot(&self) -> (r: Ratio)
        ensures
            r == guarded(self.xg as u64, self.shots_from_ck as u64),
    {
        guard(self.xg as u64, self.shots_from_ck as u64)
    }
}

impl TeamCKData {
    /// The efficiency ratios of this season record.
    pub fn project(&self) -> (r: Result<DerivedMetrics, MyError>)
        ensures
            r == projection(*self),
    {
        if self.total_ck_for == 0 || self.total_ck_against == 0 {
            return Err(MyError::Computation(self.team_name));
        }
        Ok(
            DerivedMetrics {
                team_name: self.team_name,
                xg_per_shot: guard(self.xg, self.shots_from_ck),
                shots_per_ck: Ratio { num: self.shots_from_ck, den: self.total_ck_for },
                xg_conceded_per_shot: guard(self.xg_against, self.shots_against_from_ck),
                shots_conceded_per_ck: Ratio {
                    num: self.shots_against_from_ck,
                    den: self.total_ck_against,
                },
            },
        )
    }
}

proof fn lemma_projections_err(ts: Seq<TeamCKData>, n: int, m: int)
    requires
        0 <= n <= m,
        projections(ts, n) is Err,
    ensures
        projections(ts, m) == projections(ts, n),
    decreases m - n,
{
    if m > n {
        lemma_projections_err(ts, n, m - 1);
    }
}

/// The ratios of every season record, in order; fails with the error of the
/// first record that has none.
pub fn project_all(ts: &Vec<TeamCKData>) -> (r: Result<Vec<DerivedMetrics>, MyError>)
    ensures
        match r {
            Ok(v) => projections(ts@, ts@.len() as int) == Ok::<Seq<DerivedMetrics>, MyError>(v@),
            Err(e) => projections(ts@, ts@.len() as int) == Err::<Seq<DerivedMetrics>, MyError>(e),
        },
{
    let mut out: Vec<DerivedMetrics> = Vec::new();
    let mut i: usize = 0;
    while i < ts.len()
        invariant
            i <= ts@.len(),
            projections(ts@, i as int) == Ok::<Seq<DerivedMetrics>, MyError>(out@),
        decreases ts@.len() - i,
    {
        match ts[i].project() {
            Ok(d) => out.push(d),
            Err(e) => {
                proof {
                    lemma_projections_err(ts@, i + 1, ts@.len() as int);
                }
                return Err(e);
            },
        }
        i += 1;
    }
    Ok(out)
}

/// Projecting is a function of the season record alone: two projections of
/// the same record agree, and guarding a ratio that is already guarded
/// changes nothing.
pub proof fn lemma_projection_repeatable(
    t: TeamCKData,
    a: Result<DerivedMetrics, MyError>,
    b: Result<DerivedMetrics, MyError>,
    num: u64,
    den: u64,
)
    requires
        a == projection(t),
        b == projection(t),
    ensures
        a == b,
        guarded(guarded(num, den).num, guarded(num, den).den) == guarded(num, den),
{
}

/// The value of `r` in thousandths of `unit`, rounded down.
pub open spec fn thousandths_of(r: Ratio, unit: u64) -> int {
    (r.num * 1000) / (r.den * unit)
}

/// The value of a ratio in thousandths of `unit`, rounded down: the
/// quantisation used to place chart axes.
pub fn thousandths(r: Ratio, unit: u64) -> (q: u128)
    requires
        r.den > 0,
        unit > 0,
    ensures
        q == thousandths_of(r, unit),
{
    proof {
        assert(r.den * unit > 0) by (nonlinear_arith)
            requires
                r.den > 0,
                unit > 0,
        ;
        assert(r.den * unit <= u64::MAX * u64::MAX) by (nonlinear_arith)
            requires
                r.den <= u64::MAX,
                unit <= u64::MAX,
        ;
        assert((r.num * 1000) / (r.den * unit) <= r.num * 1000) by (nonlinear_arith)
            requires
                r.den * unit > 0,
                r.num >= 0,
        ;
    }
    (r.num as u128 * 1000) / (r.den as u128 * unit as u128)
}

/// The smallest and the largest of a non-empty list of values.
pub fn extent(v: &Vec<u128>) -> (r: Option<(u128, u128)>)
    ensures
        v@.len() == 0 <==> r is None,
        r matches Some((lo, hi)) ==> {
            &&& forall|k: int| 0 <= k < v@.len() ==> lo <= #[trigger] v@[k] <= hi
            &&& v@.contains(lo)
            &&& v@.contains(hi)
        },
{
    if v.len() == 0 {
        return None;
    }
    let mut lo = v[0];
    let mut hi = v[0];
    let mut i: usize = 1;
    while i < v.len()
        invariant
            1 <= i <= v@.len(),
            forall|k: int| 0 <= k < i ==> lo <= #[trigger] v@[k] <= hi,
            v@.contains(lo),
            v@.contains(hi),
        decreases v@.len() - i,
    {
        if v[i] < lo {
            lo = v[i];
        }
        if v[i] > hi {
            hi = v[i];
        }
        i += 1;
    }
    Some((lo, hi))
}

/// Season records laid out by column: entry `k` of every column belongs to
/// the same team.
#[derive(Debug, Clone)]
pub struct DataFrame {
    pub team_name: Vec<Teams>,
    pub total_ck_for: Vec<u64>,
    pub total_ck_against: Vec<u64>,
    pub shots_from_ck: Vec<u64>,
    pub shots_against_from_ck: Vec<u64>,
    pub xg: Vec<u64>,
    pub xg_against: Vec<u64>,
}

/// Lays season records out by column, in the records' order.
pub fn create_dataframe(data: Vec<TeamCKData>) -> (df: DataFrame)
    ensures
        df.team_name@.len() == data@.len(),
        df.total_ck_for@.len() == data@.len(),
        df.total_ck_against@.len() == data@.len(),
        df.shots_from_ck@.len() == data@.len(),
        df.shots_against_from_ck@.len() == data@.len(),
        df.xg@.len() == data@.len(),
        df.xg_against@.len() == data@.len(),
        forall|k: int|
            0 <= k < data@.len() ==> {
                &&& df.team_name@[k] == (#[trigger] data@[k]).team_name
                &&& df.total_ck_for@[k] == data@[k].total_ck_for
                &&& df.total_ck_against@[k] == data@[k].total_ck_against
                &&& df.shots_from_ck@[k] == data@[k].shots_from_ck
                &&& df.shots_against_from_ck@[k] == data@[k].shots_against_from_ck
                &&& df.xg@[k] == data@[k].xg
                &&& df.xg_against@[k] == data@[k].xg_against
            },
{
    let mut df = DataFrame {
        team_name: Vec::new(),
        total_ck_for: Vec::new(),
        total_ck_against: Vec::new(),
        shots_from_ck: Vec::new(),
        shots_against_from_ck: Vec::new(),
        xg: Vec::new(),
        xg_against: Vec::new(),
    };
    let mut i: usize = 0;
    while i < data.len()
        invariant
            i <= data@.len(),
            df.team_name@.len() == i,
            df.total_ck_for@.len() == i,
            df.total_ck_against@.len() == i,
            df.shots_from_ck@.len() == i,
            df.shots_against_from_ck@.len() == i,
            df.xg@.len() == i,
            df.xg_against@.len() == i,
            forall|k: int|
                0 <= k < i ==> {
                    &&& df.team_name@[k] == (#[trigger] data@[k]).team_name
                    &&& df.total_ck_for@[k] == data@[k].total_ck_for
                    &&& df.total_ck_against@[k] == data@[k].total_ck_against
                    &&& df.shots_from_ck@[k] == data@[k].shots_from_ck
                    &&& df.shots_against_from_ck@[k] == data@[k].shots_against_from_ck
                    &&& df.xg@[k] == data@[k].xg
                    &&& df.xg_against@[k] == data@[k].xg_against
                },
        decreases data@.len() - i,
    {
        let d = data[i];
        df.team_name.push(d.team_name);
        df.total_ck_for.push(d.total_ck_for);
        df.total_ck_against.push(d.total_ck_against);
        df.shots_from_ck.push(d.shots_from_ck);
        df.shots_against_from_ck.push(d.shots_against_from_ck);
        df.xg.push(d.xg);
        df.xg_against.push(d.xg_against);
        i += 1;
    }
    df
}

} // verus!
