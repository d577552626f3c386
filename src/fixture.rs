//! Fixture labels of the form `"<team> vs <team>"`.

use vstd::prelude::*;

use crate::teams::{team_of_name, Teams};
use crate::text::{trim_range, trimmed};

verus! {

/// The two participants of a fixture, in the order the label names them.
#[derive(Debug, Clone, Copy, PartialEq, Eq, Structural, Hash)]
pub struct Fixture {
    pub home: Teams,
    pub away: Teams,
}

pub open spec fn vs_at(s: Seq<char>, i: int) -> bool {
    0 <= i && i + 1 < s.len() && s[i] == 'v' && s[i + 1] == 's'
}

/// The first position `i < n` where the separator `vs` starts.
pub open spec fn find_vs(s: Seq<char>, n: int) -> Option<int>
    decreases n,
{
    if n <= 0 {
        None
    } else {
        match find_vs(s, n - 1) {
            Some(i) => Some(i),
            None => if vs_at(s, n - 1) {
                Some(n - 1)
            } else {
                None
            },
        }
    }
}

/// A label splits at its first `vs`; each side, trimmed of whitespace, must
/// be the name of a team of the roster.
pub open spec fn fixture_of(s: Seq<char>) -> Option<Fixture> {
    match find_vs(s, s.len() as int) {
        None => None,
        Some(k) => match (
            team_of_name(trimmed(s, 0, k)),
            team_of_name(trimmed(s, k + 2, s.len() as int)),
        ) {
            (Some(a), Some(b)) => Some(Fixture { home: a, away: b }),
            _ => None,
        },
    }
}

/// The team that `t` meets in fixture `f`: defined only when `t` is exactly
/// one of the two sides.
pub open spec fn opponent_in(f: Fixture, t: Teams) -> Option<Teams> {
    if f.home == t && f.away != t {
        Some(f.away)
    } else if f.away == t && f.home != t {
        Some(f.home)
    } else {
        None
    }
}

proof fn lemma_find_vs_found(s: Seq<char>, i: int, n: int)
    requires
        0 <= i < n,
        find_vs(s, i) is None,
        vs_at(s, i),
    ensures
        find_vs(s, n) == Some(i),
    decreases n - i,
{
    if n > i + 1 {
        lemma_find_vs_found(s, i, n - 1);
    }
}

fn separator_at(v: &Vec<char>) -> (r: Option<usize>)
    ensures
        match r {
            Some(i) => i + 1 < v@.len() && find_vs(v@, v@.len() as int) == Some(i as int),
            None => find_vs(v@, v@.len() as int) is None,
        },
{
    let mut i: usize = 0;
    while i < v.len()
        invariant
            i <= v@.len(),
            find_vs(v@, i as int) is None,
        decreases v@.len() - i,
    {
        if i + 1 < v.len() && v[i] == 'v' && v[i + 1] == 's' {
            proof {
                lemma_find_vs_found(v@, i as int, v@.len() as int);
            }
            return Some(i);
        }
        i += 1;
    }
    None
}

impl Fixture {
    /// Parses a fixture label.
    pub fn parse(v: &Vec<char>) -> (r: Option<Fixture>)
        ensures
            r == fixture_of(v@),
    {
        let n = v.len();
        match separator_at(v) {
            None => None,
            Some(k) => {
                let (a0, a1) = trim_range(v, 0, k);
                let (b0, b1) = trim_range(v, k + 2, n);
                let home = Teams::from_chars(v, a0, a1);
                let away = Teams::from_chars(v, b0, b1);
                match (home, away) {
                    (Some(h), Some(a)) => Some(Fixture { home: h, away: a }),
                    _ => None,
                }
            },
        }
    }

    /// The team that `t` meets in this fixture; `None` when `t` is not
    /// exactly one of its two sides.
    pub fn opponent_of(&self, t: Teams) -> (r: Option<Teams>)
        ensures
            r == opponent_in(*self, t),
    {
        if self.home == t && self.away != t {
            Some(self.away)
        } else if self.away == t && self.home != t {
            Some(self.home)
        } else {
            None
        }
    }
}

} // verus!
