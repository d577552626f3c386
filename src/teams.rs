//! The closed roster of league teams and the lookup from display names.

use vstd::prelude::*;

use crate::text::{chars_of, slice_eq};

verus! {

/// A team of the league. The roster is closed: a name outside it never
/// becomes a team.
#[derive(Debug, Clone, Copy, PartialEq, Eq, Structural, Hash)]
pub enum Teams {
    AremaFC,
    BaliUnitedFC,
    BorneoFCSamarinda,
    DewaUnitedFC,
    MaduraUnitedFC,
    MalutUnitedFC,
    PersebayaSurabaya,
    PersisSolo,
    PssSleman,
    PsisSemarang,
    PersijaJakarta,
    PersibBandung,
    PersitaTangerang,
    PsbsBiak,
    PsmMakassar,
    PersikKediri,
    PSBaritoPutera,
    SemenPadangFC,
}

/// The display name of a team, as it is written in the input data.
pub open spec fn team_name(t: Teams) -> Seq<char> {
    match t {
        Teams::AremaFC => "AREMA FC"@,
        Teams::BaliUnitedFC => "Bali United FC"@,
        Teams::BorneoFCSamarinda => "Borneo FC Samarinda"@,
        Teams::DewaUnitedFC => "Dewa United FC"@,
        Teams::MaduraUnitedFC => "Madura United FC"@,
        Teams::MalutUnitedFC => "Malut United FC"@,
        Teams::PersebayaSurabaya => "PERSEBAYA Surabaya"@,
        Teams::PersisSolo => "PERSIS Solo"@,
        Teams::PssSleman => "PSS Sleman"@,
        Teams::PsisSemarang => "PSIS Semarang"@,
        Teams::PersijaJakarta => "PERSIJA Jakarta"@,
        Teams::PersibBandung => "PERSIB Bandung"@,
        Teams::PersitaTangerang => "PERSITA Tangerang"@,
        Teams::PsbsBiak => "PSBS Biak"@,
        Teams::PsmMakassar => "PSM Makassar"@,
        Teams::PersikKediri => "PERSIK Kediri"@,
        Teams::PSBaritoPutera => "PS Barito Putera"@,
        Teams::SemenPadangFC => "Semen Padang FC"@,
    }
}

/// The team whose display name is `s`, looked up in roster order.
pub open spec fn team_of_name(s: Seq<char>) -> Option<Teams> {
    if s == team_name(Teams::AremaFC) {
        Some(Teams::AremaFC)
    } else if s == team_name(Teams::BaliUnitedFC) {
        Some(Teams::BaliUnitedFC)
    } else if s == team_name(Teams::BorneoFCSamarinda) {
        Some(Teams::BorneoFCSamarinda)
    } else if s == team_name(Teams::DewaUnitedFC) {
        Some(Teams::DewaUnitedFC)
    } else if s == team_name(Teams::MaduraUnitedFC) {
        Some(Teams::MaduraUnitedFC)
    } else if s == team_name(Teams::MalutUnitedFC) {
        Some(Teams::MalutUnitedFC)
    } else if s == team_name(Teams::PersebayaSurabaya) {
        Some(Teams::PersebayaSurabaya)
    } else if s == team_name(Teams::PersisSolo) {
        Some(Teams::PersisSolo)
    } else if s == team_name(Teams::PssSleman) {
        Some(Teams::PssSleman)
    } else if s == team_name(Teams::PsisSemarang) {
        Some(Teams::PsisSemarang)
    } else if s == team_name(Teams::PersijaJakarta) {
        Some(Teams::PersijaJakarta)
    } else if s == team_name(Teams::PersibBandung) {
        Some(Teams::PersibBandung)
    } else if s == team_name(Teams::PersitaTangerang) {
        Some(Teams::PersitaTangerang)
    } else if s == team_name(Teams::PsbsBiak) {
        Some(Teams::PsbsBiak)
    } else if s == team_name(Teams::PsmMakassar) {
        Some(Teams::PsmMakassar)
    } else if s == team_name(Teams::PersikKediri) {
        Some(Teams::PersikKediri)
    } else if s == team_name(Teams::PSBaritoPutera) {
        Some(Teams::PSBaritoPutera)
    } else if s == team_name(Teams::SemenPadangFC) {
        Some(Teams::SemenPadangFC)
    } else {
        None
    }
}

/// A name resolves to a team exactly when some team carries that name, and
/// the team it resolves to carries it.
pub proof fn lemma_roster_closure(s: Seq<char>)
    ensures
        team_of_name(s) is Some <==> exists|t: Teams| team_name(t) == s,
        team_of_name(s) matches Some(t) ==> team_name(t) == s,
{
    if exists|t: Teams| team_name(t) == s {
        let t = choose|t: Teams| team_name(t) == s;
        match t {
            Teams::AremaFC => {},
            Teams::BaliUnitedFC => {},
            Teams::BorneoFCSamarinda => {},
            Teams::DewaUnitedFC => {},
            Teams::MaduraUnitedFC => {},
            Teams::MalutUnitedFC => {},
            Teams::PersebayaSurabaya => {},
            Teams::PersisSolo => {},
            Teams::PssSleman => {},
            Teams::PsisSemarang => {},
            Teams::PersijaJakarta => {},
            Teams::PersibBandung => {},
            Teams::PersitaTangerang => {},
            Teams::PsbsBiak => {},
            Teams::PsmMakassar => {},
            Teams::PersikKediri => {},
            Teams::PSBaritoPutera => {},
            Teams::SemenPadangFC => {},
        }
    }
}

impl Teams {
    /// The display name of the team.
    pub fn name(&self) -> (r: &'static str)
        ensures
            r@ == team_name(*self),
    {
        match self {
            Teams::AremaFC => "AREMA FC",
            Teams::BaliUnitedFC => "Bali United FC",
            Teams::BorneoFCSamarinda => "Borneo FC Samarinda",
            Teams::DewaUnitedFC => "Dewa United FC",
            Teams::MaduraUnitedFC => "Madura United FC",
            Teams::MalutUnitedFC => "Malut United FC",
            Teams::PersebayaSurabaya => "PERSEBAYA Surabaya",
            Teams::PersisSolo => "PERSIS Solo",
            Teams::PssSleman => "PSS Sleman",
            Teams::PsisSemarang => "PSIS Semarang",
            Teams::PersijaJakarta => "PERSIJA Jakarta",
            Teams::PersibBandung => "PERSIB Bandung",
            Teams::PersitaTangerang => "PERSITA Tangerang",
            Teams::PsbsBiak => "PSBS Biak",
            Teams::PsmMakassar => "PSM Makassar",
            Teams::PersikKediri => "PERSIK Kediri",
            Teams::PSBaritoPutera => "PS Barito Putera",
            Teams::SemenPadangFC => "Semen Padang FC",
        }
    }

    /// Looks a display name up in the roster; `None` when no team has it.
    pub fn from_name(s: &str) -> (r: Option<Teams>)
        ensures
            r == team_of_name(s@),
    {
        let v = chars_of(s);
        let n = v.len();
        assert(v@.subrange(0, n as int) == s@);
        Teams::from_chars(&v, 0, n)
    }

    /// Looks the name spelled by `v[lo..hi]` up in the roster.
    pub fn from_chars(v: &Vec<char>, lo: usize, hi: usize) -> (r: Option<Teams>)
        requires
            lo <= hi <= v@.len(),
        ensures
            r == team_of_name(v@.subrange(lo as int, hi as int)),
    {
        if slice_eq(v, lo, hi, "AREMA FC") {
            return Some(Teams::AremaFC);
        }
        if slice_eq(v, lo, hi, "Bali United FC") {
            return Some(Teams::BaliUnitedFC);
        }
        if slice_eq(v, lo, hi, "Borneo FC Samarinda") {
            return Some(Teams::BorneoFCSamarinda);
        }
        if slice_eq(v, lo, hi, "Dewa United FC") {
            return Some(Teams::DewaUnitedFC);
        }
        if slice_eq(v, lo, hi, "Madura United FC") {
            return Some(Teams::MaduraUnitedFC);
        }
        if slice_eq(v, lo, hi, "Malut United FC") {
            return Some(Teams::MalutUnitedFC);
        }
        if slice_eq(v, lo, hi, "PERSEBAYA Surabaya") {
            return Some(Teams::PersebayaSurabaya);
        }
        if slice_eq(v, lo, hi, "PERSIS Solo") {
            return Some(Teams::PersisSolo);
        }
        if slice_eq(v, lo, hi, "PSS Sleman") {
            return Some(Teams::PssSleman);
        }
        if slice_eq(v, lo, hi, "PSIS Semarang") {
            return Some(Teams::PsisSemarang);
        }
        if slice_eq(v, lo, hi, "PERSIJA Jakarta") {
            return Some(Teams::PersijaJakarta);
        }
        if slice_eq(v, lo, hi, "PERSIB Bandung") {
            return Some(Teams::PersibBandung);
        }
        if slice_eq(v, lo, hi, "PERSITA Tangerang") {
            return Some(Teams::PersitaTangerang);
        }
        if slice_eq(v, lo, hi, "PSBS Biak") {
            return Some(Teams::PsbsBiak);
        }
        if slice_eq(v, lo, hi, "PSM Makassar") {
            return Some(Teams::PsmMakassar);
        }
        if slice_eq(v, lo, hi, "PERSIK Kediri") {
            return Some(Teams::PersikKediri);
        }
        if slice_eq(v, lo, hi, "PS Barito Putera") {
            return Some(Teams::PSBaritoPutera);
        }
        if slice_eq(v, lo, hi, "Semen Padang FC") {
            return Some(Teams::SemenPadangFC);
        }
        None
    }
}

/// Whether the list holds the team.
pub fn contains_team(v: &Vec<Teams>, t: Teams) -> (r: bool)
    ensures
        r == v@.contains(t),
{
    let mut i: usize = 0;
    while i < v.len()
        invariant
            i <= v@.len(),
            forall|k: int| 0 <= k < i ==> v@[k] != t,
        decreases v@.len() - i,
    {
        if v[i] == t {
            return true;
        }
        i += 1;
    }
    false
}

} // verus!
