//! Character-level helpers: string comparison, trimming and the decimal
//! number grammar of the input cells.

use vstd::prelude::*;

verus! {

/// Millionths in one unit of a decimal cell.
pub const MICRO: u64 = 1_000_000;

pub open spec fn is_space(c: char) -> bool {
    c == ' ' || c == '\t' || c == '\n' || c == '\r' || c == '\x0B' || c == '\x0C'
}

pub open spec fn is_digit(c: char) -> bool {
    '0' <= c && c <= '9'
}

pub open spec fn digit_value(c: char) -> nat {
    (c as nat - '0' as nat) as nat
}

pub open spec fn all_digits(s: Seq<char>) -> bool {
    forall|i: int| 0 <= i < s.len() ==> is_digit(#[trigger] s[i])
}

/// The number that a run of decimal digits spells.
pub open spec fn digits_value(s: Seq<char>) -> nat
    decreases s.len(),
{
    if s.len() == 0 {
        0
    } else {
        digits_value(s.drop_last()) * 10 + digit_value(s.last())
    }
}

/// A whole number: one or more decimal digits.
pub open spec fn count_of(s: Seq<char>) -> Option<nat> {
    if s.len() > 0 && all_digits(s) {
        Some(digits_value(s))
    } else {
        None
    }
}

/// The first six digits of a fraction, padded with zeros on the right.
pub open spec fn six_places(f: Seq<char>) -> Seq<char> {
    Seq::new(6, |j: int| if j < f.len() { f[j] } else { '0' })
}

/// The first index `i < n` holding the character `c`.
pub open spec fn index_of_char(s: Seq<char>, c: char, n: int) -> Option<int>
    decreases n,
{
    if n <= 0 {
        None
    } else {
        match index_of_char(s, c, n - 1) {
            Some(i) => Some(i),
            None => if s[n - 1] == c {
                Some(n - 1)
            } else {
                None
            },
        }
    }
}

/// A non-negative decimal number in millionths: digits, optionally followed
/// by a point and one or more digits. Digits past the sixth decimal place
/// are dropped.
pub open spec fn micro_of(s: Seq<char>) -> Option<nat> {
    match index_of_char(s, '.', s.len() as int) {
        None => match count_of(s) {
            Some(v) => Some(v * 1_000_000),
            None => None,
        },
        Some(k) => {
            let int_part = s.take(k);
            let frac = s.skip(k + 1);
            if int_part.len() > 0 && all_digits(int_part) && frac.len() > 0 && all_digits(frac) {
                Some(digits_value(int_part) * 1_000_000 + digits_value(six_places(frac)))
            } else {
                None
            }
        },
    }
}

/// First index at or after `lo` (and before `hi`) that is not whitespace.
pub open spec fn skip_front(s: Seq<char>, lo: int, hi: int) -> int
    decreases hi - lo,
{
    if lo < hi && is_space(s[lo]) {
        skip_front(s, lo + 1, hi)
    } else {
        lo
    }
}

/// One past the last index before `hi` (and at or after `lo`) that is not
/// whitespace.
pub open spec fn skip_back(s: Seq<char>, lo: int, hi: int) -> int
    decreases hi - lo,
{
    if lo < hi && is_space(s[hi - 1]) {
        skip_back(s, lo, hi - 1)
    } else {
        hi
    }
}

/// `s[lo..hi]` without leading and trailing whitespace.
pub open spec fn trimmed(s: Seq<char>, lo: int, hi: int) -> Seq<char> {
    let a = skip_front(s, lo, hi);
    s.subrange(a, skip_back(s, a, hi))
}

proof fn lemma_skip_front_bounds(s: Seq<char>, lo: int, hi: int)
    requires
        lo <= hi,
    ensures
        lo <= skip_front(s, lo, hi) <= hi,
    decreases hi - lo,
{
    if lo < hi && is_space(s[lo]) {
        lemma_skip_front_bounds(s, lo + 1, hi);
    }
}

proof fn lemma_skip_back_bounds(s: Seq<char>, lo: int, hi: int)
    requires
        lo <= hi,
    ensures
        lo <= skip_back(s, lo, hi) <= hi,
    decreases hi - lo,
{
    if lo < hi && is_space(s[hi - 1]) {
        lemma_skip_back_bounds(s, lo, hi - 1);
    }
}

proof fn lemma_digits_prefix(s: Seq<char>, i: int)
    requires
        0 <= i <= s.len(),
    ensures
        digits_value(s.take(i)) <= digits_value(s),
    decreases s.len() - i,
{
    if i < s.len() {
        lemma_digits_prefix(s, i + 1);
        assert(s.take(i + 1).drop_last() == s.take(i));
    } else {
        assert(s.take(i) == s);
    }
}

fn char_is_space(c: char) -> (r: bool)
    ensures
        r == is_space(c),
{
    c == ' ' || c == '\t' || c == '\n' || c == '\r' || c == '\x0B' || c == '\x0C'
}

/// The characters of a string, in order.
pub fn chars_of(s: &str) -> (r: Vec<char>)
    ensures
        r@ == s@,
{
    let n = s.unicode_len();
    let mut r: Vec<char> = Vec::new();
    let mut i: usize = 0;
    while i < n
        invariant
            n == s@.len(),
            i <= n,
            r@ == s@.take(i as int),
        decreases n - i,
    {
        r.push(s.get_char(i));
        assert(s@.take(i + 1) == s@.take(i as int).push(s@[i as int]));
        i += 1;
    }
    assert(s@.take(n as int) == s@);
    r
}

/// Whether `v[lo..hi]` spells the string `s`.
pub fn slice_eq(v: &Vec<char>, lo: usize, hi: usize, s: &str) -> (r: bool)
    requires
        lo <= hi <= v@.len(),
    ensures
        r == (v@.subrange(lo as int, hi as int) == s@),
{
    let n = s.unicode_len();
    if hi - lo != n {
        return false;
    }
    let mut i: usize = 0;
    while i < n
        invariant
            n == s@.len(),
            lo <= hi <= v@.len(),
            hi - lo == n,
            i <= n,
            v@.subrange(lo as int, lo + i) == s@.take(i as int),
        decreases n - i,
    {
        if v[lo + i] != s.get_char(i) {
            assert(v@.subrange(lo as int, hi as int)[i as int] != s@[i as int]);
            return false;
        }
        assert(v@.subrange(lo as int, lo + i + 1) == v@.subrange(lo as int, lo + i).push(v@[lo + i]));
        assert(s@.take(i + 1) == s@.take(i as int).push(s@[i as int]));
        i += 1;
    }
    assert(s@.take(n as int) == s@);
    true
}

/// `v[lo..hi]` without leading and trailing whitespace, as a range.
pub fn trim_range(v: &Vec<char>, lo: usize, hi: usize) -> (r: (usize, usize))
    requires
        lo <= hi <= v@.len(),
    ensures
        lo <= r.0 <= r.1 <= hi,
        v@.subrange(r.0 as int, r.1 as int) == trimmed(v@, lo as int, hi as int),
{
    let mut a = lo;
    while a < hi && char_is_space(v[a])
        invariant
            lo <= a <= hi <= v@.len(),
            skip_front(v@, a as int, hi as int) == skip_front(v@, lo as int, hi as int),
        decreases hi - a,
    {
        a += 1;
    }
    let mut b = hi;
    while a < b && char_is_space(v[b - 1])
        invariant
            lo <= a <= b <= hi <= v@.len(),
            skip_front(v@, lo as int, hi as int) == a,
            skip_back(v@, a as int, b as int) == skip_back(v@, a as int, hi as int),
        decreases b - a,
    {
        b -= 1;
    }
    (a, b)
}

fn digit_of(c: char) -> (r: u64)
    requires
        is_digit(c),
    ensures
        r == digit_value(c),
{
    (c as u32 - '0' as u32) as u64
}

fn all_digits_in(v: &Vec<char>, lo: usize, hi: usize) -> (r: bool)
    requires
        lo <= hi <= v@.len(),
    ensures
        r == all_digits(v@.subrange(lo as int, hi as int)),
{
    let mut i = lo;
    while i < hi
        invariant
            lo <= i <= hi <= v@.len(),
            forall|j: int| lo <= j < i ==> is_digit(#[trigger] v@[j]),
        decreases hi - i,
    {
        if !(v[i] >= '0' && v[i] <= '9') {
            assert(!is_digit(v@.subrange(lo as int, hi as int)[i - lo]));
            return false;
        }
        i += 1;
    }
    assert forall|j: int| 0 <= j < hi - lo implies is_digit(
        #[trigger] v@.subrange(lo as int, hi as int)[j],
    ) by {
        assert(v@.subrange(lo as int, hi as int)[j] == v@[lo + j]);
    }
    true
}

/// The value of the digits `v[lo..hi]`, when it does not exceed `limit`.
fn digits_up_to(v: &Vec<char>, lo: usize, hi: usize, limit: u64) -> (r: Option<u64>)
    requires
        lo <= hi <= v@.len(),
        all_digits(v@.subrange(lo as int, hi as int)),
        limit <= u32::MAX,
    ensures
        r == (if digits_value(v@.subrange(lo as int, hi as int)) <= limit {
            Some(digits_value(v@.subrange(lo as int, hi as int)) as u64)
        } else {
            None
        }),
{
    let ghost s = v@.subrange(lo as int, hi as int);
    let mut acc: u64 = 0;
    let mut i = lo;
    while i < hi
        invariant
            lo <= i <= hi <= v@.len(),
            s == v@.subrange(lo as int, hi as int),
            all_digits(s),
            limit <= u32::MAX,
            acc == digits_value(s.take(i - lo)),
            acc <= limit,
        decreases hi - i,
    {
        assert(is_digit(s[i - lo]));
        assert(s.take(i - lo + 1).drop_last() == s.take(i - lo));
        assert(s.take(i - lo + 1).last() == v@[i as int]);
        let next = acc * 10 + digit_of(v[i]);
        if next > limit {
            proof {
                lemma_digits_prefix(s, i - lo + 1);
            }
            return None;
        }
        acc = next;
        i += 1;
    }
    assert(s.take(hi - lo) == s);
    Some(acc)
}

/// Parses `v[lo..hi]` as a whole number no greater than `limit`.
pub fn parse_count(v: &Vec<char>, lo: usize, hi: usize, limit: u64) -> (r: Option<u64>)
    requires
        lo <= hi <= v@.len(),
        limit <= u32::MAX,
    ensures
        r == (match count_of(v@.subrange(lo as int, hi as int)) {
            Some(n) => if n <= limit {
                Some(n as u64)
            } else {
                None
            },
            None => None,
        }),
{
    if lo == hi || !all_digits_in(v, lo, hi) {
        return None;
    }
    digits_up_to(v, lo, hi, limit)
}

fn find_char(v: &Vec<char>, c: char) -> (r: Option<usize>)
    ensures
        match r {
            Some(i) => i < v@.len() && index_of_char(v@, c, v@.len() as int) == Some(i as int),
            None => index_of_char(v@, c, v@.len() as int) is None,
        },
{
    let mut i: usize = 0;
    while i < v.len()
        invariant
            i <= v@.len(),
            index_of_char(v@, c, i as int) is None,
        decreases v@.len() - i,
    {
        if v[i] == c {
            proof {
                lemma_index_of_char_found(v@, c, i as int, v@.len() as int);
            }
            return Some(i);
        }
        i += 1;
    }
    None
}

proof fn lemma_index_of_char_found(s: Seq<char>, c: char, i: int, n: int)
    requires
        0 <= i < n <= s.len(),
        index_of_char(s, c, i) is None,
        s[i] == c,
    ensures
        index_of_char(s, c, n) == Some(i),
    decreases n - i,
{
    if n > i + 1 {
        lemma_index_of_char_found(s, c, i, n - 1);
    }
}

/// The first six decimal places of `v[lo..hi]`, as millionths.
fn six_places_value(v: &Vec<char>, lo: usize, hi: usize) -> (r: u64)
    requires
        lo <= hi <= v@.len(),
        all_digits(v@.subrange(lo as int, hi as int)),
    ensures
        r == digits_value(six_places(v@.subrange(lo as int, hi as int))),
        r < MICRO,
{
    let ghost f = v@.subrange(lo as int, hi as int);
    let ghost p = six_places(f);
    let mut acc: u64 = 0;
    let mut j: usize = 0;
    while j < 6
        invariant
            lo <= hi <= v@.len(),
            f == v@.subrange(lo as int, hi as int),
            all_digits(f),
            p == six_places(f),
            j <= 6,
            acc == digits_value(p.take(j as int)),
            acc < pow10(j as nat),
        decreases 6 - j,
    {
        let d: u64 = if j < hi - lo {
            assert(is_digit(f[j as int]));
            digit_of(v[lo + j])
        } else {
            0
        };
        assert(p.take(j + 1).drop_last() == p.take(j as int));
        assert(p.take(j + 1).last() == p[j as int]);
        assert(d == digit_value(p[j as int]));
        assert(pow10((j + 1) as nat) == pow10(j as nat) * 10);
        assert(pow10(j as nat) <= 100_000) by {
            reveal_with_fuel(pow10, 6);
        }
        acc = acc * 10 + d;
        j += 1;
    }
    assert(p.take(6) == p);
    assert(pow10(6) == 1_000_000) by {
        reveal_with_fuel(pow10, 7);
    }
    acc
}

pub open spec fn pow10(n: nat) -> nat
    decreases n,
{
    if n == 0 {
        1
    } else {
        pow10((n - 1) as nat) * 10
    }
}

/// Parses a decimal cell into millionths, when the result does not exceed
/// `u32::MAX`.
pub fn parse_micro(v: &Vec<char>) -> (r: Option<u32>)
    ensures
        r == (match micro_of(v@) {
            Some(n) => if n <= u32::MAX {
                Some(n as u32)
            } else {
                None
            },
            None => None,
        }),
{
    let n = v.len();
    assert(v@.subrange(0, n as int) == v@);
    match find_char(v, '.') {
        None => {
            match parse_count(v, 0, n, 4294) {
                Some(w) => Some((w * MICRO) as u32),
                None => {
                    proof {
                        if let Some(d) = count_of(v@) {
                            assert(d * 1_000_000 > u32::MAX) by (nonlinear_arith)
                                requires
                                    d > 4294,
                            ;
                        }
                    }
                    None
                },
            }
        },
        Some(k) => {
            assert(v@.subrange(0, k as int) == v@.take(k as int));
            assert(v@.subrange(k + 1, n as int) == v@.skip(k + 1));
            if k == 0 || k + 1 == n || !all_digits_in(v, 0, k) || !all_digits_in(v, k + 1, n) {
                return None;
            }
            let frac = six_places_value(v, k + 1, n);
            match digits_up_to(v, 0, k, 4294) {
                Some(w) => {
                    let total = w * MICRO + frac;
                    if total <= u32::MAX as u64 {
                        Some(total as u32)
                    } else {
                        None
                    }
                },
                None => {
                    proof {
                        let d = digits_value(v@.take(k as int));
                        let f = digits_value(six_places(v@.skip(k + 1)));
                        assert(d * 1_000_000 + f > u32::MAX) by (nonlinear_arith)
                            requires
                                d > 4294,
                        ;
                    }
                    None
                },
            }
        },
    }
}

} // verus!
