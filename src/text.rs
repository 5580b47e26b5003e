//! Character-level helpers shared by the parsers.
use vstd::prelude::*;

verus! {

broadcast use vstd::string::group_string_axioms;

/// The characters of `s`, one per element.
pub fn chars_of(s: &str) -> (r: Vec<char>)
    ensures
        r@ == s@,
{
    let mut out: Vec<char> = Vec::new();
    for c in it: s.chars()
        invariant
            out@ == it.seq().take(it.index() as int),
    {
        out.push(c);
    }
    assert(out@ == s@);
    out
}

/// A character that Unicode gives the White_Space property, as `char::is_whitespace` reads it.
pub open spec fn is_white(c: char) -> bool {
    ('\u{9}' <= c && c <= '\u{d}') || c == ' ' || c == '\u{85}' || c == '\u{a0}' || c == '\u{1680}'
        || ('\u{2000}' <= c && c <= '\u{200a}') || c == '\u{2028}' || c == '\u{2029}'
        || c == '\u{202f}' || c == '\u{205f}' || c == '\u{3000}'
}

pub fn white(c: char) -> (r: bool)
    ensures
        r == is_white(c),
{
    ('\u{9}' <= c && c <= '\u{d}') || c == ' ' || c == '\u{85}' || c == '\u{a0}' || c == '\u{1680}'
        || ('\u{2000}' <= c && c <= '\u{200a}') || c == '\u{2028}' || c == '\u{2029}'
        || c == '\u{202f}' || c == '\u{205f}' || c == '\u{3000}'
}

/// Index of the first character of `s` that is not white space (`s.len()` if none).
pub open spec fn lead_end(s: Seq<char>, p: int) -> int
    decreases s.len() - p,
{
    if p < 0 || p >= s.len() || !is_white(s[p]) {
        p
    } else {
        lead_end(s, p + 1)
    }
}

/// Index just past the last character of `s[..q]` that is not white space.
pub open spec fn trail_start(s: Seq<char>, q: int) -> int
    decreases q,
{
    if q <= 0 || q > s.len() || !is_white(s[q - 1]) {
        q
    } else {
        trail_start(s, q - 1)
    }
}

/// `s` without leading white space.
pub open spec fn trim_start_of(s: Seq<char>) -> Seq<char> {
    s.subrange(lead_end(s, 0), s.len() as int)
}

/// `s` without leading or trailing white space.
pub open spec fn trim_of(s: Seq<char>) -> Seq<char> {
    let lo = lead_end(s, 0);
    if lo == s.len() {
        Seq::empty()
    } else {
        s.subrange(lo, trail_start(s, s.len() as int))
    }
}

/// Whether `s` begins with `p`.
pub open spec fn begins_with(s: Seq<char>, p: Seq<char>) -> bool {
    p.len() <= s.len() && s.subrange(0, p.len() as int) == p
}

proof fn lemma_lead_end_bounds(s: Seq<char>, p: int)
    requires
        0 <= p <= s.len(),
    ensures
        p <= lead_end(s, p) <= s.len(),
    decreases s.len() - p,
{
    if p < s.len() && is_white(s[p]) {
        lemma_lead_end_bounds(s, p + 1);
    }
}

proof fn lemma_trail_start_bounds(s: Seq<char>, lo: int, q: int)
    requires
        0 <= lo < q <= s.len(),
        !is_white(s[lo]),
    ensures
        lo < trail_start(s, q) <= q,
    decreases q,
{
    if q - 1 > lo && is_white(s[q - 1]) {
        lemma_trail_start_bounds(s, lo, q - 1);
    }
}

/// The bounds of `trim_start_of(s@)` and `trim_of(s@)` within `s`.
pub fn trim_bounds(s: &Vec<char>) -> (r: (usize, usize))
    ensures
        r.0 == lead_end(s@, 0),
        r.0 <= r.1 <= s.len(),
        trim_start_of(s@) == s@.subrange(r.0 as int, s.len() as int),
        trim_of(s@) == s@.subrange(r.0 as int, r.1 as int),
{
    proof {
        lemma_lead_end_bounds(s@, 0);
    }
    let mut lo: usize = 0;
    while lo < s.len() && white(s[lo])
        invariant
            lo <= s.len(),
            lead_end(s@, lo as int) == lead_end(s@, 0),
        decreases s.len() - lo,
    {
        lo = lo + 1;
    }
    if lo == s.len() {
        return (lo, lo);
    }
    let mut hi: usize = s.len();
    proof {
        lemma_trail_start_bounds(s@, lo as int, hi as int);
    }
    while hi > lo + 1 && white(s[hi - 1])
        invariant
            lo < hi <= s.len(),
            !is_white(s@[lo as int]),
            trail_start(s@, hi as int) == trail_start(s@, s.len() as int),
        decreases hi,
    {
        hi = hi - 1;
    }
    (lo, hi)
}

/// Whether the characters of `s` from `at` on begin with those of `p`.
pub fn has_prefix_at(s: &Vec<char>, at: usize, p: &str) -> (r: bool)
    requires
        at <= s.len(),
    ensures
        r == begins_with(s@.subrange(at as int, s.len() as int), p@),
{
    let pc = chars_of(p);
    if pc.len() > s.len() - at {
        return false;
    }
    let mut i: usize = 0;
    while i < pc.len()
        invariant
            i <= pc.len(),
            pc@ == p@,
            pc.len() <= s.len() - at,
            forall|j: int| 0 <= j < i ==> s@[at + j] == pc@[j],
        decreases pc.len() - i,
    {
        if s[at + i] != pc[i] {
            assert(s@.subrange(at as int, s.len() as int).subrange(0, pc.len() as int)[i as int] != pc@[i as int]);
            return false;
        }
        i = i + 1;
    }
    assert(s@.subrange(at as int, s.len() as int).subrange(0, pc.len() as int) =~= pc@);
    true
}

} // verus!
