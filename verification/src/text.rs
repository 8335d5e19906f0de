//! Spec-level helpers for sequences of strings: ordered insertion
//! without duplicates, and case-insensitive ASCII comparison.

use vstd::prelude::*;
use vstd::string::StrSliceExecFns;

verus! {

/// The view of a vector of strings: each element replaced by its
/// sequence of characters.
pub open spec fn views_of(s: Seq<String>) -> Seq<Seq<char>> {
    s.map_values(|x: String| x@)
}

/// Appends `x` to `s` unless `s` already holds it; every accumulating
/// collection of the configuration grows this way.
pub open spec fn push_unique<T>(s: Seq<T>, x: T) -> Seq<T> {
    if s.contains(x) {
        s
    } else {
        s.push(x)
    }
}

/// Folds [`push_unique`] over `items`, left to right.
pub open spec fn push_unique_all<T>(s: Seq<T>, items: Seq<T>) -> Seq<T>
    decreases items.len(),
{
    if items.len() == 0 {
        s
    } else {
        push_unique(push_unique_all(s, items.drop_last()), items.last())
    }
}

/// Tests whether the vector holds a string with exactly the characters
/// of `x`.
pub fn contains_string(v: &Vec<String>, x: &str) -> (r: bool)
    ensures
        r == views_of(v@).contains(x@),
{
    let xo = x.to_owned();
    let mut i: usize = 0;
    while i < v.len()
        invariant
            xo@ == x@,
            0 <= i <= v.len(),
            forall|k: int| 0 <= k < i ==> views_of(v@)[k] != x@,
        decreases v.len() - i,
    {
        if v[i] == xo {
            assert(views_of(v@)[i as int] == x@);
            return true;
        }
        i += 1;
    }
    false
}

/// The view of a vector of string pairs: each component replaced by
/// its sequence of characters.
pub open spec fn pair_views(s: Seq<(String, String)>) -> Seq<(Seq<char>, Seq<char>)> {
    s.map_values(|p: (String, String)| (p.0@, p.1@))
}

/// Tests whether the vector holds a pair with exactly the characters
/// of `k` and `val`.
pub fn contains_string_pair(v: &Vec<(String, String)>, k: &str, val: &str) -> (r: bool)
    ensures
        r == pair_views(v@).contains((k@, val@)),
{
    let ko = k.to_owned();
    let vo = val.to_owned();
    let mut i: usize = 0;
    while i < v.len()
        invariant
            ko@ == k@,
            vo@ == val@,
            0 <= i <= v.len(),
            forall|j: int| 0 <= j < i ==> pair_views(v@)[j] != (k@, val@),
        decreases v.len() - i,
    {
        if v[i].0 == ko && v[i].1 == vo {
            assert(pair_views(v@)[i as int] == (k@, val@));
            return true;
        }
        i += 1;
    }
    false
}

/// The code point of `c`, with an ASCII capital letter folded to its
/// lower-case counterpart.
pub open spec fn lower_code(c: char) -> int {
    if 65 <= c as u32 && c as u32 <= 90 {
        c as u32 + 32
    } else {
        c as u32 as int
    }
}

/// Character-wise equality up to ASCII case.
pub open spec fn spec_eq_ignore_ascii_case(a: Seq<char>, b: Seq<char>) -> bool {
    a.len() == b.len() && forall|i: int| 0 <= i < a.len() ==> lower_code(a[i]) == lower_code(b[i])
}

/// Compares two strings, treating ASCII capitals and their lower-case
/// counterparts as equal; characters outside ASCII must match exactly.
pub fn eq_ignore_ascii_case(a: &str, b: &str) -> (r: bool)
    ensures
        r == spec_eq_ignore_ascii_case(a@, b@),
{
    let n = a.unicode_len();
    if n != b.unicode_len() {
        return false;
    }
    let mut i: usize = 0;
    while i < n
        invariant
            0 <= i <= n,
            n == a@.len(),
            n == b@.len(),
            forall|k: int| 0 <= k < i ==> lower_code(a@[k]) == lower_code(b@[k]),
        decreases n - i,
    {
        let ca = a.get_char(i) as u32;
        let cb = b.get_char(i) as u32;
        let la = if 65 <= ca && ca <= 90 {
            ca + 32
        } else {
            ca
        };
        let lb = if 65 <= cb && cb <= 90 {
            cb + 32
        } else {
            cb
        };
        if la != lb {
            return false;
        }
        i += 1;
    }
    true
}

} // verus!
