//! Normalization of a platform target triple
//! (`<arch>-<vendor>?-<os>-<toolchain>`) into the compiler's own
//! `<os>-<arch>` naming scheme.

use vstd::prelude::*;
use vstd::string::StrSliceExecFns;
use vstd::string::StringExecFns;

use crate::text::eq_ignore_ascii_case;
use crate::text::spec_eq_ignore_ascii_case;
use crate::text::views_of;

verus! {

/// Index of the first `-` in `s`, or `s.len()` if there is none.
pub open spec fn first_dash(s: Seq<char>) -> int
    decreases s.len(),
{
    if s.len() == 0 {
        0
    } else if s[0] == '-' {
        0
    } else {
        1 + first_dash(s.drop_first())
    }
}

/// `first_dash` is in bounds, lands on a `-` when one exists, and
/// nothing before it is a `-`.
pub proof fn lemma_first_dash(s: Seq<char>)
    ensures
        0 <= first_dash(s) <= s.len(),
        first_dash(s) < s.len() ==> s[first_dash(s)] == '-',
        forall|k: int| 0 <= k < first_dash(s) ==> s[k] != '-',
    decreases s.len(),
{
    if s.len() == 0 || s[0] == '-' {
    } else {
        lemma_first_dash(s.drop_first());
        assert forall|k: int| 0 <= k < first_dash(s) implies s[k] != '-' by {
            if k > 0 {
                assert(s.drop_first()[k - 1] == s[k]);
            }
        }
    }
}

/// A position with a `-` and nothing but other characters before it
/// is exactly `first_dash`; `s.len()` qualifies when `s` has no `-`.
pub proof fn lemma_first_dash_unique(s: Seq<char>, i: int)
    requires
        0 <= i <= s.len(),
        i < s.len() ==> s[i] == '-',
        forall|k: int| 0 <= k < i ==> s[k] != '-',
    ensures
        first_dash(s) == i,
    decreases s.len(),
{
    if s.len() == 0 {
    } else if s[0] == '-' {
        assert(i == 0);
    } else {
        assert(i > 0);
        assert(i - 1 < s.drop_first().len() ==> s.drop_first()[i - 1] == s[i]);
        assert forall|k: int| 0 <= k < i - 1 implies s.drop_first()[k] != '-' by {
            assert(s.drop_first()[k] == s[k + 1]);
        }
        lemma_first_dash_unique(s.drop_first(), i - 1);
    }
}

/// The pieces of `s` between its `-` separators, in order; a string
/// without a `-` is one piece, and every separator contributes a
/// piece on each side, empty or not.
pub open spec fn spec_split_dashes(s: Seq<char>) -> Seq<Seq<char>>
    decreases s.len(),
{
    let i = first_dash(s);
    if 0 <= i && i < s.len() {
        seq![s.subrange(0, i)] + spec_split_dashes(s.subrange(i + 1, s.len() as int))
    } else {
        seq![s]
    }
}

/// Splitting a string that opens with a dash-free piece `a` followed
/// by a `-` yields `a` and then the split of the remainder.
pub proof fn lemma_split_dashes_step(a: Seq<char>, b: Seq<char>)
    requires
        forall|k: int| 0 <= k < a.len() ==> a[k] != '-',
    ensures
        spec_split_dashes(a + seq!['-'] + b) == seq![a] + spec_split_dashes(b),
{
    let s = a + seq!['-'] + b;
    assert forall|k: int| 0 <= k < a.len() implies s[k] != '-' by {
        assert(s[k] == a[k]);
    }
    lemma_first_dash_unique(s, a.len() as int);
    assert(s.subrange(0, a.len() as int) =~= a);
    assert(s.subrange(a.len() as int + 1, s.len() as int) =~= b);
}

/// A string without a `-` splits into itself alone.
pub proof fn lemma_split_dashes_whole(s: Seq<char>)
    requires
        forall|k: int| 0 <= k < s.len() ==> s[k] != '-',
    ensures
        spec_split_dashes(s) == seq![s],
{
    lemma_first_dash_unique(s, s.len() as int);
}

/// Splits `s` at every `-`, keeping empty pieces.
pub fn split_dashes(s: &str) -> (parts: Vec<String>)
    ensures
        views_of(parts@) == spec_split_dashes(s@),
{
    let n = s.unicode_len();
    let mut parts: Vec<String> = Vec::new();
    let mut start: usize = 0;
    let mut i: usize = 0;
    proof {
        assert(s@.subrange(0, n as int) =~= s@);
        assert(views_of(parts@) + spec_split_dashes(s@) =~= spec_split_dashes(s@));
    }
    while i < n
        invariant
            0 <= start <= i <= n,
            n == s@.len(),
            forall|k: int| start <= k < i ==> s@[k] != '-',
            spec_split_dashes(s@) == views_of(parts@) + spec_split_dashes(
                s@.subrange(start as int, n as int),
            ),
        decreases n - i,
    {
        if s.get_char(i) == '-' {
            let ghost prev = parts@;
            let piece = s.substring_char(start, i).to_owned();
            parts.push(piece);
            proof {
                let a = s@.subrange(start as int, i as int);
                let b = s@.subrange(i as int + 1, n as int);
                assert(s@.subrange(start as int, n as int) =~= a + seq!['-'] + b);
                lemma_split_dashes_step(a, b);
                assert(views_of(parts@) =~= views_of(prev).push(a));
                assert(views_of(prev).push(a) + spec_split_dashes(b) =~= views_of(prev) + (seq![
                    a,
                ] + spec_split_dashes(b)));
            }
            start = i + 1;
        }
        i += 1;
    }
    let ghost prev = parts@;
    let piece = s.substring_char(start, n).to_owned();
    parts.push(piece);
    proof {
        let a = s@.subrange(start as int, n as int);
        lemma_split_dashes_whole(a);
        assert(views_of(parts@) =~= views_of(prev).push(a));
        assert(views_of(prev).push(a) =~= views_of(prev) + seq![a]);
    }
    parts
}

/// The compiler's `<os>-<arch>` identifier for the platform triple
/// `t`, or `None` when `t` has fewer than three `-`-separated fields.
///
/// With exactly four fields the vendor occupies the second, so the OS
/// is the third and the toolchain the fourth; otherwise the OS is the
/// second and the toolchain the third. Case-insensitively, OS
/// `windows` with toolchain `gnu` or `gnullvm` becomes `mingw`, and
/// architecture `x86_64` becomes `x64`.
pub open spec fn spec_normalize_target(t: Seq<char>) -> Option<Seq<char>> {
    let parts = spec_split_dashes(t);
    if parts.len() < 3 {
        None
    } else {
        let wo: int = if parts.len() == 4 {
            2
        } else {
            1
        };
        let arch0 = parts[0];
        let os0 = parts[wo];
        let tc = parts[wo + 1];
        let os = if spec_eq_ignore_ascii_case(os0, "windows"@) && (spec_eq_ignore_ascii_case(
            tc,
            "gnu"@,
        ) || spec_eq_ignore_ascii_case(tc, "gnullvm"@)) {
            "mingw"@
        } else {
            os0
        };
        let arch = if spec_eq_ignore_ascii_case(arch0, "x86_64"@) {
            "x64"@
        } else {
            arch0
        };
        Some(os + "-"@ + arch)
    }
}

/// Renders the platform triple `target` in the compiler's own
/// `<os>-<arch>` scheme, or `None` when the triple has fewer than
/// three fields.
pub fn normalize_target(target: &str) -> (r: Option<String>)
    ensures
        r is Some <==> spec_normalize_target(target@) is Some,
        r matches Some(c) ==> spec_normalize_target(target@) == Some(c@),
{
    let parts = split_dashes(target);
    if parts.len() < 3 {
        return None;
    }
    let wo: usize = if parts.len() == 4 {
        2
    } else {
        1
    };
    let arch_raw = parts[0].as_str();
    let os_raw = parts[wo].as_str();
    let tc = parts[wo + 1].as_str();
    let os: &str = if eq_ignore_ascii_case(os_raw, "windows") && (eq_ignore_ascii_case(tc, "gnu")
        || eq_ignore_ascii_case(tc, "gnullvm")) {
        "mingw"
    } else {
        os_raw
    };
    let arch: &str = if eq_ignore_ascii_case(arch_raw, "x86_64") {
        "x64"
    } else {
        arch_raw
    };
    let r = os.to_owned().concat("-").concat(arch);
    proof {
        assert(views_of(parts@)[0] == arch_raw@);
        assert(views_of(parts@)[wo as int] == os_raw@);
        assert(views_of(parts@)[wo as int + 1] == tc@);
    }
    Some(r)
}

} // verus!
