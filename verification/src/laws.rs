//! The global properties the crate promises, proved once and for all:
//! accumulation is idempotent, keeps insertion order and never
//! introduces a duplicate, and the rendered argument list holds its
//! flag groups in fixed, ordered positions whatever order the
//! accumulation calls were made in.

use vstd::prelude::*;

use crate::config::ConfigView;
use crate::invocation::spec_args;
use crate::invocation::spec_flag_pairs;
use crate::invocation::spec_header;
use crate::text::push_unique;
use crate::text::push_unique_all;

verus! {

/// Accumulating the same entry twice leaves the collection exactly as
/// after the first time; the entry is present afterwards, and what
/// was there before stands unchanged, in its original order, as a
/// prefix.
pub proof fn lemma_accumulation_idempotent<T>(s: Seq<T>, x: T)
    ensures
        push_unique(push_unique(s, x), x) == push_unique(s, x),
        push_unique(s, x).contains(x),
        s.is_prefix_of(push_unique(s, x)),
{
    if s.contains(x) {
        assert(s =~= s.subrange(0, s.len() as int));
    } else {
        let p = s.push(x);
        assert(p[s.len() as int] == x);
        assert(p.contains(x));
        assert(s =~= p.subrange(0, s.len() as int));
    }
}

/// A collection without duplicates still has none after an entry is
/// accumulated; with idempotence this says every entry occurs exactly
/// once however often it was added.
pub proof fn lemma_accumulation_no_duplicates<T>(s: Seq<T>, x: T)
    requires
        s.no_duplicates(),
    ensures
        push_unique(s, x).no_duplicates(),
{
    if !s.contains(x) {
        let p = s.push(x);
        assert forall|i: int, j: int|
            0 <= i < p.len() && 0 <= j < p.len() && i != j implies p[i] != p[j] by {
            if i == s.len() as int {
                if p[j] == x {
                    assert(s[j] == x);
                    assert(s.contains(x));
                }
            } else if j == s.len() as int {
                if p[i] == x {
                    assert(s[i] == x);
                    assert(s.contains(x));
                }
            }
        }
    }
}

/// Accumulating a whole batch preserves freedom from duplicates.
pub proof fn lemma_accumulation_all_no_duplicates<T>(s: Seq<T>, items: Seq<T>)
    requires
        s.no_duplicates(),
    ensures
        push_unique_all(s, items).no_duplicates(),
    decreases items.len(),
{
    if items.len() > 0 {
        lemma_accumulation_all_no_duplicates(s, items.drop_last());
        lemma_accumulation_no_duplicates(push_unique_all(s, items.drop_last()), items.last());
    }
}

/// A fresh configuration is well formed, so by the two lemmas above
/// every configuration a chain of accumulation calls can reach is.
pub proof fn lemma_initial_wf()
    ensures
        ConfigView::initial().wf(),
{
}

/// A flag group spends exactly two tokens on each of its items.
pub proof fn lemma_flag_pairs_len(flag: Seq<char>, items: Seq<Seq<char>>)
    ensures
        spec_flag_pairs(flag, items).len() == 2 * items.len(),
    decreases items.len(),
{
    if items.len() > 0 {
        lemma_flag_pairs_len(flag, items.drop_last());
    }
}

/// The rendered argument list always keeps its groups in the same
/// order at fixed offsets: the nine header tokens, then every `-D`
/// feature flag, then every `-z` linker-argument flag, then the `-L`
/// directory flags, the `-l` library flags, the `--libdir` flags and
/// the `--lib` flags, then the source files, then the raw passthrough
/// arguments — whatever order the accumulation calls were made in.
pub proof fn lemma_args_group_order(
    c: ConfigView,
    name: Seq<char>,
    out_dir: Seq<char>,
    c3_target: Seq<char>,
)
    ensures
        ({
            let a = spec_args(c, name, out_dir, c3_target);
            let b0 = 9int;
            let b1 = b0 + 2 * c.features.len();
            let b2 = b1 + 2 * c.linker_arguments.len();
            let b3 = b2 + 2 * c.compiled_lib_dirs.len();
            let b4 = b3 + 2 * c.compiled_libs.len();
            let b5 = b4 + 2 * c.c3_lib_dirs.len();
            let b6 = b5 + 2 * c.c3_libs.len();
            let b7 = b6 + c.files.len();
            let b8 = b7 + c.args.len();
            &&& a.len() == b8
            &&& a.subrange(0, b0) == spec_header(c, name, out_dir, c3_target)
            &&& a.subrange(b0, b1) == spec_flag_pairs("-D"@, c.features)
            &&& a.subrange(b1, b2) == spec_flag_pairs("-z"@, c.linker_arguments)
            &&& a.subrange(b2, b3) == spec_flag_pairs("-L"@, c.compiled_lib_dirs)
            &&& a.subrange(b3, b4) == spec_flag_pairs("-l"@, c.compiled_libs)
            &&& a.subrange(b4, b5) == spec_flag_pairs("--libdir"@, c.c3_lib_dirs)
            &&& a.subrange(b5, b6) == spec_flag_pairs("--lib"@, c.c3_libs)
            &&& a.subrange(b6, b7) == c.files
            &&& a.subrange(b7, b8) == c.args
        }),
{
    let a = spec_args(c, name, out_dir, c3_target);
    let b0 = 9int;
    let b1 = b0 + 2 * c.features.len();
    let b2 = b1 + 2 * c.linker_arguments.len();
    let b3 = b2 + 2 * c.compiled_lib_dirs.len();
    let b4 = b3 + 2 * c.compiled_libs.len();
    let b5 = b4 + 2 * c.c3_lib_dirs.len();
    let b6 = b5 + 2 * c.c3_libs.len();
    let b7 = b6 + c.files.len();
    let b8 = b7 + c.args.len();
    lemma_flag_pairs_len("-D"@, c.features);
    lemma_flag_pairs_len("-z"@, c.linker_arguments);
    lemma_flag_pairs_len("-L"@, c.compiled_lib_dirs);
    lemma_flag_pairs_len("-l"@, c.compiled_libs);
    lemma_flag_pairs_len("--libdir"@, c.c3_lib_dirs);
    lemma_flag_pairs_len("--lib"@, c.c3_libs);
    assert(a.len() == b8);
    assert(a.subrange(0, b0) =~= spec_header(c, name, out_dir, c3_target));
    assert(a.subrange(b0, b1) =~= spec_flag_pairs("-D"@, c.features));
    assert(a.subrange(b1, b2) =~= spec_flag_pairs("-z"@, c.linker_arguments));
    assert(a.subrange(b2, b3) =~= spec_flag_pairs("-L"@, c.compiled_lib_dirs));
    assert(a.subrange(b3, b4) =~= spec_flag_pairs("-l"@, c.compiled_libs));
    assert(a.subrange(b4, b5) =~= spec_flag_pairs("--libdir"@, c.c3_lib_dirs));
    assert(a.subrange(b5, b6) =~= spec_flag_pairs("--lib"@, c.c3_libs));
    assert(a.subrange(b6, b7) =~= c.files);
    assert(a.subrange(b7, b8) =~= c.args);
}

} // verus!
