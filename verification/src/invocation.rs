//! Translation of an accumulated configuration into the compiler's
//! argument list and environment, and the directives reported to the
//! host build system once the compiler has run.

use vstd::prelude::*;
use vstd::string::StringExecFns;

use crate::config::ConfigView;
use crate::config::LinkingMode;
use crate::config::OptimizationLevel;
use crate::text::pair_views;
use crate::text::views_of;

verus! {

/// Why a build step failed.
#[derive(Clone, Copy, PartialEq, Eq, Structural, Debug)]
pub enum BuildError {
    /// The platform target triple had fewer than three fields.
    MalformedTarget,
    /// The compiler ran but exited with a non-zero status.
    CompilerFailure,
    /// The compiler could not be started.
    SpawnFailure,
}

impl BuildError {
    /// The text describing this failure.
    pub open spec fn spec_message(self) -> Seq<char> {
        match self {
            BuildError::MalformedTarget => "target triple has too few fields"@,
            BuildError::CompilerFailure => "the C3 compiler exited with an error"@,
            BuildError::SpawnFailure => "the C3 compiler could not be started"@,
        }
    }

    /// Renders this failure as text for the caller to surface.
    pub fn message(&self) -> (s: &str)
        ensures
            s@ == self.spec_message(),
    {
        match self {
            BuildError::MalformedTarget => "target triple has too few fields",
            BuildError::CompilerFailure => "the C3 compiler exited with an error",
            BuildError::SpawnFailure => "the C3 compiler could not be started",
        }
    }
}

/// What became of the compiler subprocess; the caller observes this
/// and hands it back to [`report_outcome`].
#[derive(Clone, Copy, PartialEq, Eq, Structural, Debug)]
pub enum RunOutcome {
    /// The compiler ran and exited successfully.
    Success,
    /// The compiler ran and exited with a non-zero status.
    NonZeroExit,
    /// The compiler could not be started.
    SpawnFailure,
}

/// A fully translated compiler invocation: the program to start, its
/// ordered argument list, and the environment entries to set for it.
pub struct Invocation {
    /// The compiler executable, as configured.
    pub program: String,
    /// The complete ordered argument list.
    pub args: Vec<String>,
    /// Environment entries with distinct keys, conflicting
    /// accumulated pairs resolved last-write-wins.
    pub environment: Vec<(String, String)>,
}

/// The command selecting the linking mode.
pub open spec fn spec_mode_token(m: LinkingMode) -> Seq<char> {
    match m {
        LinkingMode::Static => "static-lib"@,
        LinkingMode::Dynamic => "dynamic-lib"@,
    }
}

/// `-g` when debug information is wanted, `-g0` otherwise.
pub open spec fn spec_debug_flag(debug_info: bool) -> Seq<char> {
    if debug_info {
        "-g"@
    } else {
        "-g0"@
    }
}

/// The optimization flag, `-` followed by the level's spelling.
pub open spec fn spec_opt_flag(level: OptimizationLevel) -> Seq<char> {
    "-"@ + level.spec_str()
}

/// The artifact name handed to the compiler: `lib` followed by the
/// configured base name.
pub open spec fn spec_out_name(name: Seq<char>) -> Seq<char> {
    "lib"@ + name
}

/// Each item of `items` preceded by `flag`, in insertion order.
pub open spec fn spec_flag_pairs(flag: Seq<char>, items: Seq<Seq<char>>) -> Seq<Seq<char>>
    decreases items.len(),
{
    if items.len() == 0 {
        Seq::empty()
    } else {
        spec_flag_pairs(flag, items.drop_last()) + seq![flag, items.last()]
    }
}

/// The fixed head of every invocation: linking-mode command, debug
/// flag, optimization flag, output directory, artifact name, and
/// normalized target.
pub open spec fn spec_header(
    c: ConfigView,
    name: Seq<char>,
    out_dir: Seq<char>,
    c3_target: Seq<char>,
) -> Seq<Seq<char>> {
    seq![
        spec_mode_token(c.linking_mode),
        spec_debug_flag(c.debug_info),
        spec_opt_flag(c.optimization_level),
        "--output-dir"@,
        out_dir,
        "-o"@,
        spec_out_name(name),
        "--target"@,
        c3_target,
    ]
}

/// The complete ordered argument list: the fixed head, then the
/// feature, linker-argument, compiled-library-directory,
/// compiled-library, C3-library-directory and C3-library flag groups,
/// then the source files, then the raw passthrough arguments. Within
/// each group insertion order is kept.
pub open spec fn spec_args(
    c: ConfigView,
    name: Seq<char>,
    out_dir: Seq<char>,
    c3_target: Seq<char>,
) -> Seq<Seq<char>> {
    spec_header(c, name, out_dir, c3_target) + spec_flag_pairs("-D"@, c.features) + spec_flag_pairs(
        "-z"@,
        c.linker_arguments,
    ) + spec_flag_pairs("-L"@, c.compiled_lib_dirs) + spec_flag_pairs("-l"@, c.compiled_libs)
        + spec_flag_pairs("--libdir"@, c.c3_lib_dirs) + spec_flag_pairs("--lib"@, c.c3_libs)
        + c.files + c.args
}

/// Appends `flag` before each item of `items`, in order.
pub(crate) fn push_flag_pairs(args: &mut Vec<String>, flag: &str, items: &Vec<String>)
    ensures
        views_of(final(args)@) == views_of(old(args)@) + spec_flag_pairs(flag@, views_of(items@)),
{
    proof {
        assert(views_of(args@) =~= views_of(args@) + spec_flag_pairs(
            flag@,
            views_of(items@).take(0),
        ));
    }
    let mut i: usize = 0;
    while i < items.len()
        invariant
            0 <= i <= items.len(),
            views_of(args@) == views_of(old(args)@) + spec_flag_pairs(
                flag@,
                views_of(items@).take(i as int),
            ),
        decreases items.len() - i,
    {
        let ghost prev = views_of(args@);
        args.push(flag.to_owned());
        args.push(items[i].clone());
        proof {
            let t = views_of(items@);
            assert(t.take(i as int + 1).drop_last() =~= t.take(i as int));
            assert(views_of(args@) =~= prev + seq![flag@, t[i as int]]);
            assert(views_of(args@) =~= views_of(old(args)@) + spec_flag_pairs(
                flag@,
                t.take(i as int + 1),
            ));
        }
        i += 1;
    }
    proof {
        assert(views_of(items@).take(items@.len() as int) =~= views_of(items@));
    }
}

/// Appends every string of `items` to `args`, in order.
pub(crate) fn push_all(args: &mut Vec<String>, items: &Vec<String>)
    ensures
        views_of(final(args)@) == views_of(old(args)@) + views_of(items@),
{
    let mut i: usize = 0;
    proof {
        assert(views_of(args@) =~= views_of(args@) + views_of(items@).take(0));
    }
    while i < items.len()
        invariant
            0 <= i <= items.len(),
            views_of(args@) == views_of(old(args)@) + views_of(items@).take(i as int),
        decreases items.len() - i,
    {
        let ghost prev = views_of(args@);
        args.push(items[i].clone());
        proof {
            let t = views_of(items@);
            assert(views_of(args@) =~= prev.push(t[i as int]));
            assert(views_of(args@) =~= views_of(old(args)@) + t.take(i as int + 1));
        }
        i += 1;
    }
    proof {
        assert(views_of(items@).take(items@.len() as int) =~= views_of(items@));
    }
}

/// `j` is the index of the last pair of `s` carrying its key.
pub open spec fn last_key_occurrence(s: Seq<(Seq<char>, Seq<char>)>, j: int) -> bool {
    &&& 0 <= j < s.len()
    &&& forall|l: int| j < l < s.len() ==> s[l].0 != s[j].0
}

/// No two pairs of `s` share a key.
pub open spec fn distinct_keys(s: Seq<(Seq<char>, Seq<char>)>) -> bool {
    forall|i: int, j: int| 0 <= i < j < s.len() ==> s[i].0 != s[j].0
}

/// The mapping the accumulated pairs resolve to: a later pair
/// overrides an earlier one with the same key.
pub open spec fn env_map(s: Seq<(Seq<char>, Seq<char>)>) -> Map<Seq<char>, Seq<char>>
    decreases s.len(),
{
    if s.len() == 0 {
        Map::empty()
    } else {
        env_map(s.drop_last()).insert(s.last().0, s.last().1)
    }
}

/// The resolved mapping holds `(k, v)` exactly when the last pair of
/// `s` with key `k` carries the value `v`.
pub proof fn lemma_env_map_pair(s: Seq<(Seq<char>, Seq<char>)>, k: Seq<char>, v: Seq<char>)
    ensures
        env_map(s).contains_pair(k, v) <==> exists|j: int|
            #[trigger] last_key_occurrence(s, j) && s[j] == (k, v),
    decreases s.len(),
{
    if s.len() == 0 {
    } else {
        let pre = s.drop_last();
        let n = s.len() as int;
        lemma_env_map_pair(pre, k, v);
        if s[n - 1].0 == k {
            if s[n - 1].1 == v {
                assert(last_key_occurrence(s, n - 1) && s[n - 1] == (k, v));
            } else {
                assert forall|j: int| !(#[trigger] last_key_occurrence(s, j) && s[j] == (k, v)) by {
                    if last_key_occurrence(s, j) && s[j] == (k, v) {
                        if j < n - 1 {
                            assert(s[n - 1].0 == s[j].0);
                            assert(false);
                        }
                        assert(j == n - 1);
                        assert(false);
                    }
                }
            }
        } else {
            if exists|j: int| #[trigger] last_key_occurrence(pre, j) && pre[j] == (k, v) {
                let j = choose|j: int| #[trigger] last_key_occurrence(pre, j) && pre[j] == (k, v);
                assert(s[j] == pre[j]);
                assert forall|l: int| j < l < s.len() implies s[l].0 != s[j].0 by {
                    if l < n - 1 {
                        assert(s[l] == pre[l]);
                        assert(pre[l].0 != pre[j].0);
                    } else {
                        assert(s[l].0 != k);
                        assert(s[j].0 == k);
                    }
                }
                assert(last_key_occurrence(s, j) && s[j] == (k, v));
            }
            if exists|j: int| #[trigger] last_key_occurrence(s, j) && s[j] == (k, v) {
                let j = choose|j: int| #[trigger] last_key_occurrence(s, j) && s[j] == (k, v);
                assert(j != n - 1);
                assert(pre[j] == s[j]);
                assert forall|l: int| j < l < pre.len() implies pre[l].0 != pre[j].0 by {
                    assert(pre[l] == s[l]);
                    assert(s[l].0 != s[j].0);
                }
                assert(last_key_occurrence(pre, j) && pre[j] == (k, v));
            }
        }
    }
}

/// Tests whether some pair after index `i` carries the same key as
/// the pair at `i`.
fn key_occurs_after(pairs: &Vec<(String, String)>, i: usize) -> (r: bool)
    requires
        i < pairs@.len(),
    ensures
        r == !last_key_occurrence(pair_views(pairs@), i as int),
{
    let n = pairs.len();
    let mut j: usize = i + 1;
    while j < n
        invariant
            n == pairs@.len(),
            i < pairs@.len(),
            i < j <= pairs@.len(),
            forall|l: int| i < l < j ==> pair_views(pairs@)[l].0 != pair_views(pairs@)[i as int].0,
        decreases pairs@.len() - j,
    {
        if pairs[j].0 == pairs[i].0 {
            assert(pair_views(pairs@)[j as int].0 == pair_views(pairs@)[i as int].0);
            return true;
        }
        j += 1;
    }
    false
}

/// Resolves the accumulated environment pairs to entries with
/// distinct keys: for each key, the value of its last accumulated
/// pair survives, exactly as [`env_map`] says.
pub fn resolved_environment(pairs: &Vec<(String, String)>) -> (r: Vec<(String, String)>)
    ensures
        distinct_keys(pair_views(r@)),
        forall|k: Seq<char>, v: Seq<char>|
            env_map(pair_views(pairs@)).contains_pair(k, v) <==> #[trigger] pair_views(
                r@,
            ).contains((k, v)),
{
    let ghost s = pair_views(pairs@);
    let mut r: Vec<(String, String)> = Vec::new();
    let mut i: usize = 0;
    while i < pairs.len()
        invariant
            s == pair_views(pairs@),
            0 <= i <= pairs@.len(),
            distinct_keys(pair_views(r@)),
            forall|k: Seq<char>, v: Seq<char>| #[trigger]
                pair_views(r@).contains((k, v)) <==> (exists|j: int|
                    0 <= j < i && #[trigger] last_key_occurrence(s, j) && s[j] == (k, v)),
        decreases pairs@.len() - i,
    {
        let ghost rv = pair_views(r@);
        if !key_occurs_after(pairs, i) {
            r.push((pairs[i].0.clone(), pairs[i].1.clone()));
            proof {
                assert(last_key_occurrence(s, i as int));
                let rv2 = pair_views(r@);
                assert(rv2 =~= rv.push(s[i as int]));
                assert forall|m1: int, m2: int| 0 <= m1 < m2 < rv2.len() implies rv2[m1].0
                    != rv2[m2].0 by {
                    if m2 == rv.len() {
                        let p = rv[m1];
                        assert(rv.contains((p.0, p.1)));
                        let j = choose|j: int|
                            0 <= j < i && #[trigger] last_key_occurrence(s, j) && s[j] == (
                            p.0,
                            p.1,
                            );
                        if p.0 == s[i as int].0 {
                            assert(s[i as int].0 == s[j].0);
                            assert(false);
                        }
                    }
                }
                assert forall|k: Seq<char>, v: Seq<char>| #[trigger]
                    rv2.contains((k, v)) <==> (exists|j: int|
                        0 <= j < i + 1 && #[trigger] last_key_occurrence(s, j) && s[j] == (
                        k,
                        v,
                        )) by {
                    if rv2.contains((k, v)) {
                        let idx = choose|idx: int| 0 <= idx < rv2.len() && rv2[idx] == (k, v);
                        if idx < rv.len() {
                            assert(rv[idx] == (k, v));
                            assert(rv.contains((k, v)));
                        } else {
                            assert(s[i as int] == (k, v));
                            assert(last_key_occurrence(s, i as int) && s[i as int] == (k, v));
                        }
                    }
                    if exists|j: int|
                        0 <= j < i + 1 && #[trigger] last_key_occurrence(s, j) && s[j] == (k, v) {
                        let j = choose|j: int|
                            0 <= j < i + 1 && #[trigger] last_key_occurrence(s, j) && s[j] == (
                            k,
                            v,
                            );
                        if j < i {
                            assert(rv.contains((k, v)));
                            let idx = choose|idx: int| 0 <= idx < rv.len() && rv[idx] == (k, v);
                            assert(rv2[idx] == (k, v));
                        } else {
                            assert(rv2[rv.len() as int] == (k, v));
                        }
                        assert(rv2.contains((k, v)));
                    }
                }
            }
        } else {
            proof {
                assert(!last_key_occurrence(s, i as int));
                assert forall|k: Seq<char>, v: Seq<char>| #[trigger]
                    pair_views(r@).contains((k, v)) <==> (exists|j: int|
                        0 <= j < i + 1 && #[trigger] last_key_occurrence(s, j) && s[j] == (
                        k,
                        v,
                        )) by {
                    if pair_views(r@).contains((k, v)) {
                        let j = choose|j: int|
                            0 <= j < i && #[trigger] last_key_occurrence(s, j) && s[j] == (k, v);
                        assert(0 <= j < i + 1 && last_key_occurrence(s, j) && s[j] == (k, v));
                    }
                    if exists|j: int|
                        0 <= j < i + 1 && #[trigger] last_key_occurrence(s, j) && s[j] == (k, v) {
                        let j = choose|j: int|
                            0 <= j < i + 1 && #[trigger] last_key_occurrence(s, j) && s[j] == (
                            k,
                            v,
                            );
                        assert(j != i);
                        assert(0 <= j < i && last_key_occurrence(s, j) && s[j] == (k, v));
                    }
                }
            }
        }
        i += 1;
    }
    proof {
        assert forall|k: Seq<char>, v: Seq<char>|
            env_map(pair_views(pairs@)).contains_pair(k, v) <==> #[trigger] pair_views(
                r@,
            ).contains((k, v)) by {
            lemma_env_map_pair(s, k, v);
            if env_map(s).contains_pair(k, v) {
                let j = choose|j: int| #[trigger] last_key_occurrence(s, j) && s[j] == (k, v);
                assert(0 <= j < i && last_key_occurrence(s, j) && s[j] == (k, v));
            }
            if pair_views(r@).contains((k, v)) {
                let j = choose|j: int|
                    0 <= j < i && #[trigger] last_key_occurrence(s, j) && s[j] == (k, v);
                assert(last_key_occurrence(s, j) && s[j] == (k, v));
            }
        }
    }
    r
}

/// The directive registering a source file as a rebuild trigger for
/// the host build system.
pub open spec fn spec_rerun_directive(f: Seq<char>) -> Seq<char> {
    "cargo::rerun-if-changed="@ + f
}

/// The directive telling the host build system where to search for
/// the produced artifact.
pub open spec fn spec_search_directive(out_dir: Seq<char>) -> Seq<char> {
    "cargo:rustc-link-search=native="@ + out_dir
}

/// The directive telling the host build system the artifact's link
/// name.
pub open spec fn spec_lib_directive(name: Seq<char>) -> Seq<char> {
    "cargo:rustc-link-lib=static="@ + name
}

/// Turns the observed outcome of the compiler subprocess into what
/// the host build system must be told: on success exactly the two
/// linkage directives, search path first; on any failure no
/// directives at all, only the error.
pub fn report_outcome(outcome: RunOutcome, out_dir: &str, name: &str) -> (r: Result<
    Vec<String>,
    BuildError,
>)
    ensures
        outcome == RunOutcome::Success ==> (r matches Ok(d) && views_of(d@) == seq![
            spec_search_directive(out_dir@),
            spec_lib_directive(name@),
        ]),
        outcome == RunOutcome::NonZeroExit ==> (r matches Err(e) && e
            == BuildError::CompilerFailure),
        outcome == RunOutcome::SpawnFailure ==> (r matches Err(e) && e == BuildError::SpawnFailure),
{
    match outcome {
        RunOutcome::Success => {
            let mut directives: Vec<String> = Vec::new();
            directives.push("cargo:rustc-link-search=native=".to_owned().concat(out_dir));
            directives.push("cargo:rustc-link-lib=static=".to_owned().concat(name));
            proof {
                assert(views_of(directives@) =~= seq![
                    spec_search_directive(out_dir@),
                    spec_lib_directive(name@),
                ]);
            }
            Ok(directives)
        },
        RunOutcome::NonZeroExit => Err(BuildError::CompilerFailure),
        RunOutcome::SpawnFailure => Err(BuildError::SpawnFailure),
    }
}

} // verus!
