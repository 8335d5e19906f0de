//! The configuration builder: scalar settings plus ordered,
//! deduplicated collections, accumulated through chained calls and
//! consumed once by the translation step.

use vstd::prelude::*;
use vstd::string::StringExecFns;

use crate::invocation::BuildError;
use crate::invocation::Invocation;
use crate::invocation::distinct_keys;
use crate::invocation::env_map;
use crate::invocation::push_all;
use crate::invocation::push_flag_pairs;
use crate::invocation::resolved_environment;
use crate::invocation::spec_args;
use crate::invocation::spec_header;
use crate::invocation::spec_flag_pairs;
use crate::invocation::spec_rerun_directive;
use crate::target::normalize_target;
use crate::target::spec_normalize_target;
use crate::text::contains_string;
use crate::text::contains_string_pair;
use crate::text::pair_views;
use crate::text::push_unique;
use crate::text::push_unique_all;
use crate::text::views_of;

verus! {

/// Whether the produced library is statically or dynamically linked.
#[derive(Clone, Copy, PartialEq, Eq, Structural, Debug)]
pub enum LinkingMode {
    /// Selects the compiler's `static-lib` command.
    Static,
    /// Selects the compiler's `dynamic-lib` command.
    Dynamic,
}

/// The compiler's optimization tiers, from safest and least optimized
/// to least safe and most optimized, with `Os`/`Oz` trading speed for
/// code size.
#[derive(Clone, Copy, PartialEq, Eq, Structural, Debug)]
pub enum OptimizationLevel {
    /// Safe, no optimizations; the compiler's `-O0`.
    O0,
    /// Safe, high optimization; the compiler's `-O1`.
    O1,
    /// Unsafe, high optimization; the compiler's `-O2`.
    O2,
    /// Unsafe, high optimization, single module; the compiler's `-O3`.
    O3,
    /// Unsafe, highest optimization, relaxed maths; the compiler's `-O4`.
    O4,
    /// Unsafe, highest optimization, fast maths; the compiler's `-O5`.
    O5,
    /// Unsafe, small code; the compiler's `-Os`.
    Os,
    /// Unsafe, tiny code; the compiler's `-Oz`.
    Oz,
}

impl OptimizationLevel {
    /// The spelling of this level inside the compiler's `-O` style flag.
    pub open spec fn spec_str(self) -> Seq<char> {
        match self {
            OptimizationLevel::O0 => "O0"@,
            OptimizationLevel::O1 => "O1"@,
            OptimizationLevel::O2 => "O2"@,
            OptimizationLevel::O3 => "O3"@,
            OptimizationLevel::O4 => "O4"@,
            OptimizationLevel::O5 => "O5"@,
            OptimizationLevel::Os => "Os"@,
            OptimizationLevel::Oz => "Oz"@,
        }
    }

    /// Renders this level as the text that follows `-` in the flag.
    pub fn to_str(&self) -> (s: &str)
        ensures
            s@ == self.spec_str(),
    {
        match self {
            OptimizationLevel::O0 => "O0",
            OptimizationLevel::O1 => "O1",
            OptimizationLevel::O2 => "O2",
            OptimizationLevel::O3 => "O3",
            OptimizationLevel::O4 => "O4",
            OptimizationLevel::O5 => "O5",
            OptimizationLevel::Os => "Os",
            OptimizationLevel::Oz => "Oz",
        }
    }
}

/// The mathematical model of a [`C3FFI`] configuration: every string
/// as its character sequence, every collection as a sequence in
/// insertion order.
#[verifier::ext_equal]
pub ghost struct ConfigView {
    pub compiler: Seq<char>,
    pub linking_mode: LinkingMode,
    pub optimization_level: OptimizationLevel,
    pub debug_info: bool,
    pub files: Seq<Seq<char>>,
    pub features: Seq<Seq<char>>,
    pub args: Seq<Seq<char>>,
    pub environment_variables: Seq<(Seq<char>, Seq<char>)>,
    pub linker_arguments: Seq<Seq<char>>,
    pub compiled_lib_dirs: Seq<Seq<char>>,
    pub compiled_libs: Seq<Seq<char>>,
    pub c3_lib_dirs: Seq<Seq<char>>,
    pub c3_libs: Seq<Seq<char>>,
}

impl ConfigView {
    /// The configuration a fresh builder starts from: the compiler
    /// resolved from the search path, a static library, no
    /// optimization, debug information on, and every collection empty.
    pub open spec fn initial() -> ConfigView {
        ConfigView {
            compiler: "c3c"@,
            linking_mode: LinkingMode::Static,
            optimization_level: OptimizationLevel::O0,
            debug_info: true,
            files: Seq::empty(),
            features: Seq::empty(),
            args: Seq::empty(),
            environment_variables: Seq::empty(),
            linker_arguments: Seq::empty(),
            compiled_lib_dirs: Seq::empty(),
            compiled_libs: Seq::empty(),
            c3_lib_dirs: Seq::empty(),
            c3_libs: Seq::empty(),
        }
    }

    /// Every collection is free of duplicates; [`C3FFI::new`]
    /// establishes this and every accumulator preserves it.
    pub open spec fn wf(self) -> bool {
        &&& self.files.no_duplicates()
        &&& self.features.no_duplicates()
        &&& self.args.no_duplicates()
        &&& self.environment_variables.no_duplicates()
        &&& self.linker_arguments.no_duplicates()
        &&& self.compiled_lib_dirs.no_duplicates()
        &&& self.compiled_libs.no_duplicates()
        &&& self.c3_lib_dirs.no_duplicates()
        &&& self.c3_libs.no_duplicates()
    }
}

/// Appends `x` to `v` unless an equal string is already there.
fn add_unique(v: &mut Vec<String>, x: &str)
    ensures
        views_of(final(v)@) == push_unique(views_of(old(v)@), x@),
{
    if !contains_string(v, x) {
        v.push(x.to_owned());
        proof {
            assert(views_of(v@) =~= views_of(old(v)@).push(x@));
        }
    }
}

/// Appends every string of `items` to `v` in order, skipping those
/// already present.
fn add_all_unique(v: &mut Vec<String>, items: &Vec<String>)
    ensures
        views_of(final(v)@) == push_unique_all(views_of(old(v)@), views_of(items@)),
{
    let mut i: usize = 0;
    while i < items.len()
        invariant
            0 <= i <= items.len(),
            views_of(v@) == push_unique_all(views_of(old(v)@), views_of(items@).take(i as int)),
        decreases items.len() - i,
    {
        add_unique(v, items[i].as_str());
        proof {
            let t = views_of(items@);
            assert(t.take(i as int + 1).drop_last() =~= t.take(i as int));
            assert(t.take(i as int + 1).last() == t[i as int]);
        }
        i += 1;
    }
    proof {
        assert(views_of(items@).take(items@.len() as int) =~= views_of(items@));
    }
}

/// Appends the pair `(k, val)` to `v` unless an equal pair is already
/// there.
fn add_unique_pair(v: &mut Vec<(String, String)>, k: &str, val: &str)
    ensures
        pair_views(final(v)@) == push_unique(pair_views(old(v)@), (k@, val@)),
{
    if !contains_string_pair(v, k, val) {
        v.push((k.to_owned(), val.to_owned()));
        proof {
            assert(pair_views(v@) =~= pair_views(old(v)@).push((k@, val@)));
        }
    }
}

/// Appends every pair of `items` to `v` in order, skipping those
/// already present.
fn add_all_unique_pairs(v: &mut Vec<(String, String)>, items: &Vec<(String, String)>)
    ensures
        pair_views(final(v)@) == push_unique_all(pair_views(old(v)@), pair_views(items@)),
{
    let mut i: usize = 0;
    while i < items.len()
        invariant
            0 <= i <= items.len(),
            pair_views(v@) == push_unique_all(pair_views(old(v)@), pair_views(items@).take(i as int)),
        decreases items.len() - i,
    {
        add_unique_pair(v, items[i].0.as_str(), items[i].1.as_str());
        proof {
            let t = pair_views(items@);
            assert(t.take(i as int + 1).drop_last() =~= t.take(i as int));
            assert(t.take(i as int + 1).last() == t[i as int]);
        }
        i += 1;
    }
    proof {
        assert(pair_views(items@).take(items@.len() as int) =~= pair_views(items@));
    }
}

/// Builder for a C3 foreign-function interface: collects the files and
/// settings a compilation needs, then translates them into one
/// compiler invocation.
pub struct C3FFI {
    compiler: String,
    linking_mode: LinkingMode,
    optimization_level: OptimizationLevel,
    debug_info: bool,
    files: Vec<String>,
    features: Vec<String>,
    args: Vec<String>,
    environment_variables: Vec<(String, String)>,
    linker_arguments: Vec<String>,
    compiled_lib_dirs: Vec<String>,
    compiled_libs: Vec<String>,
    c3_lib_dirs: Vec<String>,
    c3_libs: Vec<String>,
}

/// Alternative name for [`C3FFI`], for users looking for a more
/// standard naming approach.
pub type Build = C3FFI;

impl View for C3FFI {
    type V = ConfigView;

    closed spec fn view(&self) -> ConfigView {
        ConfigView {
            compiler: self.compiler@,
            linking_mode: self.linking_mode,
            optimization_level: self.optimization_level,
            debug_info: self.debug_info,
            files: views_of(self.files@),
            features: views_of(self.features@),
            args: views_of(self.args@),
            environment_variables: self.environment_variables@.map_values(
                |p: (String, String)| (p.0@, p.1@),
            ),
            linker_arguments: views_of(self.linker_arguments@),
            compiled_lib_dirs: views_of(self.compiled_lib_dirs@),
            compiled_libs: views_of(self.compiled_libs@),
            c3_lib_dirs: views_of(self.c3_lib_dirs@),
            c3_libs: views_of(self.c3_libs@),
        }
    }
}

impl C3FFI {
    /// Initializes the builder with the default values.
    pub fn new() -> (c: Self)
        ensures
            c@ == ConfigView::initial(),
    {
        let c = Self {
            compiler: "c3c".to_owned(),
            linking_mode: LinkingMode::Static,
            optimization_level: OptimizationLevel::O0,
            debug_info: true,
            files: Vec::new(),
            features: Vec::new(),
            args: Vec::new(),
            environment_variables: Vec::new(),
            linker_arguments: Vec::new(),
            compiled_lib_dirs: Vec::new(),
            compiled_libs: Vec::new(),
            c3_lib_dirs: Vec::new(),
            c3_libs: Vec::new(),
        };
        proof {
            assert(c@ =~= ConfigView::initial());
        }
        c
    }

    /// The path to the compiler, falling back to the search path if no
    /// explicit path is provided. Default: `c3c`.
    pub fn compiler(&mut self, compiler: &str)
        ensures
            final(self)@ == (ConfigView { compiler: compiler@, ..old(self)@ }),
    {
        self.compiler = compiler.to_owned();
        proof {
            assert(self@ =~= (ConfigView { compiler: compiler@, ..old(self)@ }));
        }
    }

    /// Whether the library is dynamically or statically linked.
    /// Default: [`LinkingMode::Static`].
    pub fn linking_mode(&mut self, linking_mode: LinkingMode)
        ensures
            final(self)@ == (ConfigView { linking_mode: linking_mode, ..old(self)@ }),
    {
        self.linking_mode = linking_mode;
        proof {
            assert(self@ =~= (ConfigView { linking_mode: linking_mode, ..old(self)@ }));
        }
    }

    /// The library's optimization level.
    /// Default: [`OptimizationLevel::O0`].
    pub fn optimization_level(&mut self, optimization_level: OptimizationLevel)
        ensures
            final(self)@ == (ConfigView {
                optimization_level: optimization_level,
                ..old(self)@
            }),
    {
        self.optimization_level = optimization_level;
        proof {
            assert(self@ =~= (ConfigView {
                optimization_level: optimization_level,
                ..old(self)@
            }));
        }
    }

    /// Whether debug information should be included (the compiler's
    /// `-g`) or not (`-g0`). Default: `true`.
    pub fn debug_info(&mut self, debug_info: bool)
        ensures
            final(self)@ == (ConfigView { debug_info: debug_info, ..old(self)@ }),
    {
        self.debug_info = debug_info;
        proof {
            assert(self@ =~= (ConfigView { debug_info: debug_info, ..old(self)@ }));
        }
    }

    /// Marks a file as target for compilation: one path token on the
    /// compiler's command line.
    pub fn file(&mut self, file: &str)
        ensures
            final(self)@ == (ConfigView {
                files: push_unique(old(self)@.files, file@),
                ..old(self)@
            }),
    {
        add_unique(&mut self.files, file);
        proof {
            assert(self@ =~= (ConfigView {
                files: push_unique(old(self)@.files, file@),
                ..old(self)@
            }));
        }
    }

    /// Marks one or more files for compilation.
    pub fn files(&mut self, files: Vec<String>)
        ensures
            final(self)@ == (ConfigView {
                files: push_unique_all(old(self)@.files, views_of(files@)),
                ..old(self)@
            }),
    {
        add_all_unique(&mut self.files, &files);
        proof {
            assert(self@ =~= (ConfigView {
                files: push_unique_all(old(self)@.files, views_of(files@)),
                ..old(self)@
            }));
        }
    }

    /// Turns on a feature for the provided source files: the
    /// compiler's `-D <feature>`.
    pub fn feature(&mut self, feature: &str)
        ensures
            final(self)@ == (ConfigView {
                features: push_unique(old(self)@.features, feature@),
                ..old(self)@
            }),
    {
        add_unique(&mut self.features, feature);
        proof {
            assert(self@ =~= (ConfigView {
                features: push_unique(old(self)@.features, feature@),
                ..old(self)@
            }));
        }
    }

    /// Turns on one or more features for the provided source files.
    pub fn features(&mut self, features: Vec<String>)
        ensures
            final(self)@ == (ConfigView {
                features: push_unique_all(old(self)@.features, views_of(features@)),
                ..old(self)@
            }),
    {
        add_all_unique(&mut self.features, &features);
        proof {
            assert(self@ =~= (ConfigView {
                features: push_unique_all(old(self)@.features, views_of(features@)),
                ..old(self)@
            }));
        }
    }

    /// Adds a custom argument to be passed to the compiler, after
    /// everything else on the command line.
    pub fn arg(&mut self, arg: &str)
        ensures
            final(self)@ == (ConfigView { args: push_unique(old(self)@.args, arg@), ..old(self)@ }),
    {
        add_unique(&mut self.args, arg);
        proof {
            assert(self@ =~= (ConfigView {
                args: push_unique(old(self)@.args, arg@),
                ..old(self)@
            }));
        }
    }

    /// Adds one or more custom arguments to be passed to the compiler.
    pub fn args(&mut self, args: Vec<String>)
        ensures
            final(self)@ == (ConfigView {
                args: push_unique_all(old(self)@.args, views_of(args@)),
                ..old(self)@
            }),
    {
        add_all_unique(&mut self.args, &args);
        proof {
            assert(self@ =~= (ConfigView {
                args: push_unique_all(old(self)@.args, views_of(args@)),
                ..old(self)@
            }));
        }
    }

    /// Marks an argument to be passed to the linker: the compiler's
    /// `-z <arg>`.
    pub fn linker_argument(&mut self, linker_argument: &str)
        ensures
            final(self)@ == (ConfigView {
                linker_arguments: push_unique(old(self)@.linker_arguments, linker_argument@),
                ..old(self)@
            }),
    {
        add_unique(&mut self.linker_arguments, linker_argument);
        proof {
            assert(self@ =~= (ConfigView {
                linker_arguments: push_unique(old(self)@.linker_arguments, linker_argument@),
                ..old(self)@
            }));
        }
    }

    /// Marks one or more arguments to be passed to the linker.
    pub fn linker_arguments(&mut self, linker_arguments: Vec<String>)
        ensures
            final(self)@ == (ConfigView {
                linker_arguments: push_unique_all(
                    old(self)@.linker_arguments,
                    views_of(linker_arguments@),
                ),
                ..old(self)@
            }),
    {
        add_all_unique(&mut self.linker_arguments, &linker_arguments);
        proof {
            assert(self@ =~= (ConfigView {
                linker_arguments: push_unique_all(
                    old(self)@.linker_arguments,
                    views_of(linker_arguments@),
                ),
                ..old(self)@
            }));
        }
    }

    /// Sets an environment variable for the compiler's process.
    pub fn environment_variable(&mut self, environment_variable: (&str, &str))
        ensures
            final(self)@ == (ConfigView {
                environment_variables: push_unique(
                    old(self)@.environment_variables,
                    (environment_variable.0@, environment_variable.1@),
                ),
                ..old(self)@
            }),
    {
        add_unique_pair(
            &mut self.environment_variables,
            environment_variable.0,
            environment_variable.1,
        );
        proof {
            assert(self@ =~= (ConfigView {
                environment_variables: push_unique(
                    old(self)@.environment_variables,
                    (environment_variable.0@, environment_variable.1@),
                ),
                ..old(self)@
            }));
        }
    }

    /// Sets one or more environment variables for the compiler's
    /// process.
    pub fn environment_variables(&mut self, environment_variables: Vec<(String, String)>)
        ensures
            final(self)@ == (ConfigView {
                environment_variables: push_unique_all(
                    old(self)@.environment_variables,
                    pair_views(environment_variables@),
                ),
                ..old(self)@
            }),
    {
        add_all_unique_pairs(&mut self.environment_variables, &environment_variables);
        proof {
            assert(self@ =~= (ConfigView {
                environment_variables: push_unique_all(
                    old(self)@.environment_variables,
                    pair_views(environment_variables@),
                ),
                ..old(self)@
            }));
        }
    }

    /// Marks a directory as containing compiled libraries: the
    /// compiler's `-L <dir>`.
    pub fn compiled_lib_dir(&mut self, compiled_lib_dir: &str)
        ensures
            final(self)@ == (ConfigView {
                compiled_lib_dirs: push_unique(old(self)@.compiled_lib_dirs, compiled_lib_dir@),
                ..old(self)@
            }),
    {
        add_unique(&mut self.compiled_lib_dirs, compiled_lib_dir);
        proof {
            assert(self@ =~= (ConfigView {
                compiled_lib_dirs: push_unique(old(self)@.compiled_lib_dirs, compiled_lib_dir@),
                ..old(self)@
            }));
        }
    }

    /// Marks one or more directories as containing compiled libraries.
    pub fn compiled_lib_dirs(&mut self, compiled_lib_dirs: Vec<String>)
        ensures
            final(self)@ == (ConfigView {
                compiled_lib_dirs: push_unique_all(
                    old(self)@.compiled_lib_dirs,
                    views_of(compiled_lib_dirs@),
                ),
                ..old(self)@
            }),
    {
        add_all_unique(&mut self.compiled_lib_dirs, &compiled_lib_dirs);
        proof {
            assert(self@ =~= (ConfigView {
                compiled_lib_dirs: push_unique_all(
                    old(self)@.compiled_lib_dirs,
                    views_of(compiled_lib_dirs@),
                ),
                ..old(self)@
            }));
        }
    }

    /// Marks a file as a compiled library: the compiler's `-l <lib>`.
    pub fn compiled_lib(&mut self, compiled_lib: &str)
        ensures
            final(self)@ == (ConfigView {
                compiled_libs: push_unique(old(self)@.compiled_libs, compiled_lib@),
                ..old(self)@
            }),
    {
        add_unique(&mut self.compiled_libs, compiled_lib);
        proof {
            assert(self@ =~= (ConfigView {
                compiled_libs: push_unique(old(self)@.compiled_libs, compiled_lib@),
                ..old(self)@
            }));
        }
    }

    /// Marks one or more files as compiled libraries.
    pub fn compiled_libs(&mut self, compiled_libs: Vec<String>)
        ensures
            final(self)@ == (ConfigView {
                compiled_libs: push_unique_all(
                    old(self)@.compiled_libs,
                    views_of(compiled_libs@),
                ),
                ..old(self)@
            }),
    {
        add_all_unique(&mut self.compiled_libs, &compiled_libs);
        proof {
            assert(self@ =~= (ConfigView {
                compiled_libs: push_unique_all(
                    old(self)@.compiled_libs,
                    views_of(compiled_libs@),
                ),
                ..old(self)@
            }));
        }
    }

    /// Marks a directory as containing C3 libraries: the compiler's
    /// `--libdir <dir>`.
    pub fn c3_lib_dir(&mut self, c3_lib_dir: &str)
        ensures
            final(self)@ == (ConfigView {
                c3_lib_dirs: push_unique(old(self)@.c3_lib_dirs, c3_lib_dir@),
                ..old(self)@
            }),
    {
        add_unique(&mut self.c3_lib_dirs, c3_lib_dir);
        proof {
            assert(self@ =~= (ConfigView {
                c3_lib_dirs: push_unique(old(self)@.c3_lib_dirs, c3_lib_dir@),
                ..old(self)@
            }));
        }
    }

    /// Marks one or more directories as containing C3 libraries.
    pub fn c3_lib_dirs(&mut self, c3_lib_dirs: Vec<String>)
        ensures
            final(self)@ == (ConfigView {
                c3_lib_dirs: push_unique_all(old(self)@.c3_lib_dirs, views_of(c3_lib_dirs@)),
                ..old(self)@
            }),
    {
        add_all_unique(&mut self.c3_lib_dirs, &c3_lib_dirs);
        proof {
            assert(self@ =~= (ConfigView {
                c3_lib_dirs: push_unique_all(old(self)@.c3_lib_dirs, views_of(c3_lib_dirs@)),
                ..old(self)@
            }));
        }
    }

    /// Marks a file as a C3 library: the compiler's `--lib <lib>`.
    pub fn c3_lib(&mut self, c3_lib: &str)
        ensures
            final(self)@ == (ConfigView {
                c3_libs: push_unique(old(self)@.c3_libs, c3_lib@),
                ..old(self)@
            }),
    {
        add_unique(&mut self.c3_libs, c3_lib);
        proof {
            assert(self@ =~= (ConfigView {
                c3_libs: push_unique(old(self)@.c3_libs, c3_lib@),
                ..old(self)@
            }));
        }
    }

    /// Translates the accumulated configuration into one full
    /// compiler invocation for the artifact base name `name`, writing
    /// into `out_dir` for the platform triple `target`: the exact
    /// ordered argument list, and the environment resolved to
    /// distinct keys with the last accumulated value for each. Fails
    /// exactly when `target` has fewer than three `-`-separated
    /// fields. Running the invocation is the caller's side effect;
    /// everything decided here is decided exactly.
    pub fn compile(&self, name: &str, out_dir: &str, target: &str) -> (r: Result<
        Invocation,
        BuildError,
    >)
        ensures
            spec_normalize_target(target@) is None ==> (r matches Err(e) && e
                == BuildError::MalformedTarget),
            spec_normalize_target(target@) matches Some(t) ==> (r matches Ok(inv) && {
                &&& inv.program@ == self@.compiler
                &&& views_of(inv.args@) == spec_args(self@, name@, out_dir@, t)
                &&& distinct_keys(pair_views(inv.environment@))
                &&& forall|k: Seq<char>, v: Seq<char>|
                    env_map(self@.environment_variables).contains_pair(k, v)
                        <==> #[trigger] pair_views(inv.environment@).contains((k, v))
            }),
    {
        let c3_target = match normalize_target(target) {
            None => {
                return Err(BuildError::MalformedTarget);
            },
            Some(t) => t,
        };
        let ghost t = c3_target@;
        let ghost h = spec_header(self@, name@, out_dir@, t);
        let mut args: Vec<String> = Vec::new();
        args.push(
            match self.linking_mode {
                LinkingMode::Static => "static-lib".to_owned(),
                LinkingMode::Dynamic => "dynamic-lib".to_owned(),
            },
        );
        args.push(
            if self.debug_info {
                "-g".to_owned()
            } else {
                "-g0".to_owned()
            },
        );
        args.push("-".to_owned().concat(self.optimization_level.to_str()));
        args.push("--output-dir".to_owned());
        args.push(out_dir.to_owned());
        args.push("-o".to_owned());
        args.push("lib".to_owned().concat(name));
        args.push("--target".to_owned());
        args.push(c3_target);
        proof {
            assert(views_of(args@) =~= h);
        }
        push_flag_pairs(&mut args, "-D", &self.features);
        proof {
            assert(views_of(args@) =~= h + spec_flag_pairs("-D"@, self@.features));
        }
        push_flag_pairs(&mut args, "-z", &self.linker_arguments);
        proof {
            assert(views_of(args@) =~= h + spec_flag_pairs("-D"@, self@.features)
                + spec_flag_pairs("-z"@, self@.linker_arguments));
        }
        push_flag_pairs(&mut args, "-L", &self.compiled_lib_dirs);
        proof {
            assert(views_of(args@) =~= h + spec_flag_pairs("-D"@, self@.features)
                + spec_flag_pairs("-z"@, self@.linker_arguments) + spec_flag_pairs(
                "-L"@,
                self@.compiled_lib_dirs,
            ));
        }
        push_flag_pairs(&mut args, "-l", &self.compiled_libs);
        proof {
            assert(views_of(args@) =~= h + spec_flag_pairs("-D"@, self@.features)
                + spec_flag_pairs("-z"@, self@.linker_arguments) + spec_flag_pairs(
                "-L"@,
                self@.compiled_lib_dirs,
            ) + spec_flag_pairs("-l"@, self@.compiled_libs));
        }
        push_flag_pairs(&mut args, "--libdir", &self.c3_lib_dirs);
        proof {
            assert(views_of(args@) =~= h + spec_flag_pairs("-D"@, self@.features)
                + spec_flag_pairs("-z"@, self@.linker_arguments) + spec_flag_pairs(
                "-L"@,
                self@.compiled_lib_dirs,
            ) + spec_flag_pairs("-l"@, self@.compiled_libs) + spec_flag_pairs(
                "--libdir"@,
                self@.c3_lib_dirs,
            ));
        }
        push_flag_pairs(&mut args, "--lib", &self.c3_libs);
        proof {
            assert(views_of(args@) =~= h + spec_flag_pairs("-D"@, self@.features)
                + spec_flag_pairs("-z"@, self@.linker_arguments) + spec_flag_pairs(
                "-L"@,
                self@.compiled_lib_dirs,
            ) + spec_flag_pairs("-l"@, self@.compiled_libs) + spec_flag_pairs(
                "--libdir"@,
                self@.c3_lib_dirs,
            ) + spec_flag_pairs("--lib"@, self@.c3_libs));
        }
        push_all(&mut args, &self.files);
        push_all(&mut args, &self.args);
        proof {
            assert(views_of(args@) =~= spec_args(self@, name@, out_dir@, t));
        }
        let environment = resolved_environment(&self.environment_variables);
        Ok(Invocation { program: self.compiler.clone(), args, environment })
    }

    /// The rebuild-trigger directives for the accumulated source
    /// files, one per file in insertion order.
    pub fn rerun_directives(&self) -> (r: Vec<String>)
        ensures
            views_of(r@) == self@.files.map_values(|f: Seq<char>| spec_rerun_directive(f)),
    {
        let mut r: Vec<String> = Vec::new();
        let mut i: usize = 0;
        while i < self.files.len()
            invariant
                0 <= i <= self.files@.len(),
                views_of(r@) == self@.files.take(i as int).map_values(
                    |f: Seq<char>| spec_rerun_directive(f),
                ),
            decreases self.files@.len() - i,
        {
            let ghost prev = views_of(r@);
            r.push("cargo::rerun-if-changed=".to_owned().concat(self.files[i].as_str()));
            proof {
                assert(views_of(r@) =~= prev.push(spec_rerun_directive(self@.files[i as int])));
                assert(views_of(r@) =~= self@.files.take(i as int + 1).map_values(
                    |f: Seq<char>| spec_rerun_directive(f),
                ));
            }
            i += 1;
        }
        proof {
            assert(self@.files.take(self@.files.len() as int) =~= self@.files);
        }
        r
    }

    /// Marks one or more files as C3 libraries.
    pub fn c3_libs(&mut self, c3_libs: Vec<String>)
        ensures
            final(self)@ == (ConfigView {
                c3_libs: push_unique_all(old(self)@.c3_libs, views_of(c3_libs@)),
                ..old(self)@
            }),
    {
        add_all_unique(&mut self.c3_libs, &c3_libs);
        proof {
            assert(self@ =~= (ConfigView {
                c3_libs: push_unique_all(old(self)@.c3_libs, views_of(c3_libs@)),
                ..old(self)@
            }));
        }
    }
}

} // verus!
