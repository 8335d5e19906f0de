//! Build-time helper that assembles an invocation of the C3 compiler
//! (`c3c`) and the linkage directives a host build system needs to
//! pick up the produced library.
//!
//! The crate is split into:
//! - [`config`]: the mutable configuration builder with its
//!   accumulation semantics — ordered, deduplicated collections plus
//!   scalar settings — and the translation of an accumulated
//!   configuration into one full compiler invocation;
//! - [`target`]: normalization of a platform target triple into the
//!   compiler's own `<os>-<arch>` naming scheme;
//! - [`invocation`]: the shape of a translated invocation — the exact
//!   ordered argument list, the environment resolved last-write-wins
//!   to distinct keys — and the directives reported once the compiler
//!   has run;
//! - [`text`]: the string-sequence vocabulary the contracts speak in;
//! - [`laws`]: proofs of the global properties the crate promises,
//!   among them idempotent accumulation and the fixed ordering of the
//!   rendered flag groups.
//!
//! Starting the compiler is a side effect left to a thin unverified
//! shell; everything that decides *what* to run is decided here, and
//! decided exactly.

pub mod config;
pub mod invocation;
pub mod laws;
pub mod target;
pub mod text;

pub use config::Build;
pub use config::C3FFI;
pub use config::ConfigView;
pub use config::LinkingMode;
pub use config::OptimizationLevel;
pub use invocation::BuildError;
pub use invocation::Invocation;
pub use invocation::RunOutcome;
pub use invocation::report_outcome;
pub use target::normalize_target;
pub use target::split_dashes;
pub use text::eq_ignore_ascii_case;
