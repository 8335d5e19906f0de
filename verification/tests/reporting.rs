//! What the host build system is told after the compiler has run.

use c3ne::BuildError;
use c3ne::RunOutcome;
use c3ne::report_outcome;

#[test]
fn success_emits_exactly_two_directives() {
    let directives = report_outcome(RunOutcome::Success, "outdir", "thing").unwrap();
    assert_eq!(
        directives,
        vec![
            "cargo:rustc-link-search=native=outdir".to_string(),
            "cargo:rustc-link-lib=static=thing".to_string(),
        ]
    );
}

#[test]
fn nonzero_exit_emits_nothing_and_reports_failure() {
    let result = report_outcome(RunOutcome::NonZeroExit, "outdir", "thing");
    assert_eq!(result, Err(BuildError::CompilerFailure));
}

#[test]
fn spawn_failure_emits_nothing_and_reports_failure() {
    let result = report_outcome(RunOutcome::SpawnFailure, "outdir", "thing");
    assert_eq!(result, Err(BuildError::SpawnFailure));
}

#[test]
fn every_failure_has_a_message() {
    for error in [
        BuildError::MalformedTarget,
        BuildError::CompilerFailure,
        BuildError::SpawnFailure,
    ] {
        assert!(!error.message().is_empty());
    }
}
