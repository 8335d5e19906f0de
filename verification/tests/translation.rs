//! Target normalization and the rendered argument list.

use c3ne::BuildError;
use c3ne::C3FFI;
use c3ne::LinkingMode;
use c3ne::OptimizationLevel;
use c3ne::eq_ignore_ascii_case;
use c3ne::normalize_target;
use c3ne::split_dashes;

#[test]
fn linux_triple_normalizes_to_linux_x64() {
    assert_eq!(normalize_target("x86_64-unknown-linux-gnu"), Some("linux-x64".to_string()));
}

#[test]
fn windows_gnu_triple_normalizes_to_mingw_x64() {
    assert_eq!(normalize_target("x86_64-pc-windows-gnu"), Some("mingw-x64".to_string()));
}

#[test]
fn three_field_triple_takes_second_field_as_os() {
    // The split-length heuristic reads a three-field identifier as
    // `<arch>-<os>-<toolchain>`, so a vendor in the middle lands in
    // the OS slot.
    assert_eq!(normalize_target("aarch64-apple-darwin"), Some("apple-aarch64".to_string()));
}

#[test]
fn renaming_rules_apply_case_insensitively() {
    assert_eq!(normalize_target("X86_64-PC-WINDOWS-GNULLVM"), Some("mingw-x64".to_string()));
    // Fields that no rule touches pass through with their case kept.
    assert_eq!(normalize_target("AARCH64-APPLE-DARWIN"), Some("APPLE-AARCH64".to_string()));
}

#[test]
fn three_field_windows_triple_normalizes() {
    assert_eq!(normalize_target("x86_64-windows-gnu"), Some("mingw-x64".to_string()));
}

#[test]
fn short_triples_are_rejected() {
    assert_eq!(normalize_target(""), None);
    assert_eq!(normalize_target("linux"), None);
    assert_eq!(normalize_target("x86_64-linux"), None);
}

#[test]
fn five_field_identifier_uses_second_field_as_os() {
    assert_eq!(normalize_target("a-b-c-d-e"), Some("b-a".to_string()));
}

#[test]
fn split_dashes_keeps_empty_pieces() {
    assert_eq!(
        split_dashes("a-b--c"),
        vec!["a".to_string(), "b".to_string(), "".to_string(), "c".to_string()]
    );
    assert_eq!(split_dashes(""), vec!["".to_string()]);
    assert_eq!(split_dashes("abc"), vec!["abc".to_string()]);
}

#[test]
fn ascii_case_folding_comparison() {
    assert!(eq_ignore_ascii_case("WiNdOwS", "windows"));
    assert!(eq_ignore_ascii_case("gnu", "GNU"));
    assert!(!eq_ignore_ascii_case("gnu", "gnullvm"));
    assert!(!eq_ignore_ascii_case("a", "b"));
}

#[test]
fn malformed_target_fails_translation() {
    let config = C3FFI::new();
    let result = config.compile("thing", "out", "nodashes");
    assert!(matches!(result, Err(BuildError::MalformedTarget)));
}

#[test]
fn debug_off_and_o2_render_g0_before_o2() {
    let mut config = C3FFI::new();
    config.debug_info(false);
    config.optimization_level(OptimizationLevel::O2);
    let args = config.compile("thing", "out", "x86_64-unknown-linux-gnu").unwrap().args;
    let pos_g0 = args.iter().position(|a| a == "-g0").unwrap();
    let pos_o2 = args.iter().position(|a| a == "-O2").unwrap();
    assert!(pos_g0 < pos_o2);
}

#[test]
fn linking_mode_selects_command_token() {
    let mut config = C3FFI::new();
    config.linking_mode(LinkingMode::Dynamic);
    let args = config.compile("thing", "out", "x86_64-unknown-linux-gnu").unwrap().args;
    assert_eq!(args[0], "dynamic-lib");

    let mut config = C3FFI::new();
    config.linking_mode(LinkingMode::Static);
    let args = config.compile("thing", "out", "x86_64-unknown-linux-gnu").unwrap().args;
    assert_eq!(args[0], "static-lib");
}

#[test]
fn optimization_levels_spell_their_flags() {
    let levels = [
        (OptimizationLevel::O0, "O0"),
        (OptimizationLevel::O1, "O1"),
        (OptimizationLevel::O2, "O2"),
        (OptimizationLevel::O3, "O3"),
        (OptimizationLevel::O4, "O4"),
        (OptimizationLevel::O5, "O5"),
        (OptimizationLevel::Os, "Os"),
        (OptimizationLevel::Oz, "Oz"),
    ];
    for (level, expected) in levels {
        assert_eq!(level.to_str(), expected);
    }
}

#[test]
fn groups_are_rendered_in_fixed_order_whatever_the_call_order() {
    let mut config = C3FFI::new();
    // Accumulate across kinds in a deliberately shuffled order.
    config.arg("--raw");
    config.c3_lib("otherlib");
    config.file("f.c3");
    config.linker_argument("z1");
    config.feature("feat");
    config.compiled_lib_dir("dir1");
    config.compiled_lib("lib1");
    config.c3_lib_dir("c3dir");
    let invocation = config.compile("thing", "outdir", "x86_64-unknown-linux-gnu").unwrap();
    assert_eq!(invocation.program, "c3c");
    let expected: Vec<String> = [
        "static-lib",
        "-g",
        "-O0",
        "--output-dir",
        "outdir",
        "-o",
        "libthing",
        "--target",
        "linux-x64",
        "-D",
        "feat",
        "-z",
        "z1",
        "-L",
        "dir1",
        "-l",
        "lib1",
        "--libdir",
        "c3dir",
        "--lib",
        "otherlib",
        "f.c3",
        "--raw",
    ]
    .iter()
    .map(|s| s.to_string())
    .collect();
    assert_eq!(invocation.args, expected);
}

#[test]
fn fresh_configuration_renders_only_the_header() {
    let config = C3FFI::new();
    let invocation = config.compile("thing", "out", "x86_64-unknown-linux-gnu").unwrap();
    let expected: Vec<String> = [
        "static-lib",
        "-g",
        "-O0",
        "--output-dir",
        "out",
        "-o",
        "libthing",
        "--target",
        "linux-x64",
    ]
    .iter()
    .map(|s| s.to_string())
    .collect();
    assert_eq!(invocation.args, expected);
    assert_eq!(invocation.program, "c3c");
    assert!(invocation.environment.is_empty());
    assert!(config.rerun_directives().is_empty());
}

#[test]
fn compiler_path_carries_into_invocation() {
    let mut config = C3FFI::new();
    config.compiler("/usr/local/bin/c3c-0.7.6");
    let invocation = config.compile("thing", "out", "x86_64-unknown-linux-gnu").unwrap();
    assert_eq!(invocation.program, "/usr/local/bin/c3c-0.7.6");
}
