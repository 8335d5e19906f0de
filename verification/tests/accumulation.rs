//! Accumulation semantics: insertion order, deduplication, and
//! last-write-wins resolution of environment pairs.

use c3ne::C3FFI;

const TARGET: &str = "x86_64-unknown-linux-gnu";

fn args_of(config: &C3FFI, name: &str) -> Vec<String> {
    config.compile(name, "out", TARGET).expect("translation should succeed").args
}

#[test]
fn file_added_twice_kept_once_in_order() {
    let mut config = C3FFI::new();
    config.file("extern/a.c3");
    config.file("extern/b.c3");
    config.file("extern/a.c3");
    let args = args_of(&config, "thing");
    let occurrences: Vec<usize> = (0..args.len()).filter(|i| args[*i] == "extern/a.c3").collect();
    assert_eq!(occurrences.len(), 1);
    // Order of the file group: first occurrence wins the earlier slot.
    let pos_a = args.iter().position(|a| a == "extern/a.c3").unwrap();
    let pos_b = args.iter().position(|a| a == "extern/b.c3").unwrap();
    assert!(pos_a < pos_b);
}

#[test]
fn feature_added_twice_kept_once() {
    let mut config = C3FFI::new();
    config.feature("foo");
    config.feature("foo");
    let args = args_of(&config, "thing");
    assert_eq!(args.iter().filter(|a| *a == "foo").count(), 1);
}

#[test]
fn arg_added_twice_kept_once() {
    let mut config = C3FFI::new();
    config.arg("--no-headers");
    config.arg("--no-headers");
    let args = args_of(&config, "thing");
    assert_eq!(args.iter().filter(|a| *a == "--no-headers").count(), 1);
}

#[test]
fn linker_argument_added_twice_kept_once() {
    let mut config = C3FFI::new();
    config.linker_argument("-EB");
    config.linker_argument("-EB");
    let args = args_of(&config, "thing");
    assert_eq!(args.iter().filter(|a| *a == "-EB").count(), 1);
}

#[test]
fn lib_and_dir_entries_added_twice_kept_once() {
    let mut config = C3FFI::new();
    config.compiled_lib_dir("libs");
    config.compiled_lib_dir("libs");
    config.compiled_lib("somelib");
    config.compiled_lib("somelib");
    config.c3_lib_dir("c3libs");
    config.c3_lib_dir("c3libs");
    config.c3_lib("otherlib");
    config.c3_lib("otherlib");
    let args = args_of(&config, "thing");
    for needle in ["libs", "somelib", "c3libs", "otherlib"] {
        assert_eq!(args.iter().filter(|a| *a == needle).count(), 1);
    }
}

#[test]
fn batch_accumulators_deduplicate_against_existing_entries() {
    let mut config = C3FFI::new();
    config.feature("foo");
    config.features(vec!["foo".to_string(), "bar".to_string(), "bar".to_string()]);
    let args = args_of(&config, "thing");
    assert_eq!(args.iter().filter(|a| *a == "foo").count(), 1);
    assert_eq!(args.iter().filter(|a| *a == "bar").count(), 1);
    let pos_foo = args.iter().position(|a| a == "foo").unwrap();
    let pos_bar = args.iter().position(|a| a == "bar").unwrap();
    assert!(pos_foo < pos_bar);
}

#[test]
fn files_batch_keeps_insertion_order() {
    let mut config = C3FFI::new();
    config.files(vec!["m.c3".to_string(), "n.c3".to_string(), "m.c3".to_string()]);
    let args = args_of(&config, "thing");
    let pos_m = args.iter().position(|a| a == "m.c3").unwrap();
    let pos_n = args.iter().position(|a| a == "n.c3").unwrap();
    assert_eq!(args.iter().filter(|a| *a == "m.c3").count(), 1);
    assert!(pos_m < pos_n);
}

#[test]
fn duplicate_environment_pair_kept_once() {
    let mut config = C3FFI::new();
    config.environment_variable(("FOO", "BAR"));
    config.environment_variable(("FOO", "BAR"));
    let invocation = config.compile("thing", "out", TARGET).unwrap();
    assert_eq!(invocation.environment, vec![("FOO".to_string(), "BAR".to_string())]);
}

#[test]
fn conflicting_environment_keys_resolve_to_last_value() {
    let mut config = C3FFI::new();
    config.environment_variable(("FOO", "first"));
    config.environment_variable(("FOO", "second"));
    config.environment_variable(("OTHER", "x"));
    let invocation = config.compile("thing", "out", TARGET).unwrap();
    assert_eq!(invocation.environment.len(), 2);
    assert!(invocation.environment.contains(&("FOO".to_string(), "second".to_string())));
    assert!(invocation.environment.contains(&("OTHER".to_string(), "x".to_string())));
    assert!(!invocation.environment.contains(&("FOO".to_string(), "first".to_string())));
}

#[test]
fn environment_batch_accumulates_pairs() {
    let mut config = C3FFI::new();
    config.environment_variables(vec![
        ("VAR_1".to_string(), "FOO".to_string()),
        ("VAR_2".to_string(), "BAR".to_string()),
        ("VAR_1".to_string(), "FOO".to_string()),
    ]);
    let invocation = config.compile("thing", "out", TARGET).unwrap();
    assert_eq!(invocation.environment.len(), 2);
    assert!(invocation.environment.contains(&("VAR_1".to_string(), "FOO".to_string())));
    assert!(invocation.environment.contains(&("VAR_2".to_string(), "BAR".to_string())));
}

#[test]
fn rerun_directives_follow_file_insertion_order() {
    let mut config = C3FFI::new();
    config.file("a.c3");
    config.file("b.c3");
    config.file("a.c3");
    assert_eq!(
        config.rerun_directives(),
        vec![
            "cargo::rerun-if-changed=a.c3".to_string(),
            "cargo::rerun-if-changed=b.c3".to_string(),
        ]
    );
}
