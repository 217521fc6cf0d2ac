use wasmcov::cargo::{
    cargo_message_args, parse_cargo_output, select_executable, split_args, test_build_args,
};
use wasmcov::cargo::CargoMessage;

fn strings(items: &[&str]) -> Vec<String> {
    items.iter().map(|s| s.to_string()).collect()
}

#[test]
fn arguments_are_parted_at_the_first_separator() {
    let (cargo, binary) = split_args(strings(&["--release", "--", "--nocapture", "--", "x"]));
    assert_eq!(cargo, vec!["--release"]);
    assert_eq!(binary, vec!["--nocapture", "--", "x"]);
}

#[test]
fn without_separator_all_arguments_are_for_cargo() {
    let (cargo, binary) = split_args(strings(&["--release", "-p", "foo"]));
    assert_eq!(cargo, vec!["--release", "-p", "foo"]);
    assert!(binary.is_empty());
    let (cargo, binary) = split_args(Vec::new());
    assert!(cargo.is_empty());
    assert!(binary.is_empty());
}

#[test]
fn a_separator_at_either_end_leaves_one_side_empty() {
    let (cargo, binary) = split_args(strings(&["--", "a"]));
    assert!(cargo.is_empty());
    assert_eq!(binary, vec!["a"]);
    let (cargo, binary) = split_args(strings(&["a", "--"]));
    assert_eq!(cargo, vec!["a"]);
    assert!(binary.is_empty());
}

#[test]
fn message_arguments_start_with_the_format() {
    assert_eq!(
        cargo_message_args("test", &strings(&["--release", "--no-run"])),
        vec!["test", "--message-format=json", "--release", "--no-run"]
    );
    assert_eq!(cargo_message_args("build", &Vec::new()), vec!["build", "--message-format=json"]);
}

#[test]
fn tests_are_built_without_running() {
    assert_eq!(test_build_args(strings(&["--release"])), vec!["--release", "--no-run"]);
    assert_eq!(test_build_args(Vec::new()), vec!["--no-run"]);
}

fn message(reason: Option<&str>, test: Option<bool>, executable: Option<&str>) -> CargoMessage {
    CargoMessage {
        reason: reason.map(String::from),
        profile_test: test,
        executable: executable.map(String::from),
    }
}

#[test]
fn an_executable_needs_reason_and_profile() {
    assert_eq!(
        select_executable(message(Some("compiler-artifact"), Some(true), Some("/t/a")), true),
        Some("/t/a".to_string())
    );
    assert_eq!(select_executable(message(Some("compiler-artifact"), Some(true), Some("/t/a")), false), None);
    assert_eq!(
        select_executable(message(Some("compiler-artifact"), Some(false), Some("/t/a")), false),
        Some("/t/a".to_string())
    );
    assert_eq!(select_executable(message(Some("build-finished"), Some(true), Some("/t/a")), true), None);
    assert_eq!(select_executable(message(None, Some(true), Some("/t/a")), true), None);
    assert_eq!(select_executable(message(Some("compiler-artifact"), None, Some("/t/a")), false), None);
    assert_eq!(select_executable(message(Some("compiler-artifact"), Some(true), None), true), None);
}

const OUTPUT: &str = "{\"reason\":\"compiler-artifact\",\"target\":{\"name\":\"foo\"},\"profile\":{\"opt_level\":\"0\",\"test\":true},\"executable\":\"/t/debug/deps/foo-1a2b\"}\r\n\
warning: something that is no JSON\n\
{\"reason\":\"compiler-artifact\",\"profile\":{\"test\":false},\"executable\":\"/t/debug/foo\"}\n\
{\"reason\":\"compiler-artifact\",\"profile\":{\"test\":true},\"executable\":null}\n\
{\"reason\":\"compiler-artifact\",\"profile\":{\"test\":\"true\"},\"executable\":\"/t/debug/deps/bad\"}\n\
{\"reason\":\"build-script-executed\",\"profile\":{\"test\":true},\"executable\":\"/t/debug/build/x\"}\n\
[1, 2, 3]\n\
\"compiler-artifact\"\n\
\n\
{\"reason\":\"compiler-artifact\",\"profile\":{\"test\":true},\"executable\":\"/t/debug/deps/int-\\u00e9\"}\n\
{\"reason\":\"build-finished\",\"success\":true}";

#[test]
fn test_binaries_are_read_from_the_messages() {
    assert_eq!(
        parse_cargo_output("test", OUTPUT),
        vec!["/t/debug/deps/foo-1a2b", "/t/debug/deps/int-\u{e9}"]
    );
}

#[test]
fn other_binaries_are_read_for_other_commands() {
    assert_eq!(parse_cargo_output("build", OUTPUT), vec!["/t/debug/foo"]);
    assert_eq!(parse_cargo_output("run", OUTPUT), vec!["/t/debug/foo"]);
}

#[test]
fn no_messages_give_no_binaries() {
    assert!(parse_cargo_output("test", "").is_empty());
    assert!(parse_cargo_output("test", "not json\n{broken\n").is_empty());
}
