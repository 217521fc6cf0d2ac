use wasmcov::dir::{
    clean_wasmcov_directory, get_objects_dir, get_profdata_dir, get_profraw_dir, get_report_dir,
    get_target_dir, set_wasmcov_dir,
};
use wasmcov::paths::{dir_prefix, file_name, file_stem, join_path, rfind_char};

#[test]
fn join_path_puts_one_separator_between() {
    assert_eq!(join_path("a", "b"), "a/b");
    assert_eq!(join_path("a/", "b"), "a/b");
    assert_eq!(join_path("a", "/b"), "/b");
    assert_eq!(join_path("", "b"), "b");
    assert_eq!(join_path("a", ""), "a/");
    assert_eq!(join_path("/", "b"), "/b");
    assert_eq!(join_path("a/b", "c/d.txt"), "a/b/c/d.txt");
}

#[test]
fn join_path_agrees_with_std() {
    let cases: [(&str, &str); 7] =
        [("a", "b"), ("a/", "b"), ("a", "/b"), ("", "b"), ("a", ""), ("/", "b"), ("/x/y", "z.o")];
    for (dir, name) in cases {
        let expected = std::path::Path::new(dir).join(name);
        assert_eq!(join_path(dir, name), expected.to_str().unwrap());
    }
}

#[test]
fn rfind_char_gives_the_last_offset() {
    assert_eq!(rfind_char("a/b/c", '/'), Some(3));
    assert_eq!(rfind_char("abc", '/'), None);
    assert_eq!(rfind_char("", '/'), None);
    assert_eq!(rfind_char("/", '/'), Some(0));
    assert_eq!(rfind_char("h\u{e9}.x", '.'), Some(2));
}

#[test]
fn file_name_is_the_last_part() {
    assert_eq!(file_name("target/deps/foo.wasm"), "foo.wasm");
    assert_eq!(file_name("foo.wasm"), "foo.wasm");
    assert_eq!(file_name("/foo"), "foo");
    assert_eq!(file_name("a/"), "");
    assert_eq!(file_name(""), "");
}

#[test]
fn dir_prefix_keeps_the_separator() {
    assert_eq!(dir_prefix("target/deps/foo.wasm"), "target/deps/");
    assert_eq!(dir_prefix("foo.wasm"), "");
    assert_eq!(dir_prefix("/foo"), "/");
}

#[test]
fn file_stem_drops_the_last_extension() {
    assert_eq!(file_stem("target/deps/foo.wasm"), "foo");
    assert_eq!(file_stem("a.b/foo"), "foo");
    assert_eq!(file_stem("foo.tar.gz"), "foo.tar");
    assert_eq!(file_stem(".hidden"), ".hidden");
    assert_eq!(file_stem("dir/.hidden.txt"), ".hidden");
    assert_eq!(file_stem("foo."), "foo");
    assert_eq!(file_stem("my-crate.profdata"), "my-crate");
}

#[test]
fn the_root_is_the_given_directory_or_the_default() {
    assert_eq!(set_wasmcov_dir(Some("/tmp/cov"), "/home/me/project"), "/tmp/cov");
    assert_eq!(set_wasmcov_dir(None, "/home/me/project"), "/home/me/project/wasmcov");
    assert_eq!(set_wasmcov_dir(Some(""), "/home/me"), "");
}

#[test]
fn the_stores_have_fixed_names() {
    assert_eq!(get_profraw_dir("/w"), "/w/raw-profiles");
    assert_eq!(get_profdata_dir("/w"), "/w/merged-profiles");
    assert_eq!(get_objects_dir("/w"), "/w/objects");
    assert_eq!(get_target_dir("/w"), "/w/staging");
    assert_eq!(get_report_dir("/w/"), "/w/reports");
}

#[test]
fn selective_reset_spares_staging() {
    let dirs = clean_wasmcov_directory("/w", false);
    assert_eq!(dirs, vec!["/w/merged-profiles", "/w/reports", "/w/raw-profiles", "/w/objects"]);
    let staging = get_target_dir("/w");
    for dir in &dirs {
        assert!(!staging.starts_with(dir.as_str()));
        assert!(!dir.starts_with(staging.as_str()));
    }
}

#[test]
fn full_reset_takes_the_root() {
    assert_eq!(clean_wasmcov_directory("/w", true), vec!["/w"]);
}

#[test]
fn selective_reset_spares_what_lies_in_no_store() {
    let dirs = clean_wasmcov_directory("/w", false);
    let spared = ["staging", "staging/foo.o", "near_sandbox/neard-1.35.0", "reports.old/x", "raw-profiles2"];
    for name in spared {
        let path = join_path("/w", name);
        for dir in &dirs {
            assert!(path != *dir && !path.starts_with(&format!("{}/", dir)), "{} {}", path, dir);
        }
    }
    for dir in &dirs {
        assert!("/w" != dir.as_str() && !"/w".starts_with(&format!("{}/", dir)));
    }
}
