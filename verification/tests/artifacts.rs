use wasmcov::artifacts::{
    build_phase_failed, compile_ll_file, find_ll_file, find_wasm_files_with_coverage,
    get_build_flags, has_coverage_marker, has_module_path, ll_file_path, plan_artifact,
    wasm_pattern,
};
use wasmcov::artifacts::{ArtifactOutcome, MissingIr, StageStep, WasmCandidate};

fn candidate(path: &str, content: &[u8]) -> WasmCandidate {
    WasmCandidate { path: path.to_string(), content: content.to_vec() }
}

#[test]
fn build_flags_are_fixed() {
    assert_eq!(
        get_build_flags(),
        vec![
            "--emit=llvm-ir",
            "-Cinstrument-coverage",
            "-Clto=off",
            "-Zlocation-detail=none",
            "-Zno-profiler-runtime"
        ]
    );
}

#[test]
fn the_pattern_names_modules_under_deps() {
    assert_eq!(wasm_pattern("/w/staging"), "/w/staging/**/deps/*.wasm");
}

#[test]
fn the_marker_is_looked_for_in_all_bytes() {
    assert!(has_coverage_marker(b"\0asm\x01\0\0\0..__llvm_profile_init.."));
    assert!(has_coverage_marker(b"__llvm_profile_init"));
    assert!(!has_coverage_marker(b"\0asm\x01\0\0\0..__llvm_profile_ini"));
    assert!(!has_coverage_marker(b"__llvm_profile-init"));
    assert!(!has_coverage_marker(b""));
}

#[test]
fn only_instrumented_modules_are_returned() {
    let candidates = vec![
        candidate("t/deps/a.wasm", b"xx__llvm_profile_initxx"),
        candidate("t/deps/b.wasm", b"plain module"),
        candidate("t/x/deps/c.wasm", b"__llvm_profile_init"),
    ];
    assert_eq!(find_wasm_files_with_coverage(&candidates), vec!["t/deps/a.wasm", "t/x/deps/c.wasm"]);
}

#[test]
fn no_qualifying_module_gives_an_empty_list() {
    assert_eq!(find_wasm_files_with_coverage(&Vec::new()), Vec::<String>::new());
    let candidates = vec![candidate("t/deps/b.wasm", b"plain"), candidate("t/deps/c.wasm", b"")];
    assert_eq!(find_wasm_files_with_coverage(&candidates), Vec::<String>::new());
}

#[test]
fn the_ir_stands_beside_the_module() {
    assert_eq!(ll_file_path("out/wasm32/release/deps/foo.wasm"), "out/wasm32/release/deps/foo.ll");
    assert_eq!(ll_file_path("foo.wasm"), "foo.ll");
    assert_eq!(ll_file_path("/foo-1a2b.wasm"), "/foo-1a2b.ll");
    assert_eq!(ll_file_path("deps/a.b.wasm"), "deps/a.b.ll");
}

#[test]
fn a_module_without_ir_is_reported() {
    assert_eq!(find_ll_file("deps/foo.wasm", true), Ok("deps/foo.ll".to_string()));
    assert_eq!(find_ll_file("deps/foo.wasm", false), Err(MissingIr));
}

#[test]
fn the_compiler_targets_the_host() {
    let command = compile_ll_file("clang-17", "/w/staging/foo.ll", "/w/staging/foo.o");
    assert_eq!(command.program, "clang-17");
    assert_eq!(
        command.args,
        vec![
            "--target=x86_64-unknown-linux-gnu",
            "-Wno-override-module",
            "-c",
            "-o",
            "/w/staging/foo.o",
            "/w/staging/foo.ll"
        ]
    );
}

#[test]
fn a_module_is_staged_with_its_ir_and_object() {
    let plan = plan_artifact("clang", "build/deps/foo.wasm", "/w/staging");
    assert_eq!(plan.ll_file, "build/deps/foo.ll");
    assert_eq!(plan.new_ll_file, "/w/staging/foo.ll");
    assert_eq!(plan.obj_file, "/w/staging/foo.o");
    assert_eq!(plan.wasm_target, "/w/staging/foo.wasm");
    assert_eq!(plan.compile.program, "clang");
    assert_eq!(plan.compile.args[4], "/w/staging/foo.o");
    assert_eq!(plan.compile.args[5], "/w/staging/foo.ll");
}

#[test]
fn the_build_phase_fails_only_if_every_compilation_fails() {
    assert!(!build_phase_failed(&Vec::new()));
    assert!(build_phase_failed(&vec![ArtifactOutcome::CompileFailed]));
    assert!(build_phase_failed(&vec![ArtifactOutcome::CompileFailed, ArtifactOutcome::CompileFailed]));
    assert!(!build_phase_failed(&vec![ArtifactOutcome::CompileFailed, ArtifactOutcome::Staged]));
    assert!(!build_phase_failed(&vec![ArtifactOutcome::MissingIr, ArtifactOutcome::CompileFailed]));
    assert!(!build_phase_failed(&vec![ArtifactOutcome::MissingIr]));
    assert!(!build_phase_failed(&vec![ArtifactOutcome::TransformFailed]));
    assert!(!build_phase_failed(&vec![ArtifactOutcome::CopyFailed]));
}

#[test]
fn a_failed_step_ends_the_staging_of_a_module() {
    assert_eq!(StageStep::WriteIr.advance(true), StageStep::Compile);
    assert_eq!(StageStep::WriteIr.advance(false), StageStep::Done(ArtifactOutcome::TransformFailed));
    assert_eq!(StageStep::Compile.advance(true), StageStep::CopyModule);
    assert_eq!(StageStep::Compile.advance(false), StageStep::Done(ArtifactOutcome::CompileFailed));
    assert_eq!(StageStep::CopyModule.advance(true), StageStep::Done(ArtifactOutcome::Staged));
    assert_eq!(StageStep::CopyModule.advance(false), StageStep::Done(ArtifactOutcome::CopyFailed));
    for ok in [true, false] {
        assert_eq!(
            StageStep::Done(ArtifactOutcome::MissingIr).advance(ok),
            StageStep::Done(ArtifactOutcome::MissingIr)
        );
    }
}

const PATHS: [&str; 14] = [
    "deps/foo.wasm",
    "t/deps/foo.wasm",
    "/abs/t/wasm32-unknown-unknown/release/deps/foo_bar-1a2b.wasm",
    "t/deps/.wasm",
    "t/deps/a.b.wasm",
    "foo.wasm",
    "t/foo.wasm",
    "t/xdeps/foo.wasm",
    "t/deps/x/foo.wasm",
    "t/deps/foo.wat",
    "t/deps/foo.wasm.d",
    "t/deps/foowasm",
    "t/deps/",
    "",
];

#[test]
fn modules_are_wasm_files_in_a_deps_directory() {
    let expected = [
        true, true, true, true, true, false, false, false, false, false, false, false, false, false,
    ];
    for (path, expected) in PATHS.iter().zip(expected) {
        assert_eq!(has_module_path(path), expected, "{}", path);
    }
}

#[test]
fn module_paths_agree_with_the_glob_pattern() {
    let pattern = glob::Pattern::new("**/deps/*.wasm").unwrap();
    let options = glob::MatchOptions {
        case_sensitive: true,
        require_literal_separator: true,
        require_literal_leading_dot: false,
    };
    for path in PATHS {
        assert_eq!(has_module_path(path), pattern.matches_with(path, options), "{}", path);
    }
}

#[test]
fn a_marked_file_elsewhere_is_no_module() {
    let candidates = vec![
        candidate("t/foo.wasm", b"__llvm_profile_init"),
        candidate("t/deps/foo.ll", b"__llvm_profile_init"),
        candidate("t/deps/foo.wasm", b"__llvm_profile_init"),
    ];
    assert_eq!(find_wasm_files_with_coverage(&candidates), vec!["t/deps/foo.wasm"]);
}
