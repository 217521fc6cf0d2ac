use wasmcov::near::{init, init_config};
use wasmcov::near_sandbox::{
    add_wasmcov_to_nearcore, modify_cargo_toml, modify_imports, modify_logic,
    modify_near_vm_runner, modify_wasmtime_runner, setup_near_sandbox, source_alternatives,
};
use wasmcov::near_sandbox::{
    NearcoreSources, PatchError, SetupStep, SourceFile, UnsupportedVersion,
};
use wasmcov::utils::{NoModification, Source};
use wasmcov::version::{parse_u32, version_numbers};

fn text(s: &str) -> Source {
    Source::Text(s.as_bytes().to_vec())
}

fn as_text(bytes: &[u8]) -> String {
    String::from_utf8(bytes.to_vec()).unwrap()
}

const VM_RUNNER: &str = "let res = call();\n        if let Err(trap) = res {\n}\n";
const IMPORTS: &str = "    ##[\"sandbox\"] sandbox_debug_log<[len: u64, ptr: u64] -> []>,\n";
const WASMTIME: &str = "    Ok(run) => match run.call(&mut store, ()) {\n";
const LOGIC: &str = "impl Logic {\n    pub fn panic(&mut self) -> Result<()> {\n";

#[test]
fn the_manifest_profile_is_renamed() {
    let out = modify_cargo_toml(b"[profile.quick-release]\ninherits = \"release\"\n").unwrap();
    assert_eq!(out, b"[profile.dev-release]\ninherits = \"release\"\n".to_vec());
    assert_eq!(modify_cargo_toml(b"[profile.release]\n"), Err(NoModification));
}

#[test]
fn the_vm_runner_captures_before_the_check() {
    let out = as_text(&modify_near_vm_runner(VM_RUNNER.as_bytes()).unwrap());
    let lines: Vec<&str> = out.lines().collect();
    assert_eq!(lines[0], "let res = call();");
    assert_eq!(lines[1], "if std::env::var(\"WASMCOV_DIR\").is_ok() {");
    assert!(lines[2].contains("artifact.export_field(\"capture_coverage\")"));
    assert_eq!(lines[lines.len() - 2], "        if let Err(trap) = res {");
    assert_eq!(lines[lines.len() - 1], "}");
    assert_eq!(lines.len(), 3 + 12);
    assert_eq!(modify_near_vm_runner(b"fn main() {}\n"), Err(NoModification));
}

#[test]
fn the_wasmtime_runner_captures_after_the_call() {
    let out = as_text(&modify_wasmtime_runner(WASMTIME.as_bytes()).unwrap());
    assert!(out.starts_with("    Ok(run) => match (|| {\n"));
    assert!(out.contains("instance.get_func(&mut store, \"capture_coverage\")"));
    assert!(out.ends_with("                })() {\n"));
    assert!(!out.contains("Ok(run) => match run.call(&mut store, ()) {"));
    assert_eq!(modify_wasmtime_runner(b"fn main() {}\n"), Err(NoModification));
}

#[test]
fn the_capture_import_follows_the_debug_log() {
    let out = as_text(&modify_imports(IMPORTS.as_bytes()).unwrap());
    let expected = format!(
        "{}{}\n",
        IMPORTS,
        "##[\"sandbox\"] sandbox_capture_coverage<[file_len: u64, file_ptr: u64, coverage_len: u64, coverage_ptr: u64] -> []>,"
    );
    assert_eq!(out, expected);
    assert_eq!(modify_imports(b"nothing\n"), Err(NoModification));
}

#[test]
fn the_capture_host_function_precedes_panic() {
    let out = as_text(&modify_logic(LOGIC.as_bytes()).unwrap());
    assert!(out.starts_with("impl Logic {\n\n            #[cfg(feature = \"sandbox\")]\n"));
    assert!(out.contains("pub fn sandbox_capture_coverage(&mut self, file_len: u64"));
    assert!(out.contains("wasmcov_dir.join(\"raw-profiles\").join(file)"));
    assert!(out.ends_with("            }\n    pub fn panic(&mut self) -> Result<()> {\n"));
    assert_eq!(modify_logic(b"nothing\n"), Err(NoModification));
}

fn sources() -> NearcoreSources {
    NearcoreSources {
        cargo_toml: text("[profile.quick-release]\n"),
        near_vm_runner: text(VM_RUNNER),
        imports: text(IMPORTS),
        wasmtime_runner: text(WASMTIME),
        logic: text(LOGIC),
    }
}

#[test]
fn all_sources_are_changed_in_order() {
    let patch = add_wasmcov_to_nearcore(&sources());
    assert_eq!(patch.result, Ok(()));
    let files: Vec<SourceFile> = patch.writes.iter().map(|w| w.file).collect();
    assert_eq!(
        files,
        vec![
            SourceFile::CargoToml,
            SourceFile::NearVmRunner,
            SourceFile::Imports,
            SourceFile::Logic,
            SourceFile::WasmtimeRunner
        ]
    );
    assert_eq!(patch.writes[0].content, b"[profile.dev-release]\n".to_vec());
    assert_eq!(patch.writes[2].content, modify_imports(IMPORTS.as_bytes()).unwrap());
}

#[test]
fn a_manifest_without_the_profile_is_a_failure() {
    let mut given = sources();
    given.cargo_toml = text("[profile.release]\n");
    let patch = add_wasmcov_to_nearcore(&given);
    assert_eq!(patch.result, Err(PatchError::NotModified(SourceFile::CargoToml)));
    assert!(patch.writes.is_empty());
    given.cargo_toml = Source::Unreadable;
    let patch = add_wasmcov_to_nearcore(&given);
    assert_eq!(patch.result, Err(PatchError::NotModified(SourceFile::CargoToml)));
    assert!(patch.writes.is_empty());
}

#[test]
fn a_missing_manifest_is_a_failure() {
    let mut given = sources();
    given.cargo_toml = Source::Missing;
    let patch = add_wasmcov_to_nearcore(&given);
    assert_eq!(patch.result, Err(PatchError::NotFound(SourceFile::CargoToml)));
    assert!(patch.writes.is_empty());
    given.logic = Source::Missing;
    assert_eq!(add_wasmcov_to_nearcore(&given).result, Err(PatchError::NotFound(SourceFile::Logic)));
}

#[test]
fn a_missing_source_stops_everything() {
    let mut given = sources();
    given.logic = Source::Missing;
    let patch = add_wasmcov_to_nearcore(&given);
    assert_eq!(patch.result, Err(PatchError::NotFound(SourceFile::Logic)));
    assert!(patch.writes.is_empty());
    given.imports = Source::Missing;
    assert_eq!(add_wasmcov_to_nearcore(&given).result, Err(PatchError::NotFound(SourceFile::Imports)));
    given.wasmtime_runner = Source::Missing;
    assert_eq!(add_wasmcov_to_nearcore(&given).result, Err(PatchError::NotFound(SourceFile::Imports)));
    given.near_vm_runner = Source::Missing;
    assert_eq!(
        add_wasmcov_to_nearcore(&given).result,
        Err(PatchError::NotFound(SourceFile::NearVmRunner))
    );
}

#[test]
fn a_source_without_anchor_stops_the_rest() {
    let mut given = sources();
    given.logic = text("no anchor\n");
    let patch = add_wasmcov_to_nearcore(&given);
    assert_eq!(patch.result, Err(PatchError::NotModified(SourceFile::Logic)));
    let files: Vec<SourceFile> = patch.writes.iter().map(|w| w.file).collect();
    assert_eq!(files, vec![SourceFile::CargoToml, SourceFile::NearVmRunner, SourceFile::Imports]);
    given.near_vm_runner = Source::Unreadable;
    let patch = add_wasmcov_to_nearcore(&given);
    assert_eq!(patch.result, Err(PatchError::NotModified(SourceFile::NearVmRunner)));
    assert_eq!(patch.writes.len(), 1);
}

#[test]
fn sources_are_looked_for_under_their_paths() {
    assert_eq!(
        source_alternatives(SourceFile::NearVmRunner),
        vec![
            "runtime/near-vm-runner/src/near_vm_runner.rs",
            "runtime/near-vm-runner/src/near_vm_runner/runner.rs"
        ]
    );
    assert_eq!(source_alternatives(SourceFile::Imports), vec!["runtime/near-vm-runner/src/imports.rs"]);
    assert_eq!(
        source_alternatives(SourceFile::WasmtimeRunner),
        vec!["runtime/near-vm-runner/src/wasmtime_runner.rs"]
    );
    assert_eq!(
        source_alternatives(SourceFile::Logic),
        vec!["runtime/near-vm-runner/src/logic/logic.rs", "runtime/near-vm-logic/src/logic.rs"]
    );
    assert_eq!(source_alternatives(SourceFile::CargoToml), vec!["Cargo.toml"]);
}

#[test]
fn numbers_are_read_like_std() {
    let cases: [&str; 14] = [
        "0", "1", "34", "007", "+5", "+", "", "-1", "4294967295", "4294967296", "99999999999", "1a",
        " 1", "+-1",
    ];
    for case in cases {
        assert_eq!(parse_u32(case.as_bytes()), case.parse::<u32>().ok(), "{}", case);
    }
    assert_eq!(parse_u32(b"35"), Some(35));
}

#[test]
fn version_numbers_default_to_zero() {
    assert_eq!(version_numbers("1.35.0"), (1, 35));
    assert_eq!(version_numbers("1.34"), (1, 34));
    assert_eq!(version_numbers("2"), (2, 0));
    assert_eq!(version_numbers(""), (0, 0));
    assert_eq!(version_numbers("1..3"), (1, 0));
    assert_eq!(version_numbers(".5"), (0, 5));
    assert_eq!(version_numbers("v1.36.0"), (0, 36));
    assert_eq!(version_numbers("1.36-rc.1"), (1, 0));
    assert_eq!(version_numbers("1.4294967296"), (1, 0));
}

#[test]
fn old_versions_are_not_set_up() {
    assert!(matches!(setup_near_sandbox("/s", "1.33.9"), Err(UnsupportedVersion)));
    assert!(matches!(setup_near_sandbox("/s", "2.0.0"), Err(UnsupportedVersion)));
    assert!(matches!(setup_near_sandbox("/s", "0.34.0"), Err(UnsupportedVersion)));
    assert!(matches!(setup_near_sandbox("/s", "latest"), Err(UnsupportedVersion)));
    assert!(setup_near_sandbox("/s", "1.34.0").is_ok());
}

#[test]
fn the_default_version_is_set_up() {
    let setup = setup_near_sandbox("/w/near_sandbox", "").ok().unwrap();
    assert_eq!(setup.version, "1.35.0");
    assert_eq!(setup.neard_path, "/w/near_sandbox/neard-1.35.0");
    assert_eq!(setup.repository_dir, "/w/near_sandbox/1.35.0");
}

#[test]
fn the_setup_names_places_and_commands() {
    let setup = setup_near_sandbox("/s", "1.36.1").ok().unwrap();
    assert_eq!(setup.version, "1.36.1");
    assert_eq!(setup.neard_path, "/s/neard-1.36.1");
    assert_eq!(setup.repository_dir, "/s/1.36.1");
    assert_eq!(setup.clone.program, "git");
    assert_eq!(
        setup.clone.args,
        vec!["clone", "--depth=1", "--branch", "1.36.1", "https://github.com/near/nearcore", "/s/1.36.1"]
    );
    assert_eq!(setup.update.program, "cargo");
    assert_eq!(setup.update.args, vec!["update", "-p", "librocksdb-sys"]);
    assert_eq!(setup.build.program, "cargo");
    assert_eq!(
        setup.build.args,
        vec![
            "build",
            "-p",
            "neard",
            "--locked",
            "--features",
            "sandbox",
            "--profile",
            "dev-release",
            "--target-dir",
            "/s/1.36.1/target"
        ]
    );
    assert_eq!(setup.built_binary, "/s/1.36.1/target/dev-release/neard");
    assert_eq!(setup.check.program, "/s/neard-1.36.1");
    assert_eq!(setup.check.args, vec!["--version"]);
}

#[test]
fn the_setup_steps_follow_each_other() {
    assert_eq!(SetupStep::CreateDir.advance(false), SetupStep::FindBinary);
    assert_eq!(SetupStep::FindBinary.advance(true), SetupStep::Done);
    assert_eq!(SetupStep::FindBinary.advance(false), SetupStep::FindRepository);
    assert_eq!(SetupStep::FindRepository.advance(true), SetupStep::Update);
    assert_eq!(SetupStep::FindRepository.advance(false), SetupStep::Clone);
    let mut step = SetupStep::Clone;
    let mut seen = Vec::new();
    while step != SetupStep::Done {
        seen.push(step);
        step = step.advance(true);
    }
    assert_eq!(
        seen,
        vec![
            SetupStep::Clone,
            SetupStep::Patch,
            SetupStep::Update,
            SetupStep::Build,
            SetupStep::Install,
            SetupStep::Check,
            SetupStep::RemoveRepository
        ]
    );
    assert_eq!(SetupStep::Done.advance(false), SetupStep::Done);
}

#[test]
fn the_coverage_profile_is_appended() {
    let updated = init_config("[build]\ntarget = \"wasm32-unknown-unknown\"\n");
    assert_eq!(
        updated,
        "[build]\ntarget = \"wasm32-unknown-unknown\"\n\n[profile.coverage]\ninherits = \"release\"\nstrip = true\ncodegen-units = 1\nopt-level = \"z\"\ndebug = false\npanic = \"abort\"\noverflow-checks = true\n"
    );
}

#[test]
fn the_project_is_prepared_in_its_places() {
    let plan = init("/w", "/home/me/project", "");
    assert_eq!(plan.neard_path, "/w/bin/neard");
    assert_eq!(plan.init_home.program, "/w/bin/neard");
    assert_eq!(plan.init_home.args, vec!["--home", "/w/.near", "init"]);
    assert_eq!(plan.config_path, "/home/me/project/.cargo/config");
    assert!(plan.config.starts_with("\n[profile.coverage]\n"));
}
