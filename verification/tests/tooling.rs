use wasmcov::llvm::{
    check_llvm_tool_version, check_rustc_version, choose_llvm_tool, find_llvm_tool, find_tooling,
    rustc_version_from, versioned_name,
};
use wasmcov::llvm::{FindToolError, NoVersion, ToolProbe, ToolingError};

const NIGHTLY_RUSTC: &str = "rustc 1.72.0-nightly (5ea666864 2023-06-27)\nbinary: rustc\ncommit-hash: 5ea66686467d3ec5f8c81570e7f0f16ad8dd8cc3\ncommit-date: 2023-06-27\nhost: x86_64-unknown-linux-gnu\nrelease: 1.72.0-nightly\nLLVM version: 16.0.5\n";
const STABLE_RUSTC: &str = "rustc 1.75.0 (82e1608df 2023-12-21)\nbinary: rustc\nhost: x86_64-unknown-linux-gnu\nrelease: 1.75.0\nLLVM version: 17.0.6\n";
const CLANG_16: &str = "Ubuntu clang version 16.0.6 (15)\nTarget: x86_64-pc-linux-gnu\n";
const CLANG_14: &str = "clang version 14.0.0-1ubuntu1.1\nTarget: x86_64-pc-linux-gnu\n";
const COV_16: &str = "LLVM (http://llvm.org/):\n  LLVM version 16.0.6\n  Optimized build.\n";

fn probe(versioned: Option<&str>, plain: Option<&str>) -> ToolProbe {
    ToolProbe { versioned: versioned.map(String::from), plain: plain.map(String::from) }
}

#[test]
fn rustc_output_gives_kind_and_llvm_version() {
    assert_eq!(check_rustc_version(NIGHTLY_RUSTC), Ok((true, "16".to_string())));
    assert_eq!(check_rustc_version(STABLE_RUSTC), Ok((false, "17".to_string())));
}

#[test]
fn rustc_output_without_llvm_version_is_an_error() {
    assert_eq!(check_rustc_version("rustc 1.75.0\nrelease: 1.75.0\n"), Err(NoVersion));
    assert_eq!(check_rustc_version("LLVM version: x"), Err(NoVersion));
    assert_eq!(check_rustc_version(""), Err(NoVersion));
}

#[test]
fn rustc_version_is_built_from_the_capture() {
    assert_eq!(rustc_version_from("a nightly build", Some("18".to_string())), Ok((true, "18".to_string())));
    assert_eq!(rustc_version_from("a stable build", Some("18".to_string())), Ok((false, "18".to_string())));
    assert_eq!(rustc_version_from("a nightly build", None), Err(NoVersion));
}

#[test]
fn tool_output_gives_the_major_version() {
    assert_eq!(check_llvm_tool_version(CLANG_16), Ok("16".to_string()));
    assert_eq!(check_llvm_tool_version(COV_16), Ok("16".to_string()));
    assert_eq!(check_llvm_tool_version("version 007.1"), Ok("007".to_string()));
    assert_eq!(check_llvm_tool_version("no number: version x"), Err(NoVersion));
    assert_eq!(check_llvm_tool_version("16.0.6"), Err(NoVersion));
}

#[test]
fn the_versioned_name_has_a_hyphen() {
    assert_eq!(versioned_name("llvm-cov", "16"), "llvm-cov-16");
}

#[test]
fn the_versioned_tool_is_preferred() {
    assert_eq!(choose_llvm_tool("clang", "16", Some("16".to_string()), Some("16".to_string())), Ok("clang-16".to_string()));
    assert_eq!(choose_llvm_tool("clang", "16", Some("15".to_string()), None), Ok("clang-16".to_string()));
}

#[test]
fn the_bare_tool_must_have_the_version() {
    assert_eq!(choose_llvm_tool("clang", "16", None, Some("16".to_string())), Ok("clang".to_string()));
    assert_eq!(
        choose_llvm_tool("clang", "16", None, Some("14".to_string())),
        Err(FindToolError::WrongVersion { found: "14".to_string() })
    );
    assert_eq!(choose_llvm_tool("clang", "16", None, None), Err(FindToolError::NotFound));
}

#[test]
fn a_tool_is_found_from_its_probes() {
    assert_eq!(find_llvm_tool("clang", "16", &probe(Some(CLANG_16), None)), Ok("clang-16".to_string()));
    assert_eq!(find_llvm_tool("clang", "16", &probe(None, Some(CLANG_16))), Ok("clang".to_string()));
    assert_eq!(find_llvm_tool("clang", "16", &probe(Some("garbage"), Some(CLANG_16))), Ok("clang".to_string()));
    assert_eq!(
        find_llvm_tool("clang", "16", &probe(None, Some(CLANG_14))),
        Err(FindToolError::WrongVersion { found: "14".to_string() })
    );
    assert_eq!(find_llvm_tool("clang", "16", &probe(None, Some("garbage"))), Err(FindToolError::NotFound));
    assert_eq!(find_llvm_tool("clang", "16", &probe(None, None)), Err(FindToolError::NotFound));
}

#[test]
fn the_tooling_is_put_together() {
    let tooling = find_tooling(
        NIGHTLY_RUSTC,
        &probe(Some(CLANG_16), None),
        &probe(None, Some(COV_16)),
        &probe(Some(COV_16), Some(COV_16)),
    );
    let tooling = tooling.ok().unwrap();
    assert!(tooling.rustc_is_nightly);
    assert_eq!(tooling.llvm_major_version, "16");
    assert_eq!(tooling.clang, "clang-16");
    assert_eq!(tooling.llvm_cov, "llvm-cov");
    assert_eq!(tooling.llvm_profdata, "llvm-profdata-16");
}

#[test]
fn the_first_missing_tool_is_reported() {
    let none = probe(None, None);
    let good = probe(Some(COV_16), None);
    assert_eq!(find_tooling("", &good, &good, &good).err(), Some(ToolingError::Rustc));
    assert_eq!(
        find_tooling(NIGHTLY_RUSTC, &probe(None, Some(CLANG_14)), &none, &good).err(),
        Some(ToolingError::Clang(FindToolError::WrongVersion { found: "14".to_string() }))
    );
    assert_eq!(
        find_tooling(NIGHTLY_RUSTC, &good, &none, &none).err(),
        Some(ToolingError::LlvmCov(FindToolError::NotFound))
    );
    assert_eq!(
        find_tooling(NIGHTLY_RUSTC, &good, &good, &none).err(),
        Some(ToolingError::LlvmProfdata(FindToolError::NotFound))
    );
}
