//! The NEAR sandbox with coverage capture: the changes to its sources and
//! the steps that build it.

use crate::paths::{join_path, join_spec};
use crate::utils::{
    modify_file, strs, CommandLine, Edit, FileOperation, NoModification, Source,
};
use crate::version::{major_field, minor_field, number_or_zero, version_numbers};
use vstd::prelude::*;
use vstd::string::{StrSliceExecFns, StringExecFns, StringSliceAdditionalSpecFns};
use vstd::utf8::encode_utf8;

verus! {

/// The build profile that the workspace manifest of the sandbox declares.
pub const QUICK_RELEASE_PROFILE: &'static str = "profile.quick-release";

/// The build profile under which the sandbox is built with coverage capture.
pub const DEV_RELEASE_PROFILE: &'static str = "profile.dev-release";

/// The change to the workspace manifest: the quick-release profile is
/// renamed to the dev-release profile.
pub open spec fn cargo_toml_edit() -> Edit {
    Edit::ReplaceText {
        pattern: encode_utf8(QUICK_RELEASE_PROFILE@),
        replacement: encode_utf8(DEV_RELEASE_PROFILE@),
    }
}

/// Renames the quick-release profile in the text of the workspace manifest.
pub fn modify_cargo_toml(content: &[u8]) -> (modified: Result<Vec<u8>, NoModification>)
    ensures
        match modified {
            Ok(out) => cargo_toml_edit().apply(content@) == Some(out@),
            Err(_) => cargo_toml_edit().apply(content@).is_none(),
        },
{
    let operation = FileOperation::ReplaceText {
        pattern: String::from_str(QUICK_RELEASE_PROFILE),
        replacement: String::from_str(DEV_RELEASE_PROFILE),
    };
    modify_file(content, operation)
}

/// The line of the VM runner that checks the result of a contract call.
pub const VM_RUNNER_ANCHOR: &'static str = "if let Err(trap) = res {";

/// The statements that call the capture function of a contract, put before
/// the check of the result.
pub const VM_RUNNER_CAPTURE: &'static str = "if std::env::var(\"WASMCOV_DIR\").is_ok() {
                if let Some(near_vm_types::ExportIndex::Function(index)) = artifact.export_field(\"capture_coverage\") {
    if let Some(function) = instance.function_by_index(index) {
        instance.invoke_function(
            function.vmctx,
            function.call_trampoline.unwrap(),
            function.address,
            [].as_mut_ptr() as *mut _,
        ).expect(\"capture_coverage function should not fail\");
    }
}
}";

/// The call of a contract method in the Wasmtime runner.
pub const WASMTIME_CALL: &'static str = "Ok(run) => match run.call(&mut store, ()) {";

/// The call of a contract method in the Wasmtime runner, followed by a call
/// of the capture function of the contract.
pub const WASMTIME_CALL_WITH_CAPTURE: &'static str = "Ok(run) => match (|| {
                    let result = run.call(&mut store, ());
                    if std::env::var(\"WASMCOV_DIR\").is_ok() {
                        if let Some(func) = instance.get_func(&mut store, \"capture_coverage\") {
                            if let Some(run) = func.typed::<(), ()>(&mut store).ok() {
                                run.call(&mut store, ()).expect(\"capture_coverage function should not fail\");
                            }
                        }
                    }
                    result
                })() {";

/// The start of the declaration of the debug-log import of the sandbox.
pub const IMPORTS_ANCHOR: &'static str = "sandbox_debug_log<[len: u64, ptr: u64]";

/// The declaration of the capture import, put after that of the debug log.
pub const IMPORTS_CAPTURE: &'static str = "##[\"sandbox\"] sandbox_capture_coverage<[file_len: u64, file_ptr: u64, coverage_len: u64, coverage_ptr: u64] -> []>,";

/// The header of the host function before which the capture host function
/// is put.
pub const LOGIC_ANCHOR: &'static str = "pub fn panic(&mut self)";

/// The host function that writes the coverage data of a contract to the raw
/// profile directory.
pub const LOGIC_CAPTURE: &'static str = "
            #[cfg(feature = \"sandbox\")]
            pub fn sandbox_capture_coverage(&mut self, file_len: u64, file_ptr: u64, coverage_len: u64, coverage_ptr: u64) -> Result<()> {
                use near_primitives_core::hash::CryptoHash;
                use std::path::PathBuf;
            
                let file = self.memory.view_for_free(MemSlice { ptr: file_ptr, len: file_len })?.into_owned();
                let file = String::from_utf8(file).expect(\"Invalid coverage file name\");
                let coverage = self.memory.view_for_free(MemSlice { ptr: coverage_ptr, len: coverage_len })?.into_owned();
        
                let wasmcov_dir = std::env::var(\"WASMCOV_DIR\").map(|s| PathBuf::from(s)).expect(\"WASMCOV_DIR is not set.\");
                if !wasmcov_dir.exists() {
                    panic!(\"WASMCOV_DIR {wasmcov_dir:?} does not exist.\");
                }
                let profraw_directory = wasmcov_dir.join(\"raw-profiles\").join(file);
                let _ = std::fs::create_dir_all(&profraw_directory); // it may fail if multiple threads are trying to create the same directory
                
                const HEX_DIGITS: &[u8; 16] = b\"0123456789abcdef\";
                let mut coverage_hash = String::with_capacity(64);
                for &byte in CryptoHash::hash_bytes(&coverage).as_bytes() {
                    coverage_hash.push(HEX_DIGITS[(byte >> 4) as usize] as char);
                    coverage_hash.push(HEX_DIGITS[(byte & 0x0F) as usize] as char);
                }
            
                let file_path = profraw_directory.join(format!(\"{coverage_hash}.profraw\"));
                std::fs::write(&file_path, coverage).expect(\"Failed to write coverage file\");
                Ok(())
            }";

/// The change to the VM runner: the capture statements go before every line
/// that checks the result of a contract call.
pub open spec fn near_vm_runner_edit() -> Edit {
    Edit::AddBefore { pattern: encode_utf8(VM_RUNNER_ANCHOR@), new_line: encode_utf8(VM_RUNNER_CAPTURE@) }
}

/// Puts the capture statements into the text of the VM runner.
pub fn modify_near_vm_runner(content: &[u8]) -> (modified: Result<Vec<u8>, NoModification>)
    ensures
        match modified {
            Ok(out) => near_vm_runner_edit().apply(content@) == Some(out@),
            Err(_) => near_vm_runner_edit().apply(content@).is_none(),
        },
{
    let operation = FileOperation::AddBefore {
        pattern: String::from_str(VM_RUNNER_ANCHOR),
        new_line: String::from_str(VM_RUNNER_CAPTURE),
    };
    modify_file(content, operation)
}

/// The change to the Wasmtime runner: every call of a contract method is
/// replaced by one that captures coverage afterwards.
pub open spec fn wasmtime_runner_edit() -> Edit {
    Edit::ReplaceText { pattern: encode_utf8(WASMTIME_CALL@), replacement: encode_utf8(WASMTIME_CALL_WITH_CAPTURE@) }
}

/// Puts the capture call into the text of the Wasmtime runner.
pub fn modify_wasmtime_runner(content: &[u8]) -> (modified: Result<Vec<u8>, NoModification>)
    ensures
        match modified {
            Ok(out) => wasmtime_runner_edit().apply(content@) == Some(out@),
            Err(_) => wasmtime_runner_edit().apply(content@).is_none(),
        },
{
    let operation = FileOperation::ReplaceText {
        pattern: String::from_str(WASMTIME_CALL),
        replacement: String::from_str(WASMTIME_CALL_WITH_CAPTURE),
    };
    modify_file(content, operation)
}

/// The change to the import table: the capture import goes after every line
/// that declares the debug-log import.
pub open spec fn imports_edit() -> Edit {
    Edit::AddAfter { pattern: encode_utf8(IMPORTS_ANCHOR@), new_line: encode_utf8(IMPORTS_CAPTURE@) }
}

/// Declares the capture import in the text of the import table.
pub fn modify_imports(content: &[u8]) -> (modified: Result<Vec<u8>, NoModification>)
    ensures
        match modified {
            Ok(out) => imports_edit().apply(content@) == Some(out@),
            Err(_) => imports_edit().apply(content@).is_none(),
        },
{
    let operation = FileOperation::AddAfter {
        pattern: String::from_str(IMPORTS_ANCHOR),
        new_line: String::from_str(IMPORTS_CAPTURE),
    };
    modify_file(content, operation)
}

/// The change to the host logic: the capture host function goes before every
/// line that opens the `panic` host function.
pub open spec fn logic_edit() -> Edit {
    Edit::AddBefore { pattern: encode_utf8(LOGIC_ANCHOR@), new_line: encode_utf8(LOGIC_CAPTURE@) }
}

/// Puts the capture host function into the text of the host logic.
pub fn modify_logic(content: &[u8]) -> (modified: Result<Vec<u8>, NoModification>)
    ensures
        match modified {
            Ok(out) => logic_edit().apply(content@) == Some(out@),
            Err(_) => logic_edit().apply(content@).is_none(),
        },
{
    let operation = FileOperation::AddBefore {
        pattern: String::from_str(LOGIC_ANCHOR),
        new_line: String::from_str(LOGIC_CAPTURE),
    };
    modify_file(content, operation)
}

/// A source file of the sandbox that takes a change.
#[derive(Debug, Clone, Copy, PartialEq, Eq)]
pub enum SourceFile {
    CargoToml,
    NearVmRunner,
    Imports,
    WasmtimeRunner,
    Logic,
}

/// The source files of a checkout of the sandbox.
pub struct NearcoreSources {
    pub cargo_toml: Source,
    pub near_vm_runner: Source,
    pub imports: Source,
    pub wasmtime_runner: Source,
    pub logic: Source,
}

/// Why the sources could not take every change.
#[derive(Debug, Clone, Copy, PartialEq, Eq)]
pub enum PatchError {
    /// The file is missing. Nothing is to be written.
    NotFound(SourceFile),
    /// The file could not be read or holds no line to change.
    NotModified(SourceFile),
}

/// The new text of one source file.
pub struct FileWrite {
    pub file: SourceFile,
    pub content: Vec<u8>,
}

/// The files to write, in the order in which to write them, and whether
/// every change was made.
pub struct NearcorePatch {
    pub writes: Vec<FileWrite>,
    pub result: Result<(), PatchError>,
}

/// The writes of a list, each as the file and its new bytes.
pub open spec fn writes_view(writes: Seq<FileWrite>) -> Seq<(SourceFile, Seq<u8>)> {
    Seq::new(writes.len(), |i: int| (writes[i].file, writes[i].content@))
}

/// The change that `file` takes.
pub open spec fn edit_for(file: SourceFile) -> Edit {
    match file {
        SourceFile::CargoToml => cargo_toml_edit(),
        SourceFile::NearVmRunner => near_vm_runner_edit(),
        SourceFile::Imports => imports_edit(),
        SourceFile::WasmtimeRunner => wasmtime_runner_edit(),
        SourceFile::Logic => logic_edit(),
    }
}

/// The new text of `file`: nothing where the file was not read or holds no
/// line to change.
pub open spec fn edited(file: SourceFile, source: Option<Seq<u8>>) -> Option<Seq<u8>> {
    match source {
        Some(text) => edit_for(file).apply(text),
        None => None,
    }
}

/// The writes in `done` and then the new text of each of `files` in turn, up
/// to the first that has none, with that file where there is one.
pub open spec fn patch_from(
    done: Seq<(SourceFile, Seq<u8>)>,
    files: Seq<(SourceFile, Option<Seq<u8>>)>,
) -> (Seq<(SourceFile, Seq<u8>)>, Option<SourceFile>)
    decreases files.len(),
{
    if files.len() == 0 {
        (done, None)
    } else {
        match edited(files[0].0, files[0].1) {
            Some(text) => patch_from(done.push((files[0].0, text)), files.drop_first()),
            None => (done, Some(files[0].0)),
        }
    }
}

impl NearcoreSources {
    /// The first source that is missing, in the order VM runner, import
    /// table, Wasmtime runner, host logic, workspace manifest.
    pub open spec fn first_missing(&self) -> Option<SourceFile> {
        if self.near_vm_runner is Missing {
            Some(SourceFile::NearVmRunner)
        } else if self.imports is Missing {
            Some(SourceFile::Imports)
        } else if self.wasmtime_runner is Missing {
            Some(SourceFile::WasmtimeRunner)
        } else if self.logic is Missing {
            Some(SourceFile::Logic)
        } else if self.cargo_toml is Missing {
            Some(SourceFile::CargoToml)
        } else {
            None
        }
    }

    /// The sources in the order in which they are changed.
    pub open spec fn in_order(&self) -> Seq<(SourceFile, Option<Seq<u8>>)> {
        seq![
            (SourceFile::CargoToml, self.cargo_toml@),
            (SourceFile::NearVmRunner, self.near_vm_runner@),
            (SourceFile::Imports, self.imports@),
            (SourceFile::Logic, self.logic@),
            (SourceFile::WasmtimeRunner, self.wasmtime_runner@),
        ]
    }

    /// The writes that the changes come to, and the outcome: no write and
    /// the missing file where a source is missing; else the writes up to the
    /// first source that does not take its change, with that file where
    /// there is one.
    pub open spec fn patch(&self) -> (Seq<(SourceFile, Seq<u8>)>, Result<(), PatchError>) {
        match self.first_missing() {
            Some(file) => (Seq::empty(), Err(PatchError::NotFound(file))),
            None => {
                let (writes, failed) = patch_from(Seq::empty(), self.in_order());
                match failed {
                    Some(file) => (writes, Err(PatchError::NotModified(file))),
                    None => (writes, Ok(())),
                }
            },
        }
    }
}

/// A source that holds no line to change is a failure: where the sources
/// are all there and one of them does not take its change, the outcome names
/// the first such file, and where that is the workspace manifest nothing is
/// written.
pub proof fn lemma_missing_anchor_fails(sources: NearcoreSources)
    requires
        sources.first_missing().is_none(),
    ensures
        edited(SourceFile::CargoToml, sources.cargo_toml@).is_none() ==> sources.patch() == (
            Seq::<(SourceFile, Seq<u8>)>::empty(),
            Err::<(), PatchError>(PatchError::NotModified(SourceFile::CargoToml)),
        ),
        (exists|i: int|
            0 <= i < 5 && edited(
                (#[trigger] sources.in_order()[i]).0,
                sources.in_order()[i].1,
            ).is_none()) ==> sources.patch().1.is_err(),
{
    let all = sources.in_order();
    if exists|i: int| 0 <= i < 5 && edited((#[trigger] all[i]).0, all[i].1).is_none() {
        let i = choose|i: int| 0 <= i < 5 && edited((#[trigger] all[i]).0, all[i].1).is_none();
        lemma_patch_from_fails(Seq::empty(), all, i);
    }
}

/// Where one of `files` does not take its change, the sequence of changes
/// ends with a failure.
pub proof fn lemma_patch_from_fails(
    done: Seq<(SourceFile, Seq<u8>)>,
    files: Seq<(SourceFile, Option<Seq<u8>>)>,
    i: int,
)
    requires
        0 <= i < files.len(),
        edited(files[i].0, files[i].1).is_none(),
    ensures
        patch_from(done, files).1.is_some(),
    decreases files.len(),
{
    if i > 0 {
        match edited(files[0].0, files[0].1) {
            Some(text) => {
                assert(files.drop_first()[i - 1] == files[i]);
                lemma_patch_from_fails(done.push((files[0].0, text)), files.drop_first(), i - 1);
            },
            None => {},
        }
    }
}

/// Makes the change that `file` takes to `source`.
fn edit_source(file: SourceFile, source: &Source) -> (text: Option<Vec<u8>>)
    ensures
        match text {
            Some(out) => edited(file, source@) == Some(out@),
            None => edited(file, source@).is_none(),
        },
{
    match source {
        Source::Text(content) => {
            let modified = match file {
                SourceFile::CargoToml => modify_cargo_toml(content.as_slice()),
                SourceFile::NearVmRunner => modify_near_vm_runner(content.as_slice()),
                SourceFile::Imports => modify_imports(content.as_slice()),
                SourceFile::WasmtimeRunner => modify_wasmtime_runner(content.as_slice()),
                SourceFile::Logic => modify_logic(content.as_slice()),
            };
            match modified {
                Ok(out) => Some(out),
                Err(_) => None,
            }
        },
        _ => None,
    }
}

/// Adds coverage capture to the sources of the sandbox. Where one of the
/// five sources is missing, nothing is written. Else the workspace manifest,
/// the VM runner, the import table, the host logic and the Wasmtime runner
/// are changed in turn, up to the first that does not take its change, which
/// is a failure: what was changed before it is still to be written.
pub fn add_wasmcov_to_nearcore(sources: &NearcoreSources) -> (patch: NearcorePatch)
    ensures
        writes_view(patch.writes@) == sources.patch().0,
        patch.result == sources.patch().1,
{
    let mut writes: Vec<FileWrite> = Vec::new();
    proof {
        assert(writes_view(writes@) =~= Seq::empty());
    }
    if let Source::Missing = sources.near_vm_runner {
        return NearcorePatch { writes, result: Err(PatchError::NotFound(SourceFile::NearVmRunner)) };
    }
    if let Source::Missing = sources.imports {
        return NearcorePatch { writes, result: Err(PatchError::NotFound(SourceFile::Imports)) };
    }
    if let Source::Missing = sources.wasmtime_runner {
        return NearcorePatch {
            writes,
            result: Err(PatchError::NotFound(SourceFile::WasmtimeRunner)),
        };
    }
    if let Source::Missing = sources.logic {
        return NearcorePatch { writes, result: Err(PatchError::NotFound(SourceFile::Logic)) };
    }
    if let Source::Missing = sources.cargo_toml {
        return NearcorePatch { writes, result: Err(PatchError::NotFound(SourceFile::CargoToml)) };
    }
    let ghost all = sources.in_order();
    let order: [SourceFile; 5] = [
        SourceFile::CargoToml,
        SourceFile::NearVmRunner,
        SourceFile::Imports,
        SourceFile::Logic,
        SourceFile::WasmtimeRunner,
    ];
    let mut i: usize = 0;
    proof {
        assert(all.subrange(0, 5) =~= all);
    }
    while i < 5
        invariant
            i <= 5,
            all == sources.in_order(),
            sources.first_missing().is_none(),
            forall|k: int| 0 <= k < 5 ==> order[k] == (#[trigger] all[k]).0,
            patch_from(Seq::empty(), all) == patch_from(
                writes_view(writes@),
                all.subrange(i as int, 5),
            ),
        decreases 5 - i,
    {
        let file = order[i];
        let source: &Source = match file {
            SourceFile::CargoToml => &sources.cargo_toml,
            SourceFile::NearVmRunner => &sources.near_vm_runner,
            SourceFile::Imports => &sources.imports,
            SourceFile::Logic => &sources.logic,
            SourceFile::WasmtimeRunner => &sources.wasmtime_runner,
        };
        let ghost rest = all.subrange(i as int, 5);
        let ghost before = writes_view(writes@);
        proof {
            assert(rest[0] == all[i as int]);
            assert(rest[0] == (file, source@));
            assert(rest.drop_first() =~= all.subrange(i + 1, 5));
        }
        match edit_source(file, source) {
            Some(content) => {
                writes.push(FileWrite { file, content });
                proof {
                    assert(writes_view(writes@) =~= before.push((file, content@)));
                }
            },
            None => {
                proof {
                    assert(patch_from(before, rest) == (before, Some(file)));
                }
                return NearcorePatch { writes, result: Err(PatchError::NotModified(file)) };
            },
        }
        i += 1;
    }
    proof {
        assert(all.subrange(5, 5) =~= Seq::empty());
    }
    NearcorePatch { writes, result: Ok(()) }
}

/// The version of the sandbox that is set up where none is asked for.
pub const DEFAULT_VERSION: &'static str = "1.35.0";

/// The repository of the sandbox sources.
pub const NEARCORE_REPOSITORY: &'static str = "https://github.com/near/nearcore";

/// The version to set up: the default one where `version` is empty.
pub open spec fn effective_version(version: Seq<char>) -> Seq<char> {
    if version.len() == 0 {
        DEFAULT_VERSION@
    } else {
        version
    }
}

/// The sandbox can be set up in the version whose text has the bytes
/// `version`: its major number is 1 and its minor number at least 34.
pub open spec fn is_supported(version: Seq<u8>) -> bool {
    number_or_zero(major_field(version)) == 1 && number_or_zero(minor_field(version)) >= 34
}

/// The version is older than the first that takes the changes, or no
/// version at all.
#[derive(Debug, Clone, Copy, PartialEq, Eq)]
pub struct UnsupportedVersion;

/// The places and commands of a setup of the sandbox.
pub struct SandboxSetup {
    /// The version that is set up.
    pub version: String,
    /// Where the sandbox binary is kept.
    pub neard_path: String,
    /// Where the sources are checked out.
    pub repository_dir: String,
    /// Checks out the sources.
    pub clone: CommandLine,
    /// Updates a locked dependency; runs in the checkout.
    pub update: CommandLine,
    /// Builds the sandbox binary; runs in the checkout.
    pub build: CommandLine,
    /// Where the build leaves the binary.
    pub built_binary: String,
    /// Runs the kept binary once to see that it works.
    pub check: CommandLine,
}

impl SandboxSetup {
    /// The setup is that of `version` below `dir`: the binary is kept as
    /// `neard-` and the version, the sources are checked out into a
    /// directory named by the version, and built there with the sandbox
    /// feature under the dev-release profile.
    pub open spec fn sets_up(&self, dir: Seq<char>, version: Seq<char>) -> bool {
        let target = join_spec(self.repository_dir@, "target"@);
        &&& self.version@ == version
        &&& self.neard_path@ == join_spec(dir, "neard-"@ + version)
        &&& self.repository_dir@ == join_spec(dir, version)
        &&& self.clone@ == (
            "git"@,
            seq![
                "clone"@,
                "--depth=1"@,
                "--branch"@,
                version,
                NEARCORE_REPOSITORY@,
                self.repository_dir@,
            ],
        )
        &&& self.update@ == ("cargo"@, seq!["update"@, "-p"@, "librocksdb-sys"@])
        &&& self.build@ == (
            "cargo"@,
            seq![
                "build"@,
                "-p"@,
                "neard"@,
                "--locked"@,
                "--features"@,
                "sandbox"@,
                "--profile"@,
                "dev-release"@,
                "--target-dir"@,
                target,
            ],
        )
        &&& self.built_binary@ == join_spec(join_spec(target, "dev-release"@), "neard"@)
        &&& self.check@ == (self.neard_path@, seq!["--version"@])
    }
}

/// Lays out the setup of the sandbox in `version`, or in the default
/// version where `version` is empty, below `dir`. Fails where that version
/// is not supported.
pub fn setup_near_sandbox(dir: &str, version: &str) -> (setup: Result<
    SandboxSetup,
    UnsupportedVersion,
>)
    ensures
        match setup {
            Ok(s) => is_supported(vstd::utf8::encode_utf8(effective_version(version@)))
                && s.sets_up(dir@, effective_version(version@)),
            Err(_) => !is_supported(vstd::utf8::encode_utf8(effective_version(version@))),
        },
{
    let version: &str = if version.unicode_len() == 0 {
        DEFAULT_VERSION
    } else {
        version
    };
    let (major, minor) = version_numbers(version);
    if major != 1 || minor < 34 {
        return Err(UnsupportedVersion);
    }
    let mut binary_name = String::from_str("neard-");
    binary_name.append(version);
    let neard_path = join_path(dir, binary_name.as_str());
    let repository_dir = join_path(dir, version);
    let target = join_path(repository_dir.as_str(), "target");
    let profile_dir = join_path(target.as_str(), "dev-release");
    let built_binary = join_path(profile_dir.as_str(), "neard");

    let mut clone_args: Vec<String> = Vec::new();
    clone_args.push(String::from_str("clone"));
    clone_args.push(String::from_str("--depth=1"));
    clone_args.push(String::from_str("--branch"));
    clone_args.push(String::from_str(version));
    clone_args.push(String::from_str(NEARCORE_REPOSITORY));
    clone_args.push(repository_dir.clone());
    let clone = CommandLine { program: String::from_str("git"), args: clone_args };

    let mut update_args: Vec<String> = Vec::new();
    update_args.push(String::from_str("update"));
    update_args.push(String::from_str("-p"));
    update_args.push(String::from_str("librocksdb-sys"));
    let update = CommandLine { program: String::from_str("cargo"), args: update_args };

    let mut build_args: Vec<String> = Vec::new();
    build_args.push(String::from_str("build"));
    build_args.push(String::from_str("-p"));
    build_args.push(String::from_str("neard"));
    build_args.push(String::from_str("--locked"));
    build_args.push(String::from_str("--features"));
    build_args.push(String::from_str("sandbox"));
    build_args.push(String::from_str("--profile"));
    build_args.push(String::from_str("dev-release"));
    build_args.push(String::from_str("--target-dir"));
    build_args.push(target);
    let build = CommandLine { program: String::from_str("cargo"), args: build_args };

    let mut check_args: Vec<String> = Vec::new();
    check_args.push(String::from_str("--version"));
    let check = CommandLine { program: neard_path.clone(), args: check_args };
    proof {
        assert(strs(clone.args@) =~= seq![
            "clone"@,
            "--depth=1"@,
            "--branch"@,
            version@,
            NEARCORE_REPOSITORY@,
            repository_dir@,
        ]);
        assert(strs(update.args@) =~= seq!["update"@, "-p"@, "librocksdb-sys"@]);
        assert(strs(build.args@) =~= seq![
            "build"@,
            "-p"@,
            "neard"@,
            "--locked"@,
            "--features"@,
            "sandbox"@,
            "--profile"@,
            "dev-release"@,
            "--target-dir"@,
            join_spec(repository_dir@, "target"@),
        ]);
        assert(strs(check.args@) =~= seq!["--version"@]);
    }
    Ok(
        SandboxSetup {
            version: String::from_str(version),
            neard_path,
            repository_dir,
            clone,
            update,
            build,
            built_binary,
            check,
        },
    )
}

/// A step of the setup of the sandbox.
#[derive(Debug, Clone, Copy, PartialEq, Eq)]
pub enum SetupStep {
    /// Make the directory of the sandbox where it is not there.
    CreateDir,
    /// Look for the kept binary.
    FindBinary,
    /// Look for the checkout.
    FindRepository,
    /// Check out the sources.
    Clone,
    /// Add coverage capture to the sources.
    Patch,
    /// Update the locked dependency.
    Update,
    /// Build the binary.
    Build,
    /// Copy the built binary to where it is kept.
    Install,
    /// Run the kept binary once.
    Check,
    /// Remove the checkout.
    RemoveRepository,
    /// Nothing is left to do: the binary is where it is kept.
    Done,
}

impl SetupStep {
    /// The step that follows this one. `found` is what a search found and
    /// has no weight after another step: a binary that is there ends the
    /// setup, and a checkout that is there is neither made nor changed
    /// again.
    pub open spec fn next(self, found: bool) -> SetupStep {
        match self {
            SetupStep::CreateDir => SetupStep::FindBinary,
            SetupStep::FindBinary => if found {
                SetupStep::Done
            } else {
                SetupStep::FindRepository
            },
            SetupStep::FindRepository => if found {
                SetupStep::Update
            } else {
                SetupStep::Clone
            },
            SetupStep::Clone => SetupStep::Patch,
            SetupStep::Patch => SetupStep::Update,
            SetupStep::Update => SetupStep::Build,
            SetupStep::Build => SetupStep::Install,
            SetupStep::Install => SetupStep::Check,
            SetupStep::Check => SetupStep::RemoveRepository,
            SetupStep::RemoveRepository => SetupStep::Done,
            SetupStep::Done => SetupStep::Done,
        }
    }

    /// The number of steps that are left at most.
    pub open spec fn remaining(self) -> nat {
        match self {
            SetupStep::CreateDir => 10,
            SetupStep::FindBinary => 9,
            SetupStep::FindRepository => 8,
            SetupStep::Clone => 7,
            SetupStep::Patch => 6,
            SetupStep::Update => 5,
            SetupStep::Build => 4,
            SetupStep::Install => 3,
            SetupStep::Check => 2,
            SetupStep::RemoveRepository => 1,
            SetupStep::Done => 0,
        }
    }

    /// Moves on to the step that follows this one once it is done.
    pub fn advance(self, found: bool) -> (step: SetupStep)
        ensures
            step == self.next(found),
    {
        match self {
            SetupStep::CreateDir => SetupStep::FindBinary,
            SetupStep::FindBinary => if found {
                SetupStep::Done
            } else {
                SetupStep::FindRepository
            },
            SetupStep::FindRepository => if found {
                SetupStep::Update
            } else {
                SetupStep::Clone
            },
            SetupStep::Clone => SetupStep::Patch,
            SetupStep::Patch => SetupStep::Update,
            SetupStep::Update => SetupStep::Build,
            SetupStep::Build => SetupStep::Install,
            SetupStep::Install => SetupStep::Check,
            SetupStep::Check => SetupStep::RemoveRepository,
            SetupStep::RemoveRepository => SetupStep::Done,
            SetupStep::Done => SetupStep::Done,
        }
    }
}

/// The setup comes to an end: every step but the last leaves fewer steps
/// to do.
pub proof fn lemma_setup_ends(step: SetupStep, found: bool)
    ensures
        step != SetupStep::Done ==> step.next(found).remaining() < step.remaining(),
        step.remaining() == 0 <==> step == SetupStep::Done,
{
}

/// The paths below the checkout under which `file` is looked for, in this
/// order.
pub open spec fn source_paths(file: SourceFile) -> Seq<Seq<char>> {
    match file {
        SourceFile::CargoToml => seq!["Cargo.toml"@],
        SourceFile::NearVmRunner => seq![
            "runtime/near-vm-runner/src/near_vm_runner.rs"@,
            "runtime/near-vm-runner/src/near_vm_runner/runner.rs"@,
        ],
        SourceFile::Imports => seq!["runtime/near-vm-runner/src/imports.rs"@],
        SourceFile::WasmtimeRunner => seq!["runtime/near-vm-runner/src/wasmtime_runner.rs"@],
        SourceFile::Logic => seq![
            "runtime/near-vm-runner/src/logic/logic.rs"@,
            "runtime/near-vm-logic/src/logic.rs"@,
        ],
    }
}

/// The paths below the checkout under which `file` is looked for.
pub fn source_alternatives(file: SourceFile) -> (paths: Vec<&'static str>)
    ensures
        paths@.len() == source_paths(file).len(),
        forall|i: int| 0 <= i < paths@.len() ==> (#[trigger] paths@[i])@ == source_paths(file)[i],
{
    let mut paths: Vec<&'static str> = Vec::new();
    match file {
        SourceFile::CargoToml => {
            paths.push("Cargo.toml");
        },
        SourceFile::NearVmRunner => {
            paths.push("runtime/near-vm-runner/src/near_vm_runner.rs");
            paths.push("runtime/near-vm-runner/src/near_vm_runner/runner.rs");
        },
        SourceFile::Imports => {
            paths.push("runtime/near-vm-runner/src/imports.rs");
        },
        SourceFile::WasmtimeRunner => {
            paths.push("runtime/near-vm-runner/src/wasmtime_runner.rs");
        },
        SourceFile::Logic => {
            paths.push("runtime/near-vm-runner/src/logic/logic.rs");
            paths.push("runtime/near-vm-logic/src/logic.rs");
        },
    }
    paths
}

} // verus!
