//! Preparing the artifacts of an instrumented build.

use crate::ir::{find_body_end, is_header_at, line_stop, neutralize, stub, STUB};
use crate::paths::{
    dir_prefix, dir_prefix_spec, ends_with, ends_with_spec, file_name, file_name_spec, file_stem,
    file_stem_spec, join_path, join_spec,
};
use crate::text::{contains, contains_seq, push_range};
use crate::utils::{strs, CommandLine};
use vstd::prelude::*;
use vstd::string::{StringExecFns, StringSliceAdditionalSpecFns};

verus! {

/// Replaces the body of every function definition in the LLVM IR text
/// `content` by a stub that cannot be run, and leaves the headers and all
/// other lines as they are.
pub fn correct_ll_file(content: &[u8]) -> (out: Vec<u8>)
    ensures
        out@ == neutralize(content@),
{
    let mut out: Vec<u8> = Vec::new();
    let mut pos: usize = 0;
    proof {
        assert(content@.subrange(0, content.len() as int) =~= content@);
        assert(out@ + neutralize(content@) =~= neutralize(content@));
    }
    while pos < content.len()
        invariant
            pos <= content.len(),
            neutralize(content@) == out@ + neutralize(
                content@.subrange(pos as int, content.len() as int),
            ),
        decreases content.len() - pos,
    {
        let ghost rest = content@.subrange(pos as int, content.len() as int);
        let ghost before = out@;
        let stop = line_stop(content, pos);
        let ghost line = rest.subrange(0, stop - pos);
        let ghost after = rest.subrange(stop - pos, rest.len() as int);
        proof {
            assert(line =~= content@.subrange(pos as int, stop as int));
            assert(after =~= content@.subrange(stop as int, content.len() as int));
        }
        if is_header_at(content, pos, stop) {
            match find_body_end(content, stop) {
                Some(end) => {
                    push_range(&mut out, content, pos, stop);
                    push_stub(&mut out);
                    proof {
                        let tail = after.subrange(end - stop, after.len() as int);
                        assert(tail =~= content@.subrange(end as int, content.len() as int));
                        assert(out@ + neutralize(tail) =~= before + (line + stub() + neutralize(
                            tail,
                        )));
                    }
                    pos = end;
                },
                None => {
                    push_range(&mut out, content, pos, content.len());
                    proof {
                        assert(neutralize(rest) == rest);
                        assert(content@.subrange(content.len() as int, content.len() as int)
                            =~= Seq::<u8>::empty());
                        assert(out@ + neutralize(Seq::<u8>::empty()) =~= before + rest);
                    }
                    pos = content.len();
                },
            }
        } else {
            push_range(&mut out, content, pos, stop);
            proof {
                assert(out@ + neutralize(after) =~= before + (line + neutralize(after)));
            }
            pos = stop;
        }
    }
    proof {
        assert(content@.subrange(pos as int, content.len() as int) =~= Seq::<u8>::empty());
        assert(out@ + Seq::<u8>::empty() =~= out@);
    }
    out
}

/// Appends the stub body to `out`.
fn push_stub(out: &mut Vec<u8>)
    ensures
        final(out)@ == old(out)@ + stub(),
{
    let text = STUB.as_bytes();
    push_range(out, text, 0, text.len());
    proof {
        assert(text@.subrange(0, text.len() as int) =~= text@);
    }
}

/// The name of the function that the profiling runtime puts into every
/// instrumented module.
pub const COVERAGE_MARKER: &'static str = "__llvm_profile_init";

/// The compiler flags of an instrumented build, in their order.
pub open spec fn build_flags() -> Seq<Seq<char>> {
    seq![
        "--emit=llvm-ir"@,
        "-Cinstrument-coverage"@,
        "-Clto=off"@,
        "-Zlocation-detail=none"@,
        "-Zno-profiler-runtime"@,
    ]
}

/// The compiler flags of an instrumented build: the IR is written out, the
/// coverage counters are put in, and the profiling runtime is left out.
pub fn get_build_flags() -> (flags: Vec<&'static str>)
    ensures
        flags@.len() == build_flags().len(),
        forall|i: int| 0 <= i < flags@.len() ==> (#[trigger] flags@[i])@ == build_flags()[i],
{
    let mut flags: Vec<&'static str> = Vec::new();
    flags.push("--emit=llvm-ir");
    flags.push("-Cinstrument-coverage");
    flags.push("-Clto=off");
    flags.push("-Zlocation-detail=none");
    flags.push("-Zno-profiler-runtime");
    flags
}

/// The pattern of the compiled modules below `dir`: the files with the
/// extension `.wasm` in a directory `deps` at any depth.
pub fn wasm_pattern(dir: &str) -> (pattern: String)
    ensures
        pattern@ == dir@ + "/**/deps/*.wasm"@,
{
    let mut pattern = String::from_str(dir);
    pattern.append("/**/deps/*.wasm");
    pattern
}

/// `path` names a compiled module: a file with the extension `.wasm` in a
/// directory named `deps`.
pub open spec fn is_module_path(path: Seq<char>) -> bool {
    &&& ends_with_spec(file_name_spec(path), ".wasm"@)
    &&& (dir_prefix_spec(path) == "deps/"@ || ends_with_spec(dir_prefix_spec(path), "/deps/"@))
}

/// Tells whether `path` names a compiled module.
pub fn has_module_path(path: &str) -> (module: bool)
    ensures
        module == is_module_path(path@),
{
    let name = file_name(path);
    if !ends_with(name.as_str(), ".wasm") {
        return false;
    }
    let dir = dir_prefix(path);
    dir == String::from_str("deps/") || ends_with(dir.as_str(), "/deps/")
}

/// `content` holds the marker of an instrumented module.
pub open spec fn is_instrumented(content: Seq<u8>) -> bool {
    contains_seq(content, COVERAGE_MARKER.spec_bytes())
}

/// Tells whether the bytes of a module hold the marker of instrumentation.
pub fn has_coverage_marker(content: &[u8]) -> (marked: bool)
    ensures
        marked == is_instrumented(content@),
{
    contains(content, COVERAGE_MARKER.as_bytes())
}

/// A compiled module that was found: its path and its bytes.
pub struct WasmCandidate {
    pub path: String,
    pub content: Vec<u8>,
}

/// The candidates of a list, each as its path and its bytes.
pub open spec fn candidates_view(candidates: Seq<WasmCandidate>) -> Seq<(Seq<char>, Seq<u8>)> {
    Seq::new(candidates.len(), |i: int| (candidates[i].path@, candidates[i].content@))
}

/// The candidate is an instrumented module: its path names a compiled
/// module and its bytes hold the marker.
pub open spec fn qualifies(candidate: (Seq<char>, Seq<u8>)) -> bool {
    is_module_path(candidate.0) && is_instrumented(candidate.1)
}

/// The paths of the instrumented modules among `candidates`, in their
/// order.
pub open spec fn instrumented_paths(candidates: Seq<(Seq<char>, Seq<u8>)>) -> Seq<Seq<char>>
    decreases candidates.len(),
{
    if candidates.len() == 0 {
        Seq::empty()
    } else if qualifies(candidates[0]) {
        seq![candidates[0].0] + instrumented_paths(candidates.drop_first())
    } else {
        instrumented_paths(candidates.drop_first())
    }
}

/// `path` is that of a candidate that is an instrumented module.
pub open spec fn marked_path(candidates: Seq<(Seq<char>, Seq<u8>)>, path: Seq<char>) -> bool {
    exists|i: int|
        0 <= i < candidates.len() && (#[trigger] candidates[i]).0 == path && qualifies(
            candidates[i],
        )
}

/// Every path among the instrumented ones is that of a candidate that is
/// an instrumented module, and there is none where no candidate is one.
pub proof fn lemma_instrumented_paths(candidates: Seq<(Seq<char>, Seq<u8>)>)
    ensures
        forall|k: int|
            0 <= k < instrumented_paths(candidates).len() ==> marked_path(
                candidates,
                #[trigger] instrumented_paths(candidates)[k],
            ),
        (forall|i: int| 0 <= i < candidates.len() ==> !qualifies(#[trigger] candidates[i]))
            ==> instrumented_paths(candidates).len() == 0,
    decreases candidates.len(),
{
    if candidates.len() > 0 {
        let tail = candidates.drop_first();
        lemma_instrumented_paths(tail);
        let paths = instrumented_paths(candidates);
        assert forall|k: int| 0 <= k < paths.len() implies marked_path(
            candidates,
            #[trigger] paths[k],
        ) by {
            if qualifies(candidates[0]) && k == 0 {
                assert(candidates[0].0 == paths[0]);
            } else {
                let kk = if qualifies(candidates[0]) {
                    k - 1
                } else {
                    k
                };
                assert(instrumented_paths(tail)[kk] == paths[k]);
                assert(marked_path(tail, instrumented_paths(tail)[kk]));
                let i = choose|i: int|
                    0 <= i < tail.len() && (#[trigger] tail[i]).0 == instrumented_paths(tail)[kk]
                        && qualifies(tail[i]);
                assert(candidates[i + 1] == tail[i]);
            }
        }
        if forall|i: int| 0 <= i < candidates.len() ==> !qualifies(#[trigger] candidates[i]) {
            assert(!qualifies(candidates[0]));
            assert forall|i: int| 0 <= i < tail.len() implies !qualifies(#[trigger] tail[i]) by {
                assert(tail[i] == candidates[i + 1]);
            }
        }
    }
}

/// Picks the instrumented modules among `candidates`: the files with the
/// extension `.wasm` in a directory `deps` whose bytes hold the marker, in
/// the order in which they were found. A path is returned only for such a
/// module, and no path where there is none.
pub fn find_wasm_files_with_coverage(candidates: &Vec<WasmCandidate>) -> (paths: Vec<String>)
    ensures
        strs(paths@) == instrumented_paths(candidates_view(candidates@)),
        forall|k: int|
            0 <= k < paths@.len() ==> marked_path(
                candidates_view(candidates@),
                (#[trigger] paths@[k])@,
            ),
        (forall|i: int|
            0 <= i < candidates@.len() ==> !qualifies(
                #[trigger] candidates_view(candidates@)[i],
            )) ==> paths@.len() == 0,
{
    let ghost all = candidates_view(candidates@);
    let mut paths: Vec<String> = Vec::new();
    let mut i: usize = 0;
    proof {
        assert(all.subrange(0, all.len() as int) =~= all);
        assert(strs(paths@) + instrumented_paths(all) =~= instrumented_paths(all));
    }
    while i < candidates.len()
        invariant
            i <= candidates.len(),
            all == candidates_view(candidates@),
            instrumented_paths(all) == strs(paths@) + instrumented_paths(
                all.subrange(i as int, all.len() as int),
            ),
        decreases candidates.len() - i,
    {
        let ghost rest = all.subrange(i as int, all.len() as int);
        let ghost before = strs(paths@);
        proof {
            assert(rest[0] == all[i as int]);
            assert(rest.drop_first() =~= all.subrange(i + 1, all.len() as int));
        }
        if has_module_path(candidates[i].path.as_str()) && has_coverage_marker(
            candidates[i].content.as_slice(),
        ) {
            paths.push(candidates[i].path.clone());
            proof {
                assert(strs(paths@) =~= before.push(candidates[i as int].path@));
                assert(strs(paths@) + instrumented_paths(rest.drop_first()) =~= before
                    + instrumented_paths(rest));
            }
        }
        i += 1;
    }
    proof {
        assert(all.subrange(i as int, all.len() as int) =~= Seq::empty());
        assert(strs(paths@) + Seq::empty() =~= strs(paths@));
        lemma_instrumented_paths(all);
        assert forall|k: int| 0 <= k < paths@.len() implies marked_path(
            all,
            (#[trigger] paths@[k])@,
        ) by {
            assert(strs(paths@)[k] == paths@[k]@);
        }
    }
    paths
}

/// The path of the IR that goes with the module at `wasm_file`: in the same
/// directory, under the same name with the extension `.ll`.
pub open spec fn ll_file_spec(wasm_file: Seq<char>) -> Seq<char> {
    dir_prefix_spec(wasm_file) + file_stem_spec(wasm_file) + ".ll"@
}

/// The path at which the IR of the module at `wasm_file` is looked for.
pub fn ll_file_path(wasm_file: &str) -> (ll_file: String)
    ensures
        ll_file@ == ll_file_spec(wasm_file@),
{
    let mut ll_file = dir_prefix(wasm_file);
    let stem = file_stem(wasm_file);
    ll_file.append(stem.as_str());
    ll_file.append(".ll");
    ll_file
}

/// The module has no IR beside it.
#[derive(Debug, Clone, Copy, PartialEq, Eq)]
pub struct MissingIr;

/// The path of the IR that goes with the module at `wasm_file`, where
/// `ll_exists` says that a file is there.
pub fn find_ll_file(wasm_file: &str, ll_exists: bool) -> (found: Result<String, MissingIr>)
    ensures
        match found {
            Ok(ll_file) => ll_exists && ll_file@ == ll_file_spec(wasm_file@),
            Err(_) => !ll_exists,
        },
{
    if ll_exists {
        Ok(ll_file_path(wasm_file))
    } else {
        Err(MissingIr)
    }
}

/// The arguments of a compilation: the host target, no warning about the
/// target that the module declares, compile only, the object to write and
/// the IR to read.
pub open spec fn compile_args(ll_file: Seq<char>, obj_file: Seq<char>) -> Seq<Seq<char>> {
    seq![
        "--target=x86_64-unknown-linux-gnu"@,
        "-Wno-override-module"@,
        "-c"@,
        "-o"@,
        obj_file,
        ll_file,
    ]
}

/// The command that compiles the IR at `ll_file` to the object `obj_file`
/// with the compiler `clang`.
pub fn compile_ll_file(clang: &str, ll_file: &str, obj_file: &str) -> (command: CommandLine)
    ensures
        command@ == (clang@, compile_args(ll_file@, obj_file@)),
{
    let mut args: Vec<String> = Vec::new();
    args.push(String::from_str("--target=x86_64-unknown-linux-gnu"));
    args.push(String::from_str("-Wno-override-module"));
    args.push(String::from_str("-c"));
    args.push(String::from_str("-o"));
    args.push(String::from_str(obj_file));
    args.push(String::from_str(ll_file));
    proof {
        assert(strs(args@) =~= compile_args(ll_file@, obj_file@));
    }
    CommandLine { program: String::from_str(clang), args }
}

/// What is staged for one module: the stubbed IR at `new_ll_file`, made from
/// the IR at `ll_file`; the object at `obj_file`, which `compile` makes of
/// it; and a copy of the module at `wasm_target`.
pub struct ArtifactPlan {
    pub ll_file: String,
    pub new_ll_file: String,
    pub obj_file: String,
    pub wasm_target: String,
    pub compile: CommandLine,
}

impl ArtifactPlan {
    /// The plan stages the module at `wasm_file` in `target_dir`: the IR
    /// and the module keep their file names, and the object has the name of
    /// the IR with the extension `.o`.
    pub open spec fn stages(
        &self,
        clang: Seq<char>,
        wasm_file: Seq<char>,
        target_dir: Seq<char>,
    ) -> bool {
        &&& self.ll_file@ == ll_file_spec(wasm_file)
        &&& self.new_ll_file@ == join_spec(target_dir, file_name_spec(self.ll_file@))
        &&& self.obj_file@ == join_spec(target_dir, file_stem_spec(self.new_ll_file@) + ".o"@)
        &&& self.wasm_target@ == join_spec(target_dir, file_name_spec(wasm_file))
        &&& self.compile@ == (clang, compile_args(self.new_ll_file@, self.obj_file@))
    }
}

/// Plans the staging of the module at `wasm_file` in `target_dir`.
pub fn plan_artifact(clang: &str, wasm_file: &str, target_dir: &str) -> (plan: ArtifactPlan)
    ensures
        plan.stages(clang@, wasm_file@, target_dir@),
{
    let ll_file = ll_file_path(wasm_file);
    let ll_name = file_name(ll_file.as_str());
    let new_ll_file = join_path(target_dir, ll_name.as_str());
    let mut obj_name = file_stem(new_ll_file.as_str());
    obj_name.append(".o");
    let obj_file = join_path(target_dir, obj_name.as_str());
    let wasm_name = file_name(wasm_file);
    let wasm_target = join_path(target_dir, wasm_name.as_str());
    let compile = compile_ll_file(clang, new_ll_file.as_str(), obj_file.as_str());
    ArtifactPlan { ll_file, new_ll_file, obj_file, wasm_target, compile }
}

/// How the staging of one module ended.
#[derive(Debug, Clone, Copy, PartialEq, Eq)]
pub enum ArtifactOutcome {
    /// The IR, the object and the module are staged.
    Staged,
    /// The module has no IR beside it.
    MissingIr,
    /// The IR could not be read or the stubbed IR not written.
    TransformFailed,
    /// The compiler failed.
    CompileFailed,
    /// The IR is stubbed and compiled, and the module could not be copied.
    CopyFailed,
}

/// A step of the staging of one module.
#[derive(Debug, Clone, Copy, PartialEq, Eq)]
pub enum StageStep {
    /// Write the stubbed IR.
    WriteIr,
    /// Compile the stubbed IR to the object.
    Compile,
    /// Copy the module beside the object.
    CopyModule,
    /// Nothing is left to do for the module.
    Done(ArtifactOutcome),
}

impl StageStep {
    /// The step that follows this one, `ok` saying whether it succeeded: a
    /// failure ends the work on the module with its outcome, and nothing
    /// that would follow is done.
    pub open spec fn next(self, ok: bool) -> StageStep {
        match self {
            StageStep::WriteIr => if ok {
                StageStep::Compile
            } else {
                StageStep::Done(ArtifactOutcome::TransformFailed)
            },
            StageStep::Compile => if ok {
                StageStep::CopyModule
            } else {
                StageStep::Done(ArtifactOutcome::CompileFailed)
            },
            StageStep::CopyModule => if ok {
                StageStep::Done(ArtifactOutcome::Staged)
            } else {
                StageStep::Done(ArtifactOutcome::CopyFailed)
            },
            StageStep::Done(outcome) => StageStep::Done(outcome),
        }
    }

    /// The number of steps that are left at most.
    pub open spec fn remaining(self) -> nat {
        match self {
            StageStep::WriteIr => 3,
            StageStep::Compile => 2,
            StageStep::CopyModule => 1,
            StageStep::Done(_) => 0,
        }
    }

    /// Moves on to the step that follows this one.
    pub fn advance(self, ok: bool) -> (step: StageStep)
        ensures
            step == self.next(ok),
    {
        match self {
            StageStep::WriteIr => if ok {
                StageStep::Compile
            } else {
                StageStep::Done(ArtifactOutcome::TransformFailed)
            },
            StageStep::Compile => if ok {
                StageStep::CopyModule
            } else {
                StageStep::Done(ArtifactOutcome::CompileFailed)
            },
            StageStep::CopyModule => if ok {
                StageStep::Done(ArtifactOutcome::Staged)
            } else {
                StageStep::Done(ArtifactOutcome::CopyFailed)
            },
            StageStep::Done(outcome) => StageStep::Done(outcome),
        }
    }
}

/// The staging of a module comes to an end, a failed step ends it at once,
/// and a module counts as staged only where all three steps succeeded.
pub proof fn lemma_staging_ends(step: StageStep, ok: bool)
    ensures
        !(step is Done) ==> step.next(ok).remaining() < step.remaining(),
        !(step is Done) && !ok ==> step.next(ok) is Done && step.next(ok)
            != StageStep::Done(ArtifactOutcome::Staged),
        step.next(ok) == StageStep::Done(ArtifactOutcome::Staged) ==> (step
            == StageStep::CopyModule && ok) || step == StageStep::Done(ArtifactOutcome::Staged),
{
}

/// The build phase fails as a whole: there are modules, and the compiler
/// failed for every one of them.
pub open spec fn every_compile_failed(outcomes: Seq<ArtifactOutcome>) -> bool {
    outcomes.len() > 0 && forall|i: int|
        0 <= i < outcomes.len() ==> #[trigger] outcomes[i] is CompileFailed
}

/// Tells whether the build phase fails as a whole. A module without IR or
/// with IR that could not be rewritten is passed over; the phase fails only
/// where the compiler failed for every module.
pub fn build_phase_failed(outcomes: &Vec<ArtifactOutcome>) -> (failed: bool)
    ensures
        failed == every_compile_failed(outcomes@),
{
    if outcomes.len() == 0 {
        return false;
    }
    let mut i: usize = 0;
    while i < outcomes.len()
        invariant
            i <= outcomes.len(),
            forall|j: int| 0 <= j < i ==> #[trigger] outcomes[j] is CompileFailed,
        decreases outcomes.len() - i,
    {
        match outcomes[i] {
            ArtifactOutcome::CompileFailed => {},
            _ => {
                return false;
            },
        }
        i += 1;
    }
    true
}

} // verus!
