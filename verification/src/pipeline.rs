//! The two phases of the pipeline: staging the artifacts of a build, and
//! reporting on the profiles that the runs left behind.

use crate::artifacts::{correct_ll_file, has_coverage_marker, has_module_path, plan_artifact};
use crate::artifacts::{qualifies, ArtifactOutcome, ArtifactPlan, StageStep};
use crate::ir::neutralize;
use crate::report::{report_job, report_step_agrees, ReportStep};
use crate::utils::{strs, Source};
use vstd::prelude::*;

verus! {

/// A compiled module that was found in the output of a build: its path, its
/// bytes, and what was found of the IR beside it.
pub struct ModuleInput {
    pub path: String,
    pub content: Vec<u8>,
    pub ir: Source,
}

/// What is to be done for one instrumented module.
pub enum BuildStep {
    /// The module has no IR beside it: it is passed over, and nothing is
    /// staged for it.
    MissingIr { wasm_file: String },
    /// The IR of the module could not be read: it is passed over, and
    /// nothing is staged for it.
    UnreadableIr { wasm_file: String },
    /// The module is staged as `plan` says; `stubbed` is the text of the IR
    /// to write.
    Stage { wasm_file: String, plan: ArtifactPlan, stubbed: Vec<u8> },
}

/// An IR text, or why there is none.
pub enum Ir {
    Missing,
    Unreadable,
    Text(Seq<u8>),
}

/// What was found of an IR.
pub open spec fn ir_of(source: Source) -> Ir {
    match source {
        Source::Missing => Ir::Missing,
        Source::Unreadable => Ir::Unreadable,
        Source::Text(text) => Ir::Text(text@),
    }
}

impl View for ModuleInput {
    type V = (Seq<char>, Seq<u8>, Ir);

    /// The path, the bytes of the module and its IR.
    open spec fn view(&self) -> (Seq<char>, Seq<u8>, Ir) {
        (self.path@, self.content@, ir_of(self.ir))
    }
}

impl View for BuildStep {
    type V = (Seq<char>, Ir);

    /// The module and the text of the IR to write for it, or why there is
    /// none.
    open spec fn view(&self) -> (Seq<char>, Ir) {
        match self {
            BuildStep::MissingIr { wasm_file } => (wasm_file@, Ir::Missing),
            BuildStep::UnreadableIr { wasm_file } => (wasm_file@, Ir::Unreadable),
            BuildStep::Stage { wasm_file, stubbed, .. } => (wasm_file@, Ir::Text(stubbed@)),
        }
    }
}

impl BuildStep {
    /// A step that stages a module has the plan of that module for the
    /// compiler `clang` and the staging directory `target_dir`.
    pub open spec fn planned_for(&self, clang: Seq<char>, target_dir: Seq<char>) -> bool {
        match self {
            BuildStep::Stage { wasm_file, plan, .. } => plan.stages(clang, wasm_file@, target_dir),
            _ => true,
        }
    }

    /// Where the work on the module starts: at its end for a module that is
    /// passed over, without IR or with IR that could not be read; else with
    /// the writing of the stubbed IR.
    pub open spec fn starts_at(&self) -> StageStep {
        match self {
            BuildStep::MissingIr { .. } => StageStep::Done(ArtifactOutcome::MissingIr),
            BuildStep::UnreadableIr { .. } => StageStep::Done(ArtifactOutcome::TransformFailed),
            BuildStep::Stage { .. } => StageStep::WriteIr,
        }
    }

    /// Tells where the work on the module starts.
    pub fn first_step(&self) -> (step: StageStep)
        ensures
            step == self.starts_at(),
    {
        match self {
            BuildStep::MissingIr { .. } => StageStep::Done(ArtifactOutcome::MissingIr),
            BuildStep::UnreadableIr { .. } => StageStep::Done(ArtifactOutcome::TransformFailed),
            BuildStep::Stage { .. } => StageStep::WriteIr,
        }
    }
}

/// The modules of a list as plain values.
pub open spec fn modules_view(modules: Seq<ModuleInput>) -> Seq<(Seq<char>, Seq<u8>, Ir)> {
    Seq::new(modules.len(), |i: int| modules[i]@)
}

/// The steps of a list as plain values.
pub open spec fn steps_view(steps: Seq<BuildStep>) -> Seq<(Seq<char>, Ir)> {
    Seq::new(steps.len(), |i: int| steps[i]@)
}

/// What is to be done for one instrumented module with the IR `ir`: its IR
/// is written with every function body stubbed out, or nothing where it has
/// no IR or its IR could not be read.
pub open spec fn build_step(path: Seq<char>, ir: Ir) -> (Seq<char>, Ir) {
    (
        path,
        match ir {
            Ir::Text(text) => Ir::Text(neutralize(text)),
            other => other,
        },
    )
}

/// The steps of the build phase: one for each instrumented module among
/// `modules`, in their order, and none for a file that is no instrumented
/// module.
pub open spec fn build_steps(modules: Seq<(Seq<char>, Seq<u8>, Ir)>) -> Seq<(Seq<char>, Ir)>
    decreases modules.len(),
{
    if modules.len() == 0 {
        Seq::empty()
    } else if qualifies((modules[0].0, modules[0].1)) {
        seq![build_step(modules[0].0, modules[0].2)] + build_steps(modules.drop_first())
    } else {
        build_steps(modules.drop_first())
    }
}

/// Decides what is to be done for the instrumented module at `wasm_file`,
/// of whose IR `ir` was found, with the compiler `clang` and the staging
/// directory `target_dir`.
pub fn stage_module(clang: &str, wasm_file: &str, ir: &Source, target_dir: &str) -> (step: BuildStep)
    ensures
        step@ == build_step(wasm_file@, ir_of(*ir)),
        step.planned_for(clang@, target_dir@),
{
    match ir {
        Source::Missing => BuildStep::MissingIr { wasm_file: wasm_file.to_owned() },
        Source::Unreadable => BuildStep::UnreadableIr { wasm_file: wasm_file.to_owned() },
        Source::Text(text) => BuildStep::Stage {
            wasm_file: wasm_file.to_owned(),
            plan: plan_artifact(clang, wasm_file, target_dir),
            stubbed: correct_ll_file(text.as_slice()),
        },
    }
}

/// Plans the build phase for the files `modules` that were found in the
/// output of a build: every instrumented module among them is staged in
/// `target_dir` with its IR stubbed out and compiled by `clang`, or passed
/// over where it has no IR or its IR could not be read. The phase goes on
/// after a module that is passed over.
pub fn finalize_build_artifacts(clang: &str, modules: &Vec<ModuleInput>, target_dir: &str) -> (steps:
    Vec<BuildStep>)
    ensures
        steps_view(steps@) == build_steps(modules_view(modules@)),
        forall|k: int| 0 <= k < steps@.len() ==> (#[trigger] steps@[k]).planned_for(clang@, target_dir@),
{
    let ghost all = modules_view(modules@);
    let mut steps: Vec<BuildStep> = Vec::new();
    let mut i: usize = 0;
    proof {
        assert(all.subrange(0, all.len() as int) =~= all);
        assert(steps_view(steps@) + build_steps(all) =~= build_steps(all));
    }
    while i < modules.len()
        invariant
            i <= modules.len(),
            all == modules_view(modules@),
            build_steps(all) == steps_view(steps@) + build_steps(
                all.subrange(i as int, all.len() as int),
            ),
            forall|k: int|
                0 <= k < steps@.len() ==> (#[trigger] steps@[k]).planned_for(clang@, target_dir@),
        decreases modules.len() - i,
    {
        let ghost rest = all.subrange(i as int, all.len() as int);
        let ghost before = steps_view(steps@);
        let module = &modules[i];
        proof {
            assert(rest[0] == module@);
            assert(rest.drop_first() =~= all.subrange(i + 1, all.len() as int));
        }
        if has_module_path(module.path.as_str()) && has_coverage_marker(module.content.as_slice()) {
            let step = stage_module(clang, module.path.as_str(), &module.ir, target_dir);
            steps.push(step);
            proof {
                assert(steps_view(steps@) =~= before.push(step@));
                assert(steps_view(steps@) + build_steps(rest.drop_first()) =~= before + build_steps(
                    rest,
                ));
            }
        }
        i += 1;
    }
    proof {
        assert(all.subrange(i as int, all.len() as int) =~= Seq::empty());
        assert(steps_view(steps@) + Seq::empty() =~= steps_view(steps@));
    }
    steps
}

/// A merged profile, and whether the merge of its binary failed in this
/// run.
pub struct ProfileInput {
    pub path: String,
    pub merge_failed: bool,
}

/// Plans the report phase for the merged profiles `profiles`: for each, in
/// their order, the report to render against the object among the files
/// `objects` that goes with it, or that it is passed over because its merge
/// failed or for want of an object. The phase goes on after a profile that
/// is passed over, and nothing is written for it.
pub fn report_steps(
    llvm_cov: &str,
    profiles: &Vec<ProfileInput>,
    objects: &Vec<String>,
    report_root: &str,
    llvm_cov_args: &Vec<String>,
) -> (steps: Vec<ReportStep>)
    ensures
        steps@.len() == profiles@.len(),
        forall|i: int|
            0 <= i < steps@.len() ==> report_step_agrees(
                #[trigger] steps@[i],
                llvm_cov@,
                profiles@[i].path@,
                profiles@[i].merge_failed,
                strs(objects@),
                report_root@,
                strs(llvm_cov_args@),
            ),
{
    let mut steps: Vec<ReportStep> = Vec::new();
    let mut i: usize = 0;
    while i < profiles.len()
        invariant
            i <= profiles.len(),
            steps@.len() == i,
            forall|k: int|
                0 <= k < i ==> report_step_agrees(
                    #[trigger] steps@[k],
                    llvm_cov@,
                    profiles@[k].path@,
                    profiles@[k].merge_failed,
                    strs(objects@),
                    report_root@,
                    strs(llvm_cov_args@),
                ),
        decreases profiles.len() - i,
    {
        let step = report_job(
            llvm_cov,
            profiles[i].path.as_str(),
            profiles[i].merge_failed,
            objects,
            report_root,
            llvm_cov_args,
        );
        steps.push(step);
        i += 1;
    }
    steps
}

} // verus!
