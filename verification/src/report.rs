//! Merging raw profiles and rendering reports with the LLVM tools.

use crate::paths::{
    ends_with, ends_with_spec, file_name, file_name_spec, file_stem, file_stem_spec, join_path,
    join_spec,
};
use crate::utils::{first_true, lemma_first_true, lemma_first_true_is_true, strs, CommandLine};
use vstd::prelude::*;
use vstd::seq_lib::lemma_multiset_commutative;
use vstd::string::{StrSliceExecFns, StringExecFns};

verus! {

/// Appends copies of the strings of `more` to `out`.
pub fn push_strings(out: &mut Vec<String>, more: &Vec<String>)
    ensures
        strs(final(out)@) == strs(old(out)@) + strs(more@),
{
    let mut i: usize = 0;
    proof {
        assert(strs(out@) =~= strs(old(out)@) + strs(more@.subrange(0, 0)));
    }
    while i < more.len()
        invariant
            i <= more.len(),
            strs(out@) == strs(old(out)@) + strs(more@.subrange(0, i as int)),
        decreases more.len() - i,
    {
        let ghost before = strs(out@);
        out.push(more[i].clone());
        proof {
            assert(strs(out@) =~= before.push(more[i as int]@));
            assert(strs(more@.subrange(0, i + 1)) =~= strs(more@.subrange(0, i as int)).push(
                more[i as int]@,
            ));
        }
        i += 1;
    }
    proof {
        assert(more@.subrange(0, more.len() as int) =~= more@);
    }
}

/// The arguments of a merge: the subcommand, the sparse mode, the raw
/// profiles, the merged profile to write, and then the extra arguments as
/// they are.
pub open spec fn merge_args(
    profraw_files: Seq<Seq<char>>,
    profdata_path: Seq<char>,
    extra: Seq<Seq<char>>,
) -> Seq<Seq<char>> {
    seq!["merge"@, "-sparse"@] + profraw_files + seq!["-o"@, profdata_path] + extra
}

/// The command that merges the raw profiles `profraw_files` into the merged
/// profile at `profdata_path` with the profile tool `llvm_profdata`.
pub fn merge_profraw_to_profdata(
    llvm_profdata: &str,
    profraw_files: &Vec<String>,
    profdata_path: &str,
    llvm_profdata_args: &Vec<String>,
) -> (command: CommandLine)
    ensures
        command@ == (
            llvm_profdata@,
            merge_args(strs(profraw_files@), profdata_path@, strs(llvm_profdata_args@)),
        ),
{
    let mut args: Vec<String> = Vec::new();
    args.push(String::from_str("merge"));
    args.push(String::from_str("-sparse"));
    let ghost head = strs(args@);
    push_strings(&mut args, profraw_files);
    let ghost middle = strs(args@);
    args.push(String::from_str("-o"));
    args.push(String::from_str(profdata_path));
    proof {
        assert(head =~= seq!["merge"@, "-sparse"@]);
        assert(strs(args@) =~= middle + seq!["-o"@, profdata_path@]);
    }
    push_strings(&mut args, llvm_profdata_args);
    CommandLine { program: String::from_str(llvm_profdata), args }
}

/// The order of the raw profiles has no weight in what a merge is asked to
/// read and write: two lists of the same profiles, in whatever order, give
/// commands with the same arguments up to their order, and both name the
/// same merged profile to write, after the raw profiles.
pub proof fn lemma_merge_args_any_order(
    first: Seq<Seq<char>>,
    second: Seq<Seq<char>>,
    profdata_path: Seq<char>,
    extra: Seq<Seq<char>>,
)
    requires
        first.to_multiset() == second.to_multiset(),
    ensures
        merge_args(first, profdata_path, extra).to_multiset() == merge_args(
            second,
            profdata_path,
            extra,
        ).to_multiset(),
        first.len() == second.len(),
        merge_args(first, profdata_path, extra)[first.len() as int + 3] == profdata_path,
        merge_args(second, profdata_path, extra)[second.len() as int + 3] == profdata_path,
{
    let head = seq!["merge"@, "-sparse"@];
    let tail = seq!["-o"@, profdata_path];
    lemma_multiset_commutative(head, first);
    lemma_multiset_commutative(head + first, tail);
    lemma_multiset_commutative(head + first + tail, extra);
    lemma_multiset_commutative(head, second);
    lemma_multiset_commutative(head + second, tail);
    lemma_multiset_commutative(head + second + tail, extra);
    first.to_multiset_ensures();
    second.to_multiset_ensures();
}

/// The arguments of a report: the subcommand, the merged profile, the
/// object, the HTML format, the directory to write to, and then the extra
/// arguments as they are.
pub open spec fn report_args(
    profdata_path: Seq<char>,
    object_file: Seq<char>,
    report_dir: Seq<char>,
    extra: Seq<Seq<char>>,
) -> Seq<Seq<char>> {
    seq![
        "show"@,
        "--instr-profile"@,
        profdata_path,
        object_file,
        "--format=html"@,
        "--output-dir"@,
        report_dir,
    ] + extra
}

/// The command that renders the report of the merged profile at
/// `profdata_path` against `object_file` into `report_dir` with the coverage
/// tool `llvm_cov`.
pub fn generate_report(
    llvm_cov: &str,
    profdata_path: &str,
    object_file: &str,
    report_dir: &str,
    llvm_cov_args: &Vec<String>,
) -> (command: CommandLine)
    ensures
        command@ == (
            llvm_cov@,
            report_args(profdata_path@, object_file@, report_dir@, strs(llvm_cov_args@)),
        ),
{
    let mut args: Vec<String> = Vec::new();
    args.push(String::from_str("show"));
    args.push(String::from_str("--instr-profile"));
    args.push(String::from_str(profdata_path));
    args.push(String::from_str(object_file));
    args.push(String::from_str("--format=html"));
    args.push(String::from_str("--output-dir"));
    args.push(String::from_str(report_dir));
    let ghost head = strs(args@);
    push_strings(&mut args, llvm_cov_args);
    proof {
        assert(head =~= seq![
            "show"@,
            "--instr-profile"@,
            profdata_path@,
            object_file@,
            "--format=html"@,
            "--output-dir"@,
            report_dir@,
        ]);
    }
    CommandLine { program: String::from_str(llvm_cov), args }
}

/// `name` with every hyphen turned into an underscore: the form in which
/// the compiler names the files that it writes for a crate.
pub open spec fn normalize_spec(name: Seq<char>) -> Seq<char> {
    Seq::new(
        name.len(),
        |i: int|
            if name[i] == '-' {
                '_'
            } else {
                name[i]
            },
    )
}

/// Turns every hyphen of `name` into an underscore.
pub fn normalize_name(name: &str) -> (normal: String)
    ensures
        normal@ == normalize_spec(name@),
{
    let len = name.unicode_len();
    let mut normal = String::new();
    let mut i: usize = 0;
    proof {
        reveal_strlit("_");
        assert(normal@ =~= normalize_spec(name@.subrange(0, 0)));
    }
    while i < len
        invariant
            i <= len,
            len == name@.len(),
            "_"@ == seq!['_'],
            normal@ == normalize_spec(name@.subrange(0, i as int)),
        decreases len - i,
    {
        if name.get_char(i) == '-' {
            normal.append("_");
        } else {
            normal.append(name.substring_char(i, i + 1));
        }
        proof {
            assert(normal@ =~= normalize_spec(name@.subrange(0, i + 1)));
        }
        i += 1;
    }
    proof {
        assert(name@.subrange(0, len as int) =~= name@);
    }
    normal
}

/// The file at `path` is an object of the binary `name`: it has the
/// extension `.o`, and its stem is the name up to hyphens and underscores.
pub open spec fn is_object_of(path: Seq<char>, name: Seq<char>) -> bool {
    &&& ends_with_spec(file_name_spec(path), ".o"@)
    &&& normalize_spec(file_stem_spec(path)) == normalize_spec(name)
}

/// For each of `objects`, whether it is an object of the binary `name`.
pub open spec fn object_flags(objects: Seq<Seq<char>>, name: Seq<char>) -> Seq<bool> {
    Seq::new(objects.len(), |i: int| is_object_of(objects[i], name))
}

/// Tells whether the file at `path` is an object of the binary `name`.
pub fn is_object(path: &str, name: &str) -> (object: bool)
    ensures
        object == is_object_of(path@, name@),
{
    let file = file_name(path);
    if !ends_with(file.as_str(), ".o") {
        return false;
    }
    let stem = file_stem(path);
    normalize_name(stem.as_str()) == normalize_name(name)
}

/// Finds the object of the binary `name` among the files `objects`: the
/// first of them that is one. A hyphen and an underscore count as the same,
/// in the name and in the file's name alike.
pub fn find_object(name: &str, objects: &Vec<String>) -> (found: Option<usize>)
    ensures
        match found {
            Some(i) => i < objects@.len() && is_object_of(objects@[i as int]@, name@)
                && (forall|j: int| 0 <= j < i ==> !is_object_of(#[trigger] objects@[j]@, name@))
                && i == first_true(object_flags(strs(objects@), name@)),
            None => (forall|j: int|
                0 <= j < objects@.len() ==> !is_object_of(#[trigger] objects@[j]@, name@))
                && first_true(object_flags(strs(objects@), name@)) == objects@.len(),
        },
{
    let ghost flags = object_flags(strs(objects@), name@);
    let mut i: usize = 0;
    while i < objects.len()
        invariant
            i <= objects.len(),
            flags == object_flags(strs(objects@), name@),
            forall|j: int| 0 <= j < i ==> !is_object_of(#[trigger] objects@[j]@, name@),
        decreases objects.len() - i,
    {
        if is_object(objects[i].as_str(), name) {
            proof {
                assert forall|j: int| 0 <= j < i implies !flags[j] by {
                    assert(!is_object_of(objects@[j]@, name@));
                }
                lemma_first_true(flags, i as int);
            }
            return Some(i);
        }
        i += 1;
    }
    proof {
        assert forall|j: int| 0 <= j < i implies !flags[j] by {
            assert(!is_object_of(objects@[j]@, name@));
        }
        lemma_first_true(flags, i as int);
    }
    None
}

/// The matching of objects takes no side: a name and a file's stem that
/// differ in hyphens and underscores only go together, whichever of them
/// has the hyphens.
pub proof fn lemma_object_matching_takes_no_side(path: Seq<char>, first: Seq<char>, second: Seq<char>)
    requires
        normalize_spec(first) == normalize_spec(second),
    ensures
        is_object_of(path, first) == is_object_of(path, second),
        normalize_spec(normalize_spec(first)) == normalize_spec(first),
{
    assert(normalize_spec(normalize_spec(first)) =~= normalize_spec(first));
}

/// The raw profiles of one binary: the name of its directory in the store
/// of raw profiles, and the paths of the samples in it.
pub struct SampleGroup {
    pub name: String,
    pub samples: Vec<String>,
}

/// One merge to run: the binary, the merged profile to write and the
/// command that writes it.
pub struct MergeJob {
    pub name: String,
    pub profdata_path: String,
    pub command: CommandLine,
}

/// The groups of a list, each as its name and its samples.
pub open spec fn groups_view(groups: Seq<SampleGroup>) -> Seq<(Seq<char>, Seq<Seq<char>>)> {
    Seq::new(groups.len(), |i: int| (groups[i].name@, strs(groups[i].samples@)))
}

/// The jobs of a list, each as the name, the merged profile and the
/// command.
pub open spec fn jobs_view(jobs: Seq<MergeJob>) -> Seq<
    (Seq<char>, Seq<char>, (Seq<char>, Seq<Seq<char>>)),
> {
    Seq::new(jobs.len(), |i: int| (jobs[i].name@, jobs[i].profdata_path@, jobs[i].command@))
}

/// The path of the merged profile of the binary `name` below
/// `profdata_dir`.
pub open spec fn profdata_path_spec(profdata_dir: Seq<char>, name: Seq<char>) -> Seq<char> {
    join_spec(profdata_dir, name + ".profdata"@)
}

/// The merges to run for `groups`: one for each group that has a sample, in
/// the order of the groups, none for a group without samples.
pub open spec fn merge_plan(
    llvm_profdata: Seq<char>,
    groups: Seq<(Seq<char>, Seq<Seq<char>>)>,
    profdata_dir: Seq<char>,
    extra: Seq<Seq<char>>,
) -> Seq<(Seq<char>, Seq<char>, (Seq<char>, Seq<Seq<char>>))>
    decreases groups.len(),
{
    if groups.len() == 0 {
        Seq::empty()
    } else if groups[0].1.len() == 0 {
        merge_plan(llvm_profdata, groups.drop_first(), profdata_dir, extra)
    } else {
        let path = profdata_path_spec(profdata_dir, groups[0].0);
        seq![(groups[0].0, path, (llvm_profdata, merge_args(groups[0].1, path, extra)))]
            + merge_plan(llvm_profdata, groups.drop_first(), profdata_dir, extra)
    }
}

/// Plans the merges of the raw profiles in `groups` into merged profiles
/// below `profdata_dir`, each named after its binary.
pub fn merge_jobs(
    llvm_profdata: &str,
    groups: &Vec<SampleGroup>,
    profdata_dir: &str,
    llvm_profdata_args: &Vec<String>,
) -> (jobs: Vec<MergeJob>)
    ensures
        jobs_view(jobs@) == merge_plan(
            llvm_profdata@,
            groups_view(groups@),
            profdata_dir@,
            strs(llvm_profdata_args@),
        ),
{
    let ghost all = groups_view(groups@);
    let ghost extra = strs(llvm_profdata_args@);
    let mut jobs: Vec<MergeJob> = Vec::new();
    let mut i: usize = 0;
    proof {
        assert(all.subrange(0, all.len() as int) =~= all);
        assert(jobs_view(jobs@) + merge_plan(llvm_profdata@, all, profdata_dir@, extra)
            =~= merge_plan(llvm_profdata@, all, profdata_dir@, extra));
    }
    while i < groups.len()
        invariant
            i <= groups.len(),
            all == groups_view(groups@),
            extra == strs(llvm_profdata_args@),
            merge_plan(llvm_profdata@, all, profdata_dir@, extra) == jobs_view(jobs@) + merge_plan(
                llvm_profdata@,
                all.subrange(i as int, all.len() as int),
                profdata_dir@,
                extra,
            ),
        decreases groups.len() - i,
    {
        let ghost rest = all.subrange(i as int, all.len() as int);
        let ghost before = jobs_view(jobs@);
        let group = &groups[i];
        proof {
            assert(rest[0] == all[i as int]);
            assert(rest.drop_first() =~= all.subrange(i + 1, all.len() as int));
        }
        if group.samples.len() > 0 {
            let mut file = String::from_str(group.name.as_str());
            file.append(".profdata");
            let profdata_path = join_path(profdata_dir, file.as_str());
            let command = merge_profraw_to_profdata(
                llvm_profdata,
                &group.samples,
                profdata_path.as_str(),
                llvm_profdata_args,
            );
            let job = MergeJob { name: group.name.clone(), profdata_path, command };
            jobs.push(job);
            proof {
                assert(jobs_view(jobs@) =~= before.push(
                    (job.name@, job.profdata_path@, job.command@),
                ));
                assert(jobs_view(jobs@) + merge_plan(
                    llvm_profdata@,
                    rest.drop_first(),
                    profdata_dir@,
                    extra,
                ) =~= before + merge_plan(llvm_profdata@, rest, profdata_dir@, extra));
            }
        }
        i += 1;
    }
    proof {
        assert(all.subrange(i as int, all.len() as int) =~= Seq::empty());
        assert(jobs_view(jobs@) + Seq::empty() =~= jobs_view(jobs@));
    }
    jobs
}

/// What is to be done for one merged profile.
pub enum ReportStep {
    /// The merge of the binary failed: it is passed over, and nothing is
    /// written for it.
    MergeFailed { name: String },
    /// No object goes with the binary: it is passed over, and nothing is
    /// written for it.
    ObjectMissing { name: String },
    /// The report of the binary is rendered from `object_file` into
    /// `report_dir` by `command`.
    Report { name: String, object_file: String, report_dir: String, command: CommandLine },
}

/// `step` is what is to be done for the merged profile at `profdata_path`:
/// the binary is named by the stem of that file; where its merge failed it
/// is passed over; else its object is the first of the files `objects` that
/// is one, and its report goes to the directory of its name below
/// `report_root`.
pub open spec fn report_step_agrees(
    step: ReportStep,
    llvm_cov: Seq<char>,
    profdata_path: Seq<char>,
    merge_failed: bool,
    objects: Seq<Seq<char>>,
    report_root: Seq<char>,
    extra: Seq<Seq<char>>,
) -> bool {
    let name = file_stem_spec(profdata_path);
    let k = first_true(object_flags(objects, name));
    if merge_failed {
        step matches ReportStep::MergeFailed { name: n } && n@ == name
    } else if 0 <= k < objects.len() {
        let dir = join_spec(report_root, name);
        step matches ReportStep::Report { name: n, object_file, report_dir, command } && n@ == name
            && object_file@ == objects[k] && report_dir@ == dir && command@ == (
            llvm_cov,
            report_args(profdata_path, objects[k], dir, extra),
        )
    } else {
        step matches ReportStep::ObjectMissing { name: n } && n@ == name
    }
}

/// A merged profile without an object is passed over: where none of the
/// files is an object of its binary, the step names the binary and holds no
/// report to render and no directory to write to.
pub proof fn lemma_missing_object_is_passed_over(
    step: ReportStep,
    llvm_cov: Seq<char>,
    profdata_path: Seq<char>,
    objects: Seq<Seq<char>>,
    report_root: Seq<char>,
    extra: Seq<Seq<char>>,
)
    requires
        report_step_agrees(step, llvm_cov, profdata_path, false, objects, report_root, extra),
        forall|i: int|
            0 <= i < objects.len() ==> !is_object_of(
                #[trigger] objects[i],
                file_stem_spec(profdata_path),
            ),
    ensures
        step matches ReportStep::ObjectMissing { name } && name@ == file_stem_spec(profdata_path),
{
    let flags = object_flags(objects, file_stem_spec(profdata_path));
    assert forall|j: int| 0 <= j < flags.len() implies !flags[j] by {
        assert(!is_object_of(objects[j], file_stem_spec(profdata_path)));
    }
    lemma_first_true(flags, flags.len() as int);
}

/// A merged profile is reported against an object whose name differs from
/// its own in hyphens and underscores only, whichever of the two has the
/// hyphens: where such an object is among the files and the merge did not
/// fail, the step renders a report against an object of the binary.
pub proof fn lemma_matching_object_is_reported(
    step: ReportStep,
    llvm_cov: Seq<char>,
    profdata_path: Seq<char>,
    objects: Seq<Seq<char>>,
    report_root: Seq<char>,
    extra: Seq<Seq<char>>,
    i: int,
)
    requires
        report_step_agrees(step, llvm_cov, profdata_path, false, objects, report_root, extra),
        0 <= i < objects.len(),
        ends_with_spec(file_name_spec(objects[i]), ".o"@),
        normalize_spec(file_stem_spec(objects[i])) == normalize_spec(file_stem_spec(profdata_path)),
    ensures
        step matches ReportStep::Report { name, object_file, report_dir, .. } && name@
            == file_stem_spec(profdata_path) && is_object_of(
            object_file@,
            file_stem_spec(profdata_path),
        ) && report_dir@ == join_spec(report_root, file_stem_spec(profdata_path)),
{
    let name = file_stem_spec(profdata_path);
    let flags = object_flags(objects, name);
    assert(flags[i]);
    lemma_first_true_is_true(flags, i);
}

/// Decides what is to be done for the merged profile at `profdata_path`.
/// `merge_failed` says that the merge of its binary failed in this run;
/// `objects` are the files of the staging directory.
pub fn report_job(
    llvm_cov: &str,
    profdata_path: &str,
    merge_failed: bool,
    objects: &Vec<String>,
    report_root: &str,
    llvm_cov_args: &Vec<String>,
) -> (step: ReportStep)
    ensures
        report_step_agrees(
            step,
            llvm_cov@,
            profdata_path@,
            merge_failed,
            strs(objects@),
            report_root@,
            strs(llvm_cov_args@),
        ),
{
    let name = file_stem(profdata_path);
    if merge_failed {
        return ReportStep::MergeFailed { name };
    }
    match find_object(name.as_str(), objects) {
        Some(i) => {
            let object_file = objects[i].clone();
            let report_dir = join_path(report_root, name.as_str());
            let command = generate_report(
                llvm_cov,
                profdata_path,
                object_file.as_str(),
                report_dir.as_str(),
                llvm_cov_args,
            );
            proof {
                assert(strs(objects@)[i as int] == objects@[i as int]@);
            }
            ReportStep::Report { name, object_file, report_dir, command }
        },
        None => ReportStep::ObjectMissing { name },
    }
}

/// Where the report of one binary stands.
#[derive(Debug, Clone, Copy, PartialEq, Eq)]
pub enum ReportState {
    /// No raw profile of the binary has been merged.
    NoSamples,
    /// The merged profile of the binary is written.
    Merged,
    /// The profile tool failed for the binary; it has no report.
    MergeFailed,
    /// No object goes with the binary; it has no report.
    ObjectMissing,
    /// The report of the binary is written.
    Reported,
    /// The coverage tool failed for the binary; it has no report.
    ReportFailed,
}

/// What happened to one binary.
#[derive(Debug, Clone, Copy, PartialEq, Eq)]
pub enum ReportEvent {
    /// Its raw profiles were merged.
    Merged,
    /// The profile tool failed on its raw profiles.
    MergeFailed,
    /// No object was found for it.
    ObjectMissing,
    /// Its report was rendered.
    Reported,
    /// The coverage tool failed on its merged profile.
    ReportFailed,
}

impl ReportState {
    /// The state after `event`, where `event` can happen in this state.
    pub open spec fn next(self, event: ReportEvent) -> Option<ReportState> {
        match (self, event) {
            (ReportState::NoSamples, ReportEvent::Merged) => Some(ReportState::Merged),
            (ReportState::NoSamples, ReportEvent::MergeFailed) => Some(ReportState::MergeFailed),
            (ReportState::Merged, ReportEvent::ObjectMissing) => Some(ReportState::ObjectMissing),
            (ReportState::Merged, ReportEvent::Reported) => Some(ReportState::Reported),
            (ReportState::Merged, ReportEvent::ReportFailed) => Some(ReportState::ReportFailed),
            _ => None,
        }
    }

    /// Nothing more happens to the binary.
    pub open spec fn is_final(self) -> bool {
        !(self is NoSamples) && !(self is Merged)
    }

    /// A tool failed for the binary.
    pub open spec fn is_tool_failure(self) -> bool {
        self is MergeFailed || self is ReportFailed
    }

    /// Moves to the state after `event`; nothing where `event` cannot happen
    /// in this state.
    pub fn advance(self, event: ReportEvent) -> (after: Option<ReportState>)
        ensures
            after == self.next(event),
    {
        match (self, event) {
            (ReportState::NoSamples, ReportEvent::Merged) => Some(ReportState::Merged),
            (ReportState::NoSamples, ReportEvent::MergeFailed) => Some(ReportState::MergeFailed),
            (ReportState::Merged, ReportEvent::ObjectMissing) => Some(ReportState::ObjectMissing),
            (ReportState::Merged, ReportEvent::Reported) => Some(ReportState::Reported),
            (ReportState::Merged, ReportEvent::ReportFailed) => Some(ReportState::ReportFailed),
            _ => None,
        }
    }
}

impl ReportStep {
    /// Where the binary stands once the step is done: `succeeded` says
    /// whether the coverage tool did, and has no weight for a binary that
    /// is passed over.
    pub open spec fn ends_in(&self, succeeded: bool) -> ReportState {
        match self {
            ReportStep::MergeFailed { .. } => ReportState::MergeFailed,
            ReportStep::ObjectMissing { .. } => ReportState::ObjectMissing,
            ReportStep::Report { .. } => if succeeded {
                ReportState::Reported
            } else {
                ReportState::ReportFailed
            },
        }
    }

    /// Tells where the binary stands once the step is done.
    pub fn outcome(&self, succeeded: bool) -> (state: ReportState)
        ensures
            state == self.ends_in(succeeded),
    {
        match self {
            ReportStep::MergeFailed { .. } => ReportState::MergeFailed,
            ReportStep::ObjectMissing { .. } => ReportState::ObjectMissing,
            ReportStep::Report { .. } => if succeeded {
                ReportState::Reported
            } else {
                ReportState::ReportFailed
            },
        }
    }
}

/// The report phase fails as a whole: there are binaries, and a tool failed
/// for every one of them.
pub open spec fn every_tool_failed(outcomes: Seq<ReportState>) -> bool {
    outcomes.len() > 0 && forall|i: int|
        0 <= i < outcomes.len() ==> (#[trigger] outcomes[i]).is_tool_failure()
}

/// Tells whether the report phase fails as a whole. A failure of a tool
/// ends the work on its binary only; the phase fails only where a tool
/// failed for every binary.
pub fn report_phase_failed(outcomes: &Vec<ReportState>) -> (failed: bool)
    ensures
        failed == every_tool_failed(outcomes@),
{
    if outcomes.len() == 0 {
        return false;
    }
    let mut i: usize = 0;
    while i < outcomes.len()
        invariant
            i <= outcomes.len(),
            forall|j: int| 0 <= j < i ==> (#[trigger] outcomes[j]).is_tool_failure(),
        decreases outcomes.len() - i,
    {
        match outcomes[i] {
            ReportState::MergeFailed => {},
            ReportState::ReportFailed => {},
            _ => {
                return false;
            },
        }
        i += 1;
    }
    true
}

/// A report is written only for a binary whose profiles were merged, a
/// binary whose merge failed gets none, and a binary that has reached its
/// end stays as it is.
pub proof fn lemma_report_states(state: ReportState, event: ReportEvent)
    ensures
        state.is_final() ==> state.next(event).is_none(),
        state.next(event) == Some(ReportState::Reported) ==> state == ReportState::Merged,
        state.next(event) == Some(ReportState::ObjectMissing) ==> state == ReportState::Merged,
        state.is_tool_failure() ==> state.is_final(),
{
}

} // verus!
