//! The directories of the coverage workspace.

use crate::paths::{join_path, join_spec};
use crate::utils::strs;
use vstd::prelude::*;
use vstd::string::StringExecFns;

verus! {

/// The name of the workspace below the current directory, where no other
/// place is given.
pub const WASMCOV_DIR: &'static str = "wasmcov";

/// The directory of the raw profiles, one directory per binary below it.
pub const PROFRAW_DIR: &'static str = "raw-profiles";

/// The directory of the merged profiles, one file per binary.
pub const PROFDATA_DIR: &'static str = "merged-profiles";

/// The directory of compiled objects.
pub const OBJECTS_DIR: &'static str = "objects";

/// The directory into which the artifacts of a build are staged: the
/// stubbed IR, the object compiled from it and the module itself.
pub const TARGET_DIR: &'static str = "staging";

/// The directory of the reports, one directory per binary below it.
pub const REPORT_DIR: &'static str = "reports";

/// The root of the workspace: `wasmcov_dir` where it is given, else the
/// directory `wasmcov` below `current_dir`.
pub fn set_wasmcov_dir(wasmcov_dir: Option<&str>, current_dir: &str) -> (root: String)
    ensures
        root@ == match wasmcov_dir {
            Some(dir) => dir@,
            None => join_spec(current_dir@, WASMCOV_DIR@),
        },
{
    match wasmcov_dir {
        Some(dir) => String::from_str(dir),
        None => join_path(current_dir, WASMCOV_DIR),
    }
}

/// The directory of the raw profiles in the workspace at `wasmcov_dir`.
pub fn get_profraw_dir(wasmcov_dir: &str) -> (dir: String)
    ensures
        dir@ == join_spec(wasmcov_dir@, PROFRAW_DIR@),
{
    join_path(wasmcov_dir, PROFRAW_DIR)
}

/// The directory of the merged profiles in the workspace at `wasmcov_dir`.
pub fn get_profdata_dir(wasmcov_dir: &str) -> (dir: String)
    ensures
        dir@ == join_spec(wasmcov_dir@, PROFDATA_DIR@),
{
    join_path(wasmcov_dir, PROFDATA_DIR)
}

/// The directory of compiled objects in the workspace at `wasmcov_dir`.
pub fn get_objects_dir(wasmcov_dir: &str) -> (dir: String)
    ensures
        dir@ == join_spec(wasmcov_dir@, OBJECTS_DIR@),
{
    join_path(wasmcov_dir, OBJECTS_DIR)
}

/// The staging directory in the workspace at `wasmcov_dir`.
pub fn get_target_dir(wasmcov_dir: &str) -> (dir: String)
    ensures
        dir@ == join_spec(wasmcov_dir@, TARGET_DIR@),
{
    join_path(wasmcov_dir, TARGET_DIR)
}

/// The directory of the reports in the workspace at `wasmcov_dir`.
pub fn get_report_dir(wasmcov_dir: &str) -> (dir: String)
    ensures
        dir@ == join_spec(wasmcov_dir@, REPORT_DIR@),
{
    join_path(wasmcov_dir, REPORT_DIR)
}

/// The directories that a reset empties, in the order in which it takes
/// them: the root alone for a full reset; else the merged profiles, the
/// reports, the raw profiles and the objects.
pub open spec fn reset_dirs(wasmcov_dir: Seq<char>, full: bool) -> Seq<Seq<char>> {
    if full {
        seq![wasmcov_dir]
    } else {
        seq![
            join_spec(wasmcov_dir, PROFDATA_DIR@),
            join_spec(wasmcov_dir, REPORT_DIR@),
            join_spec(wasmcov_dir, PROFRAW_DIR@),
            join_spec(wasmcov_dir, OBJECTS_DIR@),
        ]
    }
}

/// Names the directories that a reset of the workspace at `wasmcov_dir`
/// removes with all they hold and makes anew. A full reset takes the root; a
/// selective one the stores of profiles, reports and objects, and leaves the
/// staging directory alone.
pub fn clean_wasmcov_directory(wasmcov_dir: &str, full: bool) -> (dirs: Vec<String>)
    ensures
        strs(dirs@) == reset_dirs(wasmcov_dir@, full),
{
    let mut dirs: Vec<String> = Vec::new();
    if full {
        dirs.push(String::from_str(wasmcov_dir));
    } else {
        dirs.push(get_profdata_dir(wasmcov_dir));
        dirs.push(get_report_dir(wasmcov_dir));
        dirs.push(get_profraw_dir(wasmcov_dir));
        dirs.push(get_objects_dir(wasmcov_dir));
    }
    proof {
        assert(strs(dirs@) =~= reset_dirs(wasmcov_dir@, full));
    }
    dirs
}

/// A selective reset spares the staging directory: no directory that it
/// empties is the staging directory or holds it, and the staging directory
/// holds none of them.
pub proof fn lemma_selective_reset_spares_staging(wasmcov_dir: Seq<char>)
    ensures
        reset_dirs(wasmcov_dir, false).len() == 4,
        forall|i: int|
            0 <= i < 4 ==> {
                let dir = #[trigger] reset_dirs(wasmcov_dir, false)[i];
                let staging = join_spec(wasmcov_dir, TARGET_DIR@);
                !dir.is_prefix_of(staging) && !staging.is_prefix_of(dir)
            },
{
    reveal_strlit("merged-profiles");
    reveal_strlit("reports");
    reveal_strlit("raw-profiles");
    reveal_strlit("objects");
    reveal_strlit("staging");
    let staging = join_spec(wasmcov_dir, TARGET_DIR@);
    assert forall|i: int| 0 <= i < 4 implies {
        let dir = #[trigger] reset_dirs(wasmcov_dir, false)[i];
        !dir.is_prefix_of(staging) && !staging.is_prefix_of(dir)
    } by {
        let dir = reset_dirs(wasmcov_dir, false)[i];
        let name = if i == 0 {
            PROFDATA_DIR@
        } else if i == 1 {
            REPORT_DIR@
        } else if i == 2 {
            PROFRAW_DIR@
        } else {
            OBJECTS_DIR@
        };
        assert(dir == join_spec(wasmcov_dir, name));
        let at: int = if wasmcov_dir.len() == 0 {
            0
        } else if wasmcov_dir.last() == '/' {
            wasmcov_dir.len() as int
        } else {
            (wasmcov_dir.len() + 1) as int
        };
        assert(dir[at] == name[0]);
        assert(staging[at] == 's');
        assert(name[0] != 's');
        if dir.is_prefix_of(staging) {
            assert(staging.subrange(0, dir.len() as int)[at] == dir[at]);
        }
        if staging.is_prefix_of(dir) {
            assert(dir.subrange(0, staging.len() as int)[at] == staging[at]);
        }
    }
}

/// A full reset takes the root of the workspace and nothing else: the root
/// is made anew and holds nothing.
pub proof fn lemma_full_reset_takes_root(wasmcov_dir: Seq<char>)
    ensures
        reset_dirs(wasmcov_dir, true) == seq![wasmcov_dir],
{
}

/// `path` is the directory `dir` or lies below it.
pub open spec fn is_under(path: Seq<char>, dir: Seq<char>) -> bool {
    path == dir || (dir + seq!['/']).is_prefix_of(path)
}

/// `name`, a path below the root, is one of the stores that a selective
/// reset empties, or lies in one.
pub open spec fn lies_in_store(name: Seq<char>) -> bool {
    is_under(name, PROFDATA_DIR@) || is_under(name, REPORT_DIR@) || is_under(name, PROFRAW_DIR@)
        || is_under(name, OBJECTS_DIR@)
}

/// What stands before a name that is put below `dir`: `dir` with a
/// separator at its end, or nothing where `dir` is empty.
pub open spec fn dir_base(dir: Seq<char>) -> Seq<char> {
    if dir.len() == 0 || dir.last() == '/' {
        dir
    } else {
        dir + seq!['/']
    }
}

/// Two paths with the same start are equal, or one the start of the other,
/// only where what follows that start is.
pub proof fn lemma_same_base(base: Seq<char>, a: Seq<char>, b: Seq<char>)
    ensures
        base + a == base + b ==> a == b,
        (base + a).is_prefix_of(base + b) ==> a.is_prefix_of(b),
{
    if base + a == base + b {
        assert((base + a).subrange(base.len() as int, (base + a).len() as int) =~= a);
        assert((base + b).subrange(base.len() as int, (base + b).len() as int) =~= b);
    }
    if (base + a).is_prefix_of(base + b) {
        assert forall|k: int| 0 <= k < a.len() implies a[k] == b[k] by {
            assert((base + a)[base.len() + k] == a[k]);
            assert((base + b)[base.len() + k] == b[k]);
            assert((base + b).subrange(0, (base + a).len() as int)[base.len() + k] == (base + b)[
                base.len() + k
            ]);
        }
        assert(b.subrange(0, a.len() as int) =~= a);
    }
}

/// A selective reset spares what it is not asked to empty: it takes neither
/// the root nor anything below the root that lies in none of the four
/// stores, since no directory that it empties is such a path or holds it.
pub proof fn lemma_selective_reset_spares_the_rest(wasmcov_dir: Seq<char>, name: Seq<char>)
    requires
        name.len() > 0,
        name[0] != '/',
        !lies_in_store(name),
    ensures
        forall|i: int|
            0 <= i < 4 ==> !is_under(
                join_spec(wasmcov_dir, name),
                #[trigger] reset_dirs(wasmcov_dir, false)[i],
            ),
        forall|i: int|
            0 <= i < 4 ==> !is_under(wasmcov_dir, #[trigger] reset_dirs(wasmcov_dir, false)[i]),
{
    reveal_strlit("merged-profiles");
    reveal_strlit("reports");
    reveal_strlit("raw-profiles");
    reveal_strlit("objects");
    let base = dir_base(wasmcov_dir);
    let path = join_spec(wasmcov_dir, name);
    assert(path =~= base + name);
    assert forall|i: int| 0 <= i < 4 implies !is_under(
        path,
        #[trigger] reset_dirs(wasmcov_dir, false)[i],
    ) && !is_under(wasmcov_dir, reset_dirs(wasmcov_dir, false)[i]) by {
        let dir = reset_dirs(wasmcov_dir, false)[i];
        let store = if i == 0 {
            PROFDATA_DIR@
        } else if i == 1 {
            REPORT_DIR@
        } else if i == 2 {
            PROFRAW_DIR@
        } else {
            OBJECTS_DIR@
        };
        assert(store.len() > 0 && store[0] != '/');
        assert(dir =~= base + store);
        assert(!is_under(name, store));
        lemma_same_base(base, store, name);
        assert(dir + seq!['/'] =~= base + (store + seq!['/']));
        lemma_same_base(base, store + seq!['/'], name);
        assert(dir.len() > wasmcov_dir.len());
    }
}

} // verus!
