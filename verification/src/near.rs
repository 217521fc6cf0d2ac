//! Preparing a project for coverage runs in the NEAR sandbox.

use crate::paths::{join_path, join_spec};
use crate::utils::{strs, CommandLine};
use vstd::prelude::*;
use vstd::string::StringExecFns;

verus! {

/// The build profile for coverage runs, as a section of the cargo
/// configuration; it goes after what the file holds, on a line of its own.
pub const COVERAGE_PROFILE: &'static str =
    "\n[profile.coverage]\ninherits = \"release\"\nstrip = true\ncodegen-units = 1\nopt-level = \"z\"\ndebug = false\npanic = \"abort\"\noverflow-checks = true\n";

/// Adds the build profile for coverage runs to the text of a cargo
/// configuration.
pub fn init_config(config: &str) -> (updated: String)
    ensures
        updated@ == config@ + COVERAGE_PROFILE@,
{
    let mut updated = String::from_str(config);
    updated.append(COVERAGE_PROFILE);
    updated
}

/// What there is to do to prepare a project.
pub struct NearInit {
    /// Where the sandbox binary goes, unless it is there.
    pub neard_path: String,
    /// The command that makes the home directory of the sandbox.
    pub init_home: CommandLine,
    /// The cargo configuration to read and write.
    pub config_path: String,
    /// The new text of the cargo configuration.
    pub config: String,
}

impl NearInit {
    /// The sandbox binary goes to `bin/neard` in the workspace and is run
    /// with `.near` in the workspace as its home; the configuration is
    /// `.cargo/config` in the project and gets the coverage profile.
    pub open spec fn prepares(
        &self,
        wasmcov_dir: Seq<char>,
        project_dir: Seq<char>,
        config: Seq<char>,
    ) -> bool {
        &&& self.neard_path@ == join_spec(wasmcov_dir, "bin/neard"@)
        &&& self.init_home@ == (
            self.neard_path@,
            seq!["--home"@, join_spec(wasmcov_dir, ".near"@), "init"@],
        )
        &&& self.config_path@ == join_spec(project_dir, ".cargo/config"@)
        &&& self.config@ == config + COVERAGE_PROFILE@
    }
}

/// Lays out the preparation of the project in `project_dir`, whose cargo
/// configuration holds `config`, for the workspace at `wasmcov_dir`.
pub fn init(wasmcov_dir: &str, project_dir: &str, config: &str) -> (plan: NearInit)
    ensures
        plan.prepares(wasmcov_dir@, project_dir@, config@),
{
    let neard_path = join_path(wasmcov_dir, "bin/neard");
    let near_home = join_path(wasmcov_dir, ".near");
    let mut args: Vec<String> = Vec::new();
    args.push(String::from_str("--home"));
    args.push(near_home);
    args.push(String::from_str("init"));
    proof {
        assert(strs(args@) =~= seq!["--home"@, join_spec(wasmcov_dir@, ".near"@), "init"@]);
    }
    let init_home = CommandLine { program: neard_path.clone(), args };
    NearInit {
        neard_path,
        init_home,
        config_path: join_path(project_dir, ".cargo/config"),
        config: init_config(config),
    }
}

} // verus!
