//! Finding the LLVM tools that match the LLVM of the Rust compiler.

use crate::text::{contains, contains_seq};
use vstd::prelude::*;
use vstd::string::{StringExecFns, StringSliceAdditionalSpecFns};

verus! {

/// The regular expression that finds the LLVM major version in what
/// `rustc --version --verbose` prints.
pub const RUSTC_LLVM_VERSION: &'static str = "LLVM version: (\\d+)";

/// The regular expression that finds the major version in what an LLVM tool
/// prints for `--version`.
pub const TOOL_VERSION: &'static str = "version (\\d+)";

/// The word that the version of a nightly compiler holds.
pub const NIGHTLY: &'static str = "nightly";

/// What capture group `group` of the regular expression `pattern` holds in
/// the leftmost match of the expression in `text`, in the syntax and with
/// the search of the `regex` crate. Nothing where `pattern` is no regular
/// expression, where it matches nowhere in `text`, or where the expression
/// has no such group or the group took no part in the match.
pub uninterp spec fn regex_capture(pattern: Seq<char>, text: Seq<char>, group: int) -> Option<
    Seq<char>,
>;

/// What the first capture group of `pattern` holds in `text`.
pub open spec fn first_capture(pattern: Seq<char>, text: Seq<char>) -> Option<Seq<char>> {
    regex_capture(pattern, text, 1)
}

/// Searches `text` with `regex::Regex::captures` for the expression that
/// `regex::Regex::new` makes of `pattern`, and copies what
/// `regex::Captures::get` gives for `group`. The contract gives that result
/// its name and claims nothing more of it.
#[verifier::external_body]
fn capture_group(pattern: &str, text: &str, group: usize) -> (held: Option<String>)
    ensures
        match held {
            Some(g) => regex_capture(pattern@, text@, group as int) == Some(g@),
            None => regex_capture(pattern@, text@, group as int).is_none(),
        },
{
    match regex::Regex::new(pattern) {
        Ok(re) => re.captures(text).and_then(|found| found.get(group)).map(
            |m| m.as_str().to_string(),
        ),
        Err(_) => None,
    }
}

/// No version number stands where one was looked for.
#[derive(Debug, Clone, Copy, PartialEq, Eq)]
pub struct NoVersion;

/// Reads `rustc --version --verbose`, given what the version pattern
/// captured in it: whether the compiler is a nightly one, and the major
/// version of its LLVM.
pub fn rustc_version_from(output: &str, captured: Option<String>) -> (version: Result<
    (bool, String),
    NoVersion,
>)
    ensures
        match captured {
            Some(major) => version == Ok::<(bool, String), NoVersion>(
                (contains_seq(output.spec_bytes(), NIGHTLY.spec_bytes()), major),
            ),
            None => version.is_err(),
        },
{
    match captured {
        Some(major) => Ok((contains(output.as_bytes(), NIGHTLY.as_bytes()), major)),
        None => Err(NoVersion),
    }
}

/// Reads what `rustc --version --verbose` printed: whether the compiler is a
/// nightly one, and the major version of its LLVM, which follows the words
/// `LLVM version: `.
pub fn check_rustc_version(output: &str) -> (version: Result<(bool, String), NoVersion>)
    ensures
        match first_capture(RUSTC_LLVM_VERSION@, output@) {
            Some(major) => version.is_ok() && version.unwrap().0 == contains_seq(
                output.spec_bytes(),
                NIGHTLY.spec_bytes(),
            ) && version.unwrap().1@ == major,
            None => version.is_err(),
        },
{
    rustc_version_from(output, capture_group(RUSTC_LLVM_VERSION, output, 1))
}

/// Reads what an LLVM tool printed for `--version`: its major version, which
/// follows the word `version `.
pub fn check_llvm_tool_version(output: &str) -> (version: Result<String, NoVersion>)
    ensures
        match first_capture(TOOL_VERSION@, output@) {
            Some(major) => version.is_ok() && version.unwrap()@ == major,
            None => version.is_err(),
        },
{
    match capture_group(TOOL_VERSION, output, 1) {
        Some(major) => Ok(major),
        None => Err(NoVersion),
    }
}

/// What the two probes for one tool printed: `versioned` for the tool under
/// its name with the major version behind a hyphen, `plain` for the tool
/// under its bare name; nothing where the command could not be run or
/// failed.
pub struct ToolProbe {
    pub versioned: Option<String>,
    pub plain: Option<String>,
}

/// Why no command was chosen for a tool.
#[derive(Debug, PartialEq, Eq)]
pub enum FindToolError {
    /// Neither probe gave a version.
    NotFound,
    /// The tool under its bare name has the major version `found`, not the
    /// one looked for.
    WrongVersion { found: String },
}

/// The compiler and the commands of the LLVM tools that go with it.
pub struct LlvmToolingResult {
    pub rustc_is_nightly: bool,
    pub llvm_major_version: String,
    pub clang: String,
    pub llvm_cov: String,
    pub llvm_profdata: String,
}

/// Why the tooling is not complete.
#[derive(Debug, PartialEq, Eq)]
pub enum ToolingError {
    /// The compiler printed no LLVM version.
    Rustc,
    Clang(FindToolError),
    LlvmCov(FindToolError),
    LlvmProfdata(FindToolError),
}

/// The name of `tool` with the major version behind a hyphen.
pub open spec fn versioned_name_spec(tool: Seq<char>, major_version: Seq<char>) -> Seq<char> {
    tool + seq!['-'] + major_version
}

/// The version that a probe printed, if it printed one.
pub open spec fn probed_version(output: Option<Seq<char>>) -> Option<Seq<char>> {
    match output {
        Some(text) => first_capture(TOOL_VERSION@, text),
        None => None,
    }
}

/// The command for `tool`, from the versions that its two probes gave: the
/// versioned name where that probe gave any version; else the bare name
/// where its probe gave the major version looked for.
pub open spec fn tool_choice(
    tool: Seq<char>,
    major_version: Seq<char>,
    versioned: Option<Seq<char>>,
    plain: Option<Seq<char>>,
) -> Result<Seq<char>, Option<Seq<char>>> {
    if versioned.is_some() {
        Ok(versioned_name_spec(tool, major_version))
    } else {
        match plain {
            None => Err(None),
            Some(found) => if found == major_version {
                Ok(tool)
            } else {
                Err(Some(found))
            },
        }
    }
}

/// `found` is what `choice` says: the same command, or the same failure.
pub open spec fn agrees(
    found: Result<String, FindToolError>,
    choice: Result<Seq<char>, Option<Seq<char>>>,
) -> bool {
    match found {
        Ok(command) => choice == Ok::<Seq<char>, Option<Seq<char>>>(command@),
        Err(FindToolError::NotFound) => choice == Err::<Seq<char>, Option<Seq<char>>>(None),
        Err(FindToolError::WrongVersion { found }) => choice == Err::<
            Seq<char>,
            Option<Seq<char>>,
        >(Some(found@)),
    }
}

/// The name of `tool` with the major version behind a hyphen.
pub fn versioned_name(tool: &str, major_version: &str) -> (name: String)
    ensures
        name@ == versioned_name_spec(tool@, major_version@),
{
    let mut name = String::from_str(tool);
    proof {
        reveal_strlit("-");
        assert("-"@ =~= seq!['-']);
    }
    name.append("-");
    name.append(major_version);
    name
}

/// Chooses the command for `tool` from the versions that its two probes
/// gave.
pub fn choose_llvm_tool(
    tool: &str,
    major_version: &str,
    versioned: Option<String>,
    plain: Option<String>,
) -> (found: Result<String, FindToolError>)
    ensures
        agrees(
            found,
            tool_choice(
                tool@,
                major_version@,
                match versioned {
                    Some(v) => Some(v@),
                    None => None,
                },
                match plain {
                    Some(v) => Some(v@),
                    None => None,
                },
            ),
        ),
{
    if versioned.is_some() {
        return Ok(versioned_name(tool, major_version));
    }
    match plain {
        None => Err(FindToolError::NotFound),
        Some(found) => {
            let wanted = String::from_str(major_version);
            if found == wanted {
                Ok(String::from_str(tool))
            } else {
                Err(FindToolError::WrongVersion { found })
            }
        },
    }
}

/// The version that a probe printed, if it printed one.
fn probe_version(output: &Option<String>) -> (version: Option<String>)
    ensures
        match version {
            Some(v) => probed_version(
                match output {
                    Some(o) => Some(o@),
                    None => None,
                },
            ) == Some(v@),
            None => probed_version(
                match output {
                    Some(o) => Some(o@),
                    None => None,
                },
            ).is_none(),
        },
{
    match output {
        Some(text) => match check_llvm_tool_version(text.as_str()) {
            Ok(v) => Some(v),
            Err(_) => None,
        },
        None => None,
    }
}

impl ToolProbe {
    /// The versions that the two probes printed.
    pub open spec fn versions(&self) -> (Option<Seq<char>>, Option<Seq<char>>) {
        (
            probed_version(
                match self.versioned {
                    Some(o) => Some(o@),
                    None => None,
                },
            ),
            probed_version(
                match self.plain {
                    Some(o) => Some(o@),
                    None => None,
                },
            ),
        )
    }
}

/// Chooses the command for `tool` that has the major version
/// `major_version`, from what its two probes printed.
pub fn find_llvm_tool(tool: &str, major_version: &str, probe: &ToolProbe) -> (found: Result<
    String,
    FindToolError,
>)
    ensures
        agrees(
            found,
            tool_choice(tool@, major_version@, probe.versions().0, probe.versions().1),
        ),
{
    let versioned = probe_version(&probe.versioned);
    let plain = probe_version(&probe.plain);
    choose_llvm_tool(tool, major_version, versioned, plain)
}

/// The name of the C compiler of LLVM.
pub const CLANG: &'static str = "clang";

/// The name of the coverage report tool of LLVM.
pub const LLVM_COV: &'static str = "llvm-cov";

/// The name of the profile tool of LLVM.
pub const LLVM_PROFDATA: &'static str = "llvm-profdata";

/// `tooling` is what the compiler and the probes give: the failure of the
/// first of compiler, `clang`, `llvm-cov` and `llvm-profdata` that fails, or
/// else the compiler's kind and LLVM version and the three commands chosen
/// for that version.
pub open spec fn tooling_agrees(
    tooling: Result<LlvmToolingResult, ToolingError>,
    rustc_output: &str,
    clang: &ToolProbe,
    llvm_cov: &ToolProbe,
    llvm_profdata: &ToolProbe,
) -> bool {
    match first_capture(RUSTC_LLVM_VERSION@, rustc_output@) {
        None => tooling matches Err(ToolingError::Rustc),
        Some(major) => {
            let c = tool_choice(CLANG@, major, clang.versions().0, clang.versions().1);
            let v = tool_choice(LLVM_COV@, major, llvm_cov.versions().0, llvm_cov.versions().1);
            let p = tool_choice(
                LLVM_PROFDATA@,
                major,
                llvm_profdata.versions().0,
                llvm_profdata.versions().1,
            );
            match tooling {
                Ok(t) => {
                    &&& t.rustc_is_nightly == contains_seq(
                        rustc_output.spec_bytes(),
                        NIGHTLY.spec_bytes(),
                    )
                    &&& t.llvm_major_version@ == major
                    &&& c == Ok::<Seq<char>, Option<Seq<char>>>(t.clang@)
                    &&& v == Ok::<Seq<char>, Option<Seq<char>>>(t.llvm_cov@)
                    &&& p == Ok::<Seq<char>, Option<Seq<char>>>(t.llvm_profdata@)
                },
                Err(ToolingError::Rustc) => false,
                Err(ToolingError::Clang(e)) => c.is_err() && agrees(Err(e), c),
                Err(ToolingError::LlvmCov(e)) => c.is_ok() && v.is_err() && agrees(Err(e), v),
                Err(ToolingError::LlvmProfdata(e)) => c.is_ok() && v.is_ok() && p.is_err()
                    && agrees(Err(e), p),
            }
        },
    }
}

/// Puts the tooling together from what `rustc --version --verbose` printed
/// and from the probes for `clang`, `llvm-cov` and `llvm-profdata`, which
/// were made for the LLVM major version of the compiler.
pub fn find_tooling(
    rustc_output: &str,
    clang: &ToolProbe,
    llvm_cov: &ToolProbe,
    llvm_profdata: &ToolProbe,
) -> (tooling: Result<LlvmToolingResult, ToolingError>)
    ensures
        tooling_agrees(tooling, rustc_output, clang, llvm_cov, llvm_profdata),
{
    let (rustc_is_nightly, llvm_major_version) = match check_rustc_version(rustc_output) {
        Ok(version) => version,
        Err(_) => {
            return Err(ToolingError::Rustc);
        },
    };
    let clang = match find_llvm_tool(CLANG, llvm_major_version.as_str(), clang) {
        Ok(command) => command,
        Err(e) => {
            return Err(ToolingError::Clang(e));
        },
    };
    let llvm_cov = match find_llvm_tool(LLVM_COV, llvm_major_version.as_str(), llvm_cov) {
        Ok(command) => command,
        Err(e) => {
            return Err(ToolingError::LlvmCov(e));
        },
    };
    let llvm_profdata = match find_llvm_tool(
        LLVM_PROFDATA,
        llvm_major_version.as_str(),
        llvm_profdata,
    ) {
        Ok(command) => command,
        Err(e) => {
            return Err(ToolingError::LlvmProfdata(e));
        },
    };
    Ok(LlvmToolingResult { rustc_is_nightly, llvm_major_version, clang, llvm_cov, llvm_profdata })
}

} // verus!
