//! Arguments for cargo and the messages that it prints about what it built.

use crate::report::push_strings;
use crate::text::{lines_of, rows, split_lines};
use crate::utils::{first_true, lemma_first_true, strs};
use vstd::prelude::*;
use vstd::string::{StringExecFns, StringSliceAdditionalSpecFns};

verus! {

/// The argument that parts the arguments for cargo from those for the
/// binaries.
pub const SEPARATOR: &'static str = "--";

/// For each argument, whether it is the separator.
pub open spec fn separators(args: Seq<Seq<char>>) -> Seq<bool> {
    Seq::new(args.len(), |i: int| args[i] == SEPARATOR@)
}

/// The arguments before the first separator: all of them where there is
/// none.
pub open spec fn before_separator(args: Seq<Seq<char>>) -> Seq<Seq<char>> {
    args.subrange(0, first_true(separators(args)))
}

/// The arguments after the first separator: none where there is none.
pub open spec fn after_separator(args: Seq<Seq<char>>) -> Seq<Seq<char>> {
    if first_true(separators(args)) < args.len() {
        args.subrange(first_true(separators(args)) + 1, args.len() as int)
    } else {
        Seq::empty()
    }
}

/// Parts `args` at the first `--` into the arguments for cargo, before it,
/// and the arguments for the binaries, after it.
pub fn split_args(args: Vec<String>) -> (parts: (Vec<String>, Vec<String>))
    ensures
        strs(parts.0@) == before_separator(strs(args@)),
        strs(parts.1@) == after_separator(strs(args@)),
{
    let separator = String::from_str(SEPARATOR);
    let ghost flags = separators(strs(args@));
    let mut i: usize = 0;
    while i < args.len() && args[i] != separator
        invariant
            i <= args.len(),
            separator@ == SEPARATOR@,
            flags == separators(strs(args@)),
            forall|j: int| 0 <= j < i ==> !flags[j],
        decreases args.len() - i,
    {
        i += 1;
    }
    proof {
        lemma_first_true(flags, i as int);
    }
    let mut cargo_args: Vec<String> = Vec::new();
    let mut binary_args: Vec<String> = Vec::new();
    let mut k: usize = 0;
    while k < args.len()
        invariant
            i <= args.len(),
            k <= args.len(),
            strs(cargo_args@) == strs(args@).subrange(0, if k < i { k as int } else { i as int }),
            strs(binary_args@) == if k <= i {
                Seq::empty()
            } else {
                strs(args@).subrange(i + 1, k as int)
            },
        decreases args.len() - k,
    {
        let ghost cargo_before = strs(cargo_args@);
        let ghost binary_before = strs(binary_args@);
        if k < i {
            cargo_args.push(args[k].clone());
            proof {
                assert(strs(cargo_args@) =~= cargo_before.push(args[k as int]@));
                assert(strs(cargo_args@) =~= strs(args@).subrange(0, k + 1));
            }
        } else if k > i {
            binary_args.push(args[k].clone());
            proof {
                assert(strs(binary_args@) =~= binary_before.push(args[k as int]@));
                assert(strs(binary_args@) =~= strs(args@).subrange(i + 1, k + 1));
            }
        } else {
            proof {
                assert(strs(args@).subrange(i + 1, k + 1) =~= Seq::empty());
            }
        }
        k += 1;
    }
    proof {
        if i == args.len() {
            assert(strs(binary_args@) =~= Seq::empty());
        }
    }
    (cargo_args, binary_args)
}

/// The arguments that make cargo build and report as JSON what it built:
/// the subcommand, the message format, and then `extra_args`.
pub open spec fn message_args(command: Seq<char>, extra_args: Seq<Seq<char>>) -> Seq<Seq<char>> {
    seq![command, "--message-format=json"@] + extra_args
}

/// The arguments for a run of cargo that reports as JSON what it built.
pub fn cargo_message_args(command: &str, extra_args: &Vec<String>) -> (args: Vec<String>)
    ensures
        strs(args@) == message_args(command@, strs(extra_args@)),
{
    let mut args: Vec<String> = Vec::new();
    args.push(String::from_str(command));
    args.push(String::from_str("--message-format=json"));
    let ghost head = strs(args@);
    push_strings(&mut args, extra_args);
    proof {
        assert(head =~= seq![command@, "--message-format=json"@]);
    }
    args
}

/// The arguments that make cargo build the tests without running them:
/// `cargo_args` and then `--no-run`.
pub fn test_build_args(cargo_args: Vec<String>) -> (args: Vec<String>)
    ensures
        strs(args@) == strs(cargo_args@).push("--no-run"@),
{
    let mut args = cargo_args;
    let ghost before = strs(args@);
    args.push(String::from_str("--no-run"));
    proof {
        assert(strs(args@) =~= before.push("--no-run"@));
    }
    args
}

/// The reason that cargo gives in the message about a compiled artifact.
pub const COMPILER_ARTIFACT: &'static str = "compiler-artifact";

/// The subcommand of cargo that builds tests.
pub const TEST_COMMAND: &'static str = "test";

/// What a message of cargo says of an artifact, as far as it says it.
pub struct CargoMessage {
    /// The string under `reason`.
    pub reason: Option<String>,
    /// The boolean under `test` in the object under `profile`.
    pub profile_test: Option<bool>,
    /// The string under `executable`.
    pub executable: Option<String>,
}

impl View for CargoMessage {
    type V = (Option<Seq<char>>, Option<bool>, Option<Seq<char>>);

    /// The reason, the test flag of the profile and the executable.
    open spec fn view(&self) -> (Option<Seq<char>>, Option<bool>, Option<Seq<char>>) {
        (
            match self.reason {
                Some(r) => Some(r@),
                None => None,
            },
            self.profile_test,
            match self.executable {
                Some(e) => Some(e@),
                None => None,
            },
        )
    }
}

/// The string that the JSON text `text` holds under `key`, read with
/// `serde_json`: nothing where `text` is no JSON text, no object, or an
/// object with no string under that key.
pub uninterp spec fn json_string(text: Seq<u8>, key: Seq<char>) -> Option<Seq<char>>;

/// The boolean that the JSON text `text` holds under `inner` in the object
/// under `outer`, read with `serde_json`: nothing where `text` is no JSON
/// text or holds no boolean in that place.
pub uninterp spec fn json_nested_bool(text: Seq<u8>, outer: Seq<char>, inner: Seq<char>) -> Option<
    bool,
>;

/// Parses `text` with `serde_json::from_slice` as a `serde_json::Value`,
/// looks up `key` with the index of `Value`, which gives null for what is
/// not there, and copies what `Value::as_str` reads of it. The contract
/// gives that result its name and claims nothing more of it.
#[verifier::external_body]
fn json_string_at(text: &[u8], key: &str) -> (value: Option<String>)
    ensures
        match value {
            Some(v) => json_string(text@, key@) == Some(v@),
            None => json_string(text@, key@).is_none(),
        },
{
    match serde_json::from_slice::<serde_json::Value>(text) {
        Ok(json) => json[key].as_str().map(String::from),
        Err(_) => None,
    }
}

/// Parses `text` with `serde_json::from_slice` as a `serde_json::Value`,
/// looks up `outer` and in what it gives `inner` with the index of `Value`,
/// and returns what `Value::as_bool` reads of it. The contract gives that
/// result its name and claims nothing more of it.
#[verifier::external_body]
fn json_nested_bool_at(text: &[u8], outer: &str, inner: &str) -> (value: Option<bool>)
    ensures
        value == json_nested_bool(text@, outer@, inner@),
{
    match serde_json::from_slice::<serde_json::Value>(text) {
        Ok(json) => json[outer][inner].as_bool(),
        Err(_) => None,
    }
}

/// What the line `line` says of an artifact: the string under `reason`,
/// the boolean under `test` in the object under `profile`, and the string
/// under `executable`.
pub open spec fn cargo_message(line: Seq<u8>) -> (
    Option<Seq<char>>,
    Option<bool>,
    Option<Seq<char>>,
) {
    (
        json_string(line, "reason"@),
        json_nested_bool(line, "profile"@, "test"@),
        json_string(line, "executable"@),
    )
}

/// Reads what a line that cargo printed says of an artifact.
pub fn read_cargo_message(line: &[u8]) -> (message: CargoMessage)
    ensures
        message@ == cargo_message(line@),
{
    CargoMessage {
        reason: json_string_at(line, "reason"),
        profile_test: json_nested_bool_at(line, "profile", "test"),
        executable: json_string_at(line, "executable"),
    }
}

/// The executable that `message` reports: that of a compiler artifact
/// whose profile is a test profile or not as `test` says.
pub open spec fn reported_executable(
    message: (Option<Seq<char>>, Option<bool>, Option<Seq<char>>),
    test: bool,
) -> Option<Seq<char>> {
    if message.0 == Some(COMPILER_ARTIFACT@) && message.1 == Some(test) {
        message.2
    } else {
        None
    }
}

/// Picks the executable out of a message of cargo: the message must be
/// about a compiler artifact, and its profile a test profile exactly where
/// `test` is set.
pub fn select_executable(message: CargoMessage, test: bool) -> (executable: Option<String>)
    ensures
        match executable {
            Some(e) => reported_executable(message@, test) == Some(e@),
            None => reported_executable(message@, test).is_none(),
        },
{
    let artifact = String::from_str(COMPILER_ARTIFACT);
    let is_artifact = match &message.reason {
        Some(reason) => *reason == artifact,
        None => false,
    };
    let profile_fits = match message.profile_test {
        Some(flag) => flag == test,
        None => false,
    };
    if is_artifact && profile_fits {
        message.executable
    } else {
        None
    }
}

/// The executables that the lines `lines` report, in their order: a line
/// that reports no executable gives none.
pub open spec fn executables_of(lines: Seq<Seq<u8>>, test: bool) -> Seq<Seq<char>>
    decreases lines.len(),
{
    if lines.len() == 0 {
        Seq::empty()
    } else {
        let rest = executables_of(lines.drop_first(), test);
        match reported_executable(cargo_message(lines[0]), test) {
            Some(executable) => seq![executable] + rest,
            None => rest,
        }
    }
}

/// Reads what cargo printed with the JSON message format for `command` and
/// returns the executables that it built: those of the compiler artifacts
/// with a test profile where `command` is `test`, with another profile
/// where it is not.
pub fn parse_cargo_output(command: &str, output: &str) -> (executables: Vec<String>)
    ensures
        strs(executables@) == executables_of(
            lines_of(output.spec_bytes()),
            command@ == TEST_COMMAND@,
        ),
{
    let test = String::from_str(command) == String::from_str(TEST_COMMAND);
    let lines = split_lines(output.as_bytes());
    let ghost all = rows(lines@);
    let mut executables: Vec<String> = Vec::new();
    let mut i: usize = 0;
    proof {
        assert(all.subrange(0, all.len() as int) =~= all);
        assert(strs(executables@) + executables_of(all, test) =~= executables_of(all, test));
    }
    while i < lines.len()
        invariant
            i <= lines.len(),
            all == rows(lines@),
            all.len() == lines.len(),
            executables_of(all, test) == strs(executables@) + executables_of(
                all.subrange(i as int, all.len() as int),
                test,
            ),
        decreases lines.len() - i,
    {
        let ghost rest = all.subrange(i as int, all.len() as int);
        let ghost before = strs(executables@);
        proof {
            assert(rest[0] == lines[i as int]@);
            assert(rest.drop_first() =~= all.subrange(i + 1, all.len() as int));
        }
        let message = read_cargo_message(lines[i].as_slice());
        if let Some(executable) = select_executable(message, test) {
            executables.push(executable);
            proof {
                assert(strs(executables@) =~= before.push(executable@));
                assert(strs(executables@) + executables_of(rest.drop_first(), test) =~= before
                    + executables_of(rest, test));
            }
        }
        i += 1;
    }
    proof {
        assert(all.subrange(i as int, all.len() as int) =~= Seq::empty());
        assert(strs(executables@) + Seq::empty() =~= strs(executables@));
    }
    executables
}

} // verus!
