//! Rewriting a text line by line, picking a file among alternatives, and
//! judging the run of a command.

use crate::text::{
    contains, contains_seq, copy_bytes, join, join_lines, lines_of, replace_all, replace_seq, rows,
    split_lines,
};
use crate::paths::{join_path, join_spec};
use vstd::prelude::*;
use vstd::utf8::encode_utf8;

verus! {

/// One change to the lines of a text that hold `pattern`.
pub enum FileOperation {
    /// Replaces every occurrence of `pattern` in such a line.
    ReplaceText { pattern: String, replacement: String },
    /// Puts `new_line` before such a line.
    AddBefore { pattern: String, new_line: String },
    /// Puts `new_line` after such a line.
    AddAfter { pattern: String, new_line: String },
}

/// No line of the text held the pattern, so nothing was changed.
#[derive(Debug, Clone, Copy, PartialEq, Eq)]
pub struct NoModification;

/// What a `FileOperation` says, over the bytes of its strings.
pub enum Edit {
    ReplaceText { pattern: Seq<u8>, replacement: Seq<u8> },
    AddBefore { pattern: Seq<u8>, new_line: Seq<u8> },
    AddAfter { pattern: Seq<u8>, new_line: Seq<u8> },
}

impl View for FileOperation {
    type V = Edit;

    open spec fn view(&self) -> Edit {
        match self {
            FileOperation::ReplaceText { pattern, replacement } => Edit::ReplaceText {
                pattern: encode_utf8(pattern@),
                replacement: encode_utf8(replacement@),
            },
            FileOperation::AddBefore { pattern, new_line } => Edit::AddBefore {
                pattern: encode_utf8(pattern@),
                new_line: encode_utf8(new_line@),
            },
            FileOperation::AddAfter { pattern, new_line } => Edit::AddAfter {
                pattern: encode_utf8(pattern@),
                new_line: encode_utf8(new_line@),
            },
        }
    }
}

impl Edit {
    /// The bytes that mark a line as one to change.
    pub open spec fn pattern_bytes(self) -> Seq<u8> {
        match self {
            Edit::ReplaceText { pattern, .. } => pattern,
            Edit::AddBefore { pattern, .. } => pattern,
            Edit::AddAfter { pattern, .. } => pattern,
        }
    }

    /// The lines that take the place of `line`.
    pub open spec fn rewrite_line(self, line: Seq<u8>) -> Seq<Seq<u8>> {
        if !contains_seq(line, self.pattern_bytes()) {
            seq![line]
        } else {
            match self {
                Edit::ReplaceText { pattern, replacement } => seq![
                    replace_seq(line, pattern, replacement),
                ],
                Edit::AddBefore { new_line, .. } => seq![new_line, line],
                Edit::AddAfter { new_line, .. } => seq![line, new_line],
            }
        }
    }

    /// The lines that take the place of `lines`, in their order.
    pub open spec fn rewrite_lines(self, lines: Seq<Seq<u8>>) -> Seq<Seq<u8>>
        decreases lines.len(),
    {
        if lines.len() == 0 {
            Seq::empty()
        } else {
            self.rewrite_line(lines[0]) + self.rewrite_lines(lines.drop_first())
        }
    }

    /// Some line of `lines` holds the pattern.
    pub open spec fn applies_to(self, lines: Seq<Seq<u8>>) -> bool {
        exists|i: int|
            0 <= i < lines.len() && contains_seq(#[trigger] lines[i], self.pattern_bytes())
    }

    /// The text that the change makes of `content`: its lines rewritten, a
    /// line feed after each; nothing where no line holds the pattern.
    pub open spec fn apply(self, content: Seq<u8>) -> Option<Seq<u8>> {
        if self.applies_to(lines_of(content)) {
            Some(join_lines(self.rewrite_lines(lines_of(content))))
        } else {
            None
        }
    }
}

/// Applies `operation` to every line of `content` that holds its pattern and
/// returns the new text, each line ended by a line feed. Fails, and changes
/// nothing, when no line holds the pattern.
pub fn modify_file(content: &[u8], operation: FileOperation) -> (modified: Result<
    Vec<u8>,
    NoModification,
>)
    ensures
        match modified {
            Ok(out) => operation@.apply(content@) == Some(out@),
            Err(_) => operation@.apply(content@).is_none(),
        },
{
    let lines = split_lines(content);
    let ghost all = rows(lines@);
    let ghost edit = operation@;
    let pattern: &[u8] = match &operation {
        FileOperation::ReplaceText { pattern, .. } => pattern.as_str().as_bytes(),
        FileOperation::AddBefore { pattern, .. } => pattern.as_str().as_bytes(),
        FileOperation::AddAfter { pattern, .. } => pattern.as_str().as_bytes(),
    };
    let mut rewritten: Vec<Vec<u8>> = Vec::new();
    let mut changed = false;
    let mut i: usize = 0;
    proof {
        assert(all.subrange(0, all.len() as int) =~= all);
        assert(rows(rewritten@) =~= Seq::<Seq<u8>>::empty());
        assert(rows(rewritten@) + edit.rewrite_lines(all) =~= edit.rewrite_lines(all));
    }
    while i < lines.len()
        invariant
            i <= lines.len(),
            all == rows(lines@),
            all.len() == lines.len(),
            edit == operation@,
            pattern@ == edit.pattern_bytes(),
            edit.rewrite_lines(all) == rows(rewritten@) + edit.rewrite_lines(
                all.subrange(i as int, all.len() as int),
            ),
            changed == edit.applies_to(all.subrange(0, i as int)),
        decreases lines.len() - i,
    {
        let ghost rest = all.subrange(i as int, all.len() as int);
        let ghost before = rows(rewritten@);
        let ghost seen = all.subrange(0, i as int);
        let line: &Vec<u8> = &lines[i];
        let hit = contains(line.as_slice(), pattern);
        proof {
            assert(rest[0] == line@);
            assert(rest.drop_first() =~= all.subrange(i + 1, all.len() as int));
            let next = all.subrange(0, i + 1);
            assert(next[i as int] == line@);
            if hit {
                assert(edit.applies_to(next));
            } else if edit.applies_to(next) {
                let k = choose|k: int|
                    0 <= k < next.len() && contains_seq(
                        #[trigger] next[k],
                        edit.pattern_bytes(),
                    );
                assert(seen[k] == next[k]);
            }
            if edit.applies_to(seen) {
                let k = choose|k: int|
                    0 <= k < seen.len() && contains_seq(
                        #[trigger] seen[k],
                        edit.pattern_bytes(),
                    );
                assert(next[k] == seen[k]);
            }
        }
        if hit {
            changed = true;
            match &operation {
                FileOperation::ReplaceText { pattern: _, replacement } => {
                    let new_line = replace_all(
                        line.as_slice(),
                        pattern,
                        replacement.as_str().as_bytes(),
                    );
                    rewritten.push(new_line);
                    proof {
                        assert(rows(rewritten@) =~= before + edit.rewrite_line(line@));
                    }
                },
                FileOperation::AddBefore { pattern: _, new_line } => {
                    rewritten.push(copy_bytes(new_line.as_str().as_bytes()));
                    rewritten.push(copy_bytes(line.as_slice()));
                    proof {
                        assert(rows(rewritten@) =~= before + edit.rewrite_line(line@));
                    }
                },
                FileOperation::AddAfter { pattern: _, new_line } => {
                    rewritten.push(copy_bytes(line.as_slice()));
                    rewritten.push(copy_bytes(new_line.as_str().as_bytes()));
                    proof {
                        assert(rows(rewritten@) =~= before + edit.rewrite_line(line@));
                    }
                },
            }
        } else {
            rewritten.push(copy_bytes(line.as_slice()));
            proof {
                assert(rows(rewritten@) =~= before + edit.rewrite_line(line@));
            }
        }
        proof {
            assert(rows(rewritten@) + edit.rewrite_lines(rest.drop_first()) =~= before + (
            edit.rewrite_line(rest[0]) + edit.rewrite_lines(rest.drop_first())));
        }
        i += 1;
    }
    proof {
        assert(all.subrange(i as int, all.len() as int) =~= Seq::<Seq<u8>>::empty());
        assert(all.subrange(0, i as int) =~= all);
        assert(rows(rewritten@) + Seq::<Seq<u8>>::empty() =~= rows(rewritten@));
    }
    if changed {
        Ok(join(&rewritten))
    } else {
        Err(NoModification)
    }
}

/// None of the alternatives is there.
#[derive(Debug, Clone, Copy, PartialEq, Eq)]
pub struct NotFound;

/// The offset of the first `true` in `flags`, or their number where all are
/// `false`.
pub open spec fn first_true(flags: Seq<bool>) -> int
    decreases flags.len(),
{
    if flags.len() == 0 || flags[0] {
        0
    } else {
        1 + first_true(flags.drop_first())
    }
}

/// Where a flag is `true`, `first_true` lies within the flags, at a `true`
/// one.
pub proof fn lemma_first_true_is_true(flags: Seq<bool>, i: int)
    requires
        0 <= i < flags.len(),
        flags[i],
    ensures
        0 <= first_true(flags) <= i,
        flags[first_true(flags)],
    decreases flags.len(),
{
    if !flags[0] {
        assert(flags.drop_first()[i - 1] == flags[i]);
        lemma_first_true_is_true(flags.drop_first(), i - 1);
        assert(flags.drop_first()[first_true(flags.drop_first())] == flags[first_true(flags)]);
    }
}

/// `first_true` is the one offset before which all flags are `false` and at
/// which the flags end or one is `true`.
pub proof fn lemma_first_true(flags: Seq<bool>, n: int)
    requires
        0 <= n <= flags.len(),
        forall|j: int| 0 <= j < n ==> !flags[j],
        n == flags.len() || flags[n],
    ensures
        first_true(flags) == n,
    decreases flags.len(),
{
    if flags.len() == 0 || flags[0] {
    } else {
        let rest = flags.drop_first();
        assert forall|j: int| 0 <= j < n - 1 implies !rest[j] by {
            assert(rest[j] == flags[j + 1]);
        }
        lemma_first_true(rest, n - 1);
    }
}

/// Picks the first of `alternatives`, paths below `dir`, that is there:
/// `present` says of each in turn whether it is, and one without a flag
/// counts as absent. Returns its path below `dir`.
pub fn find_file(dir: &str, alternatives: &[&str], present: &[bool]) -> (found: Result<
    String,
    NotFound,
>)
    ensures
        match found {
            Ok(path) => first_true(present@) < present.len() && first_true(present@)
                < alternatives.len() && path@ == join_spec(
                dir@,
                alternatives[first_true(present@)]@,
            ),
            Err(_) => first_true(present@) >= present.len() || first_true(present@)
                >= alternatives.len(),
        },
{
    let mut i: usize = 0;
    while i < present.len()
        invariant
            i <= present.len(),
            forall|j: int| 0 <= j < i ==> !present[j],
        decreases present.len() - i,
    {
        if present[i] {
            proof {
                lemma_first_true(present@, i as int);
            }
            if i < alternatives.len() {
                return Ok(join_path(dir, alternatives[i]));
            }
            return Err(NotFound);
        }
        i += 1;
    }
    proof {
        lemma_first_true(present@, i as int);
    }
    Err(NotFound)
}

/// The texts that a list of strings holds.
pub open spec fn strs(list: Seq<String>) -> Seq<Seq<char>> {
    Seq::new(list.len(), |i: int| list[i]@)
}

/// A program to run and the arguments to run it with.
pub struct CommandLine {
    pub program: String,
    pub args: Vec<String>,
}

impl View for CommandLine {
    type V = (Seq<char>, Seq<Seq<char>>);

    /// The program and its arguments.
    open spec fn view(&self) -> (Seq<char>, Seq<Seq<char>>) {
        (self.program@, strs(self.args@))
    }
}

/// How a process ended that was started and waited for.
pub struct ProcessOutput {
    /// The process reported success.
    pub success: bool,
    /// The exit code, where the process ended with one.
    pub code: Option<i32>,
    /// What it wrote to its standard output, where that is UTF-8.
    pub stdout: Option<String>,
    /// What it wrote to its standard error, where that is UTF-8.
    pub stderr: Option<String>,
}

/// Why a tool gave no output to use.
#[derive(Debug, PartialEq, Eq)]
pub enum ToolError {
    /// The process could not be started.
    NotStarted,
    /// The process failed: its exit code, or -1 where it had none, and what
    /// it wrote to its standard error.
    Failed { exit_code: i32, stderr: String },
    /// What the process wrote is not UTF-8: its standard error after a
    /// failure, or its standard output after a success.
    NotText,
}

/// Judges a run of a tool: `output` is how the process ended, or nothing
/// where it could not be started. A successful run gives its standard
/// output; a failed one its exit code and standard error.
pub fn run_command(output: Option<ProcessOutput>) -> (result: Result<String, ToolError>)
    ensures
        match output {
            None => result matches Err(ToolError::NotStarted),
            Some(out) => if out.success {
                match out.stdout {
                    Some(text) => result matches Ok(t) && t@ == text@,
                    None => result matches Err(ToolError::NotText),
                }
            } else {
                match out.stderr {
                    Some(text) => result matches Err(ToolError::Failed { exit_code, stderr })
                        && stderr@ == text@ && exit_code == (match out.code {
                        Some(code) => code,
                        None => -1i32,
                    }),
                    None => result matches Err(ToolError::NotText),
                }
            },
        },
{
    match output {
        None => Err(ToolError::NotStarted),
        Some(out) => {
            if out.success {
                match out.stdout {
                    Some(text) => Ok(text),
                    None => Err(ToolError::NotText),
                }
            } else {
                match out.stderr {
                    Some(stderr) => {
                        let exit_code: i32 = match out.code {
                            Some(code) => code,
                            None => -1,
                        };
                        Err(ToolError::Failed { exit_code, stderr })
                    },
                    None => Err(ToolError::NotText),
                }
            }
        },
    }
}

/// What was found of a file that is to be read.
pub enum Source {
    /// No path of the file is there.
    Missing,
    /// The file is there and could not be read.
    Unreadable,
    /// The bytes of the file.
    Text(Vec<u8>),
}

impl View for Source {
    type V = Option<Seq<u8>>;

    /// The bytes of the file, where it was read.
    open spec fn view(&self) -> Option<Seq<u8>> {
        match self {
            Source::Text(text) => Some(text@),
            _ => None,
        }
    }
}

} // verus!
