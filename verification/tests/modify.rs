use wasmcov::utils::{find_file, modify_file, run_command};
use wasmcov::utils::{FileOperation, NoModification, NotFound, ProcessOutput, ToolError};

fn replace(pattern: &str, replacement: &str) -> FileOperation {
    FileOperation::ReplaceText { pattern: pattern.to_string(), replacement: replacement.to_string() }
}

#[test]
fn replace_text_changes_matching_lines_only() {
    let out = modify_file(b"[profile.quick-release]\nkeep\nquick quick\n", replace("quick", "dev"));
    assert_eq!(out, Ok(b"[profile.dev-release]\nkeep\ndev dev\n".to_vec()));
}

#[test]
fn add_before_puts_the_line_first() {
    let op = FileOperation::AddBefore { pattern: "anchor".to_string(), new_line: "new".to_string() };
    let out = modify_file(b"a\n  anchor here\nb\nanchor", op);
    assert_eq!(out, Ok(b"a\nnew\n  anchor here\nb\nnew\nanchor\n".to_vec()));
}

#[test]
fn add_after_puts_the_line_behind() {
    let op = FileOperation::AddAfter { pattern: "anchor".to_string(), new_line: "new".to_string() };
    let out = modify_file(b"a\r\nanchor\r\nb", op);
    assert_eq!(out, Ok(b"a\nanchor\nnew\nb\n".to_vec()));
}

#[test]
fn no_matching_line_is_an_error() {
    assert_eq!(modify_file(b"a\nb\n", replace("c", "d")), Err(NoModification));
    assert_eq!(modify_file(b"", replace("c", "d")), Err(NoModification));
    let op = FileOperation::AddBefore { pattern: "x\ny".to_string(), new_line: "n".to_string() };
    assert_eq!(modify_file(b"x\ny\n", op), Err(NoModification));
}

#[test]
fn empty_pattern_matches_every_line() {
    let op = FileOperation::AddAfter { pattern: String::new(), new_line: "-".to_string() };
    assert_eq!(modify_file(b"a\n\nb", op), Ok(b"a\n-\n\n-\nb\n-\n".to_vec()));
    assert_eq!(modify_file(b"ab\n", replace("", ".")), Ok(b".a.b.\n".to_vec()));
    assert_eq!(modify_file(b"", replace("", ".")), Err(NoModification));
}

#[test]
fn find_file_takes_the_first_that_is_there() {
    let alternatives = ["a/one.rs", "a/two.rs", "three.rs"];
    assert_eq!(find_file("repo", &alternatives, &[false, true, true]), Ok("repo/a/two.rs".to_string()));
    assert_eq!(find_file("repo/", &alternatives, &[true, true, true]), Ok("repo/a/one.rs".to_string()));
    assert_eq!(find_file("", &alternatives, &[false, false, true]), Ok("three.rs".to_string()));
    assert_eq!(find_file("repo", &alternatives, &[false, false, false]), Err(NotFound));
    assert_eq!(find_file("repo", &alternatives, &[]), Err(NotFound));
    assert_eq!(find_file("repo", &alternatives, &[false]), Err(NotFound));
    assert_eq!(find_file("repo", &alternatives, &[false, false, false, true]), Err(NotFound));
    assert_eq!(find_file("repo", &[], &[true]), Err(NotFound));
    assert_eq!(find_file("repo", &["/abs/file"], &[true]), Ok("/abs/file".to_string()));
}

fn output(success: bool, code: Option<i32>, stdout: Option<&str>, stderr: Option<&str>) -> ProcessOutput {
    ProcessOutput {
        success,
        code,
        stdout: stdout.map(String::from),
        stderr: stderr.map(String::from),
    }
}

#[test]
fn run_command_gives_the_output_of_a_success() {
    assert_eq!(run_command(Some(output(true, Some(0), Some("out"), Some("warn")))), Ok("out".to_string()));
    assert_eq!(run_command(Some(output(true, Some(0), Some("out"), None))), Ok("out".to_string()));
}

#[test]
fn run_command_reports_a_failure_with_its_stderr() {
    assert_eq!(
        run_command(Some(output(false, Some(2), Some("out"), Some("boom")))),
        Err(ToolError::Failed { exit_code: 2, stderr: "boom".to_string() })
    );
    assert_eq!(
        run_command(Some(output(false, None, None, Some("killed")))),
        Err(ToolError::Failed { exit_code: -1, stderr: "killed".to_string() })
    );
}

#[test]
fn run_command_reports_what_did_not_start() {
    assert_eq!(run_command(None), Err(ToolError::NotStarted));
}

#[test]
fn run_command_reports_output_that_is_no_text() {
    assert_eq!(run_command(Some(output(true, Some(0), None, Some("")))), Err(ToolError::NotText));
    assert_eq!(run_command(Some(output(false, Some(1), Some(""), None))), Err(ToolError::NotText));
}
