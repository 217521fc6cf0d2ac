use wasmcov::text::{contains, find_from, join, matches_at, replace_all, split_lines};

#[test]
fn matches_at_checks_the_window() {
    assert!(matches_at(b"hello world", b"world", 6));
    assert!(!matches_at(b"hello world", b"world", 5));
    assert!(!matches_at(b"hello world", b"world", 7));
    assert!(!matches_at(b"hello", b"hello!", 0));
    assert!(matches_at(b"hello", b"", 5));
    assert!(!matches_at(b"hello", b"", 6));
}

#[test]
fn find_from_gives_the_first_offset() {
    assert_eq!(find_from(b"abcabc", b"bc", 0), Some(1));
    assert_eq!(find_from(b"abcabc", b"bc", 2), Some(4));
    assert_eq!(find_from(b"abcabc", b"bc", 5), None);
    assert_eq!(find_from(b"abcabc", b"cb", 0), None);
    assert_eq!(find_from(b"abc", b"", 3), Some(3));
    assert_eq!(find_from(b"abc", b"", 4), None);
    assert_eq!(find_from(b"", b"a", 0), None);
}

#[test]
fn contains_finds_a_window_anywhere() {
    assert!(contains(b"\0asm__llvm_profile_init\x01", b"__llvm_profile_init"));
    assert!(!contains(b"\0asm__llvm_profile_ini", b"__llvm_profile_init"));
    assert!(contains(b"", b""));
    assert!(contains(b"abc", b""));
    assert!(!contains(b"", b"a"));
}

#[test]
fn replace_all_takes_occurrences_from_the_left() {
    assert_eq!(replace_all(b"aaa", b"aa", b"b"), b"ba".to_vec());
    assert_eq!(replace_all(b"a-b-c", b"-", b"_"), b"a_b_c".to_vec());
    assert_eq!(replace_all(b"abc", b"x", b"y"), b"abc".to_vec());
    assert_eq!(replace_all(b"abcabc", b"abc", b""), b"".to_vec());
    assert_eq!(replace_all(b"ab", b"abc", b"x"), b"ab".to_vec());
    assert_eq!(replace_all(b"xabx", b"ab", b"abab"), b"xababx".to_vec());
}

#[test]
fn replace_all_agrees_with_str_replace() {
    let cases: [(&str, &str, &str); 6] = [
        ("profile.quick-release", "quick", "dev"),
        ("aaaa", "aa", "a"),
        ("h\u{e9}llo w\u{f6}rld", "l", "L"),
        ("abc", "", "-"),
        ("h\u{e9}\u{4e16}\u{1f600}!", "", "|"),
        ("", "", "x"),
    ];
    for (text, pattern, replacement) in cases {
        assert_eq!(
            replace_all(text.as_bytes(), pattern.as_bytes(), replacement.as_bytes()),
            text.replace(pattern, replacement).into_bytes()
        );
    }
}

#[test]
fn split_lines_drops_line_ends() {
    assert_eq!(split_lines(b"a\nb\r\nc"), vec![b"a".to_vec(), b"b".to_vec(), b"c".to_vec()]);
    assert_eq!(split_lines(b"a\n"), vec![b"a".to_vec()]);
    assert_eq!(split_lines(b""), Vec::<Vec<u8>>::new());
    assert_eq!(split_lines(b"\n"), vec![b"".to_vec()]);
    assert_eq!(split_lines(b"\n\n"), vec![b"".to_vec(), b"".to_vec()]);
    assert_eq!(split_lines(b"a\r"), vec![b"a\r".to_vec()]);
    assert_eq!(split_lines(b"a\r\r\n"), vec![b"a\r".to_vec()]);
    assert_eq!(split_lines(b"\r\n"), vec![b"".to_vec()]);
}

#[test]
fn split_lines_agrees_with_str_lines() {
    let cases: [&str; 6] = ["", "one", "one\ntwo\n", "one\r\ntwo", "\n\nx\r", "a\rb\n\r\n"];
    for text in cases {
        let expected: Vec<Vec<u8>> = text.lines().map(|l| l.as_bytes().to_vec()).collect();
        assert_eq!(split_lines(text.as_bytes()), expected);
    }
}

#[test]
fn join_ends_every_line() {
    assert_eq!(join(&vec![b"a".to_vec(), b"".to_vec(), b"b".to_vec()]), b"a\n\nb\n".to_vec());
    assert_eq!(join(&Vec::new()), Vec::<u8>::new());
}
