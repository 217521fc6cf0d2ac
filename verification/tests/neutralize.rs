use wasmcov::artifacts::correct_ll_file;

#[test]
fn stubs_out_a_single_function() {
    let input = b"; ModuleID = 'foo'\ndefine i32 @f(i32 %x) {\nentry:\n  %y = add i32 %x, 1\n  ret i32 %y\n}\n\n@g = global i32 0\n";
    let expected = b"; ModuleID = 'foo'\ndefine i32 @f(i32 %x) {\nstart:\n  unreachable\n}\n\n@g = global i32 0\n";
    assert_eq!(correct_ll_file(input), expected.to_vec());
}

#[test]
fn copies_text_without_functions() {
    let input = b"target triple = \"wasm32-unknown-unknown\"\n@g = global i32 0\ndeclare void @h()\n";
    assert_eq!(correct_ll_file(input), input.to_vec());
}

#[test]
fn copies_empty_text() {
    assert_eq!(correct_ll_file(b""), Vec::<u8>::new());
}

#[test]
fn stubs_out_every_function() {
    let input = b"define void @a() {\n  ret void\n}\ndefine void @b() #0 {\nbb1:\n  br label %bb2\nbb2:\n  ret void\n}\n";
    let expected = b"define void @a() {\nstart:\n  unreachable\n}\ndefine void @b() #0 {\nstart:\n  unreachable\n}\n";
    assert_eq!(correct_ll_file(input), expected.to_vec());
}

#[test]
fn body_ends_at_first_closing_line() {
    let input = b"define void @a() {\n  switch i32 %x, label %d [\n  }\n} \t\r\ntail\n";
    let expected = b"define void @a() {\nstart:\n  unreachable\n}\ntail\n";
    assert_eq!(correct_ll_file(input), expected.to_vec());
}

#[test]
fn closing_line_without_line_feed() {
    let input = b"define void @a() {\n  ret void\n}";
    let expected = b"define void @a() {\nstart:\n  unreachable\n}\n";
    assert_eq!(correct_ll_file(input), expected.to_vec());
}

#[test]
fn unclosed_function_is_left_alone() {
    let input = b"@g = global i32 0\ndefine void @a() {\n  ret void\n} ; no end\n";
    assert_eq!(correct_ll_file(input), input.to_vec());
}

#[test]
fn header_needs_a_line_feed() {
    let input = b"define void @a() {";
    assert_eq!(correct_ll_file(input), input.to_vec());
}

#[test]
fn stubbing_is_repeatable() {
    let input = b"define void @a() {\n  ret void\n}\n";
    assert_eq!(correct_ll_file(input), correct_ll_file(input));
}
