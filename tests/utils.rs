use craby_codegen::utils::indent_str;

#[test]
fn test_indent_str() {
    assert_eq!(indent_str("Hello\nWorld".to_string(), 2), "  Hello\n  World");
    assert_eq!(indent_str("Hello\nWorld".to_string(), 4), "    Hello\n    World");
}

#[test]
fn indent_keeps_blank_lines_and_drops_final_newline() {
    assert_eq!(indent_str("a\n   \nb\n".to_string(), 2), "  a\n   \n  b");
    assert_eq!(indent_str("a\r\nb".to_string(), 1), " a\n b");
    assert_eq!(indent_str(String::new(), 3), "");
}
