use peckboard_nginx_manager_plugin::text::{
    contains, contains_lowered, decimal_text, ends_with, find, is_whitespace, join, lines,
    matches_at, same, signed_decimal_text, slice_of, split, starts_with, string_of, trim,
    trim_end_slashes, chars_of,
};

fn texts(parts: Vec<Vec<char>>) -> Vec<String> {
    parts.into_iter().map(|part| part.into_iter().collect()).collect()
}

#[test]
fn white_space_is_that_of_unicode() {
    for n in 0u32..=0x10_ffff {
        if let Some(c) = char::from_u32(n) {
            assert_eq!(is_whitespace(c), c.is_whitespace(), "{n:x}");
        }
    }
}

#[test]
fn trimming_cuts_both_ends() {
    for s in ["", " ", "a", " a b ", "\t\u{3000}x\u{2028}\n", "x", "  /  "] {
        assert_eq!(trim(s), s.trim());
        assert_eq!(trim(trim(s).as_str()), s.trim());
    }
    assert_eq!(trim_end_slashes("a//b///"), "a//b");
    assert_eq!(trim_end_slashes("///"), "");
    assert_eq!(trim_end_slashes("x"), "x");
}

#[test]
fn searching_finds_the_first_place() {
    let chars = chars_of("abcabc");
    assert_eq!(chars, vec!['a', 'b', 'c', 'a', 'b', 'c']);
    let bc = chars_of("bc");
    assert_eq!(find(&chars, &bc, 0), Some(1));
    assert_eq!(find(&chars, &bc, 2), Some(4));
    assert_eq!(find(&chars, &bc, 5), None);
    assert_eq!(find(&chars, &chars_of(""), 6), Some(6));
    assert!(matches_at(&chars, &bc, 4));
    assert!(!matches_at(&chars, &bc, 3));
    assert!(!matches_at(&chars, &bc, 7));
    assert!(contains("text/event-stream; charset=utf-8", "text/event-stream"));
    assert!(!contains("application/json", "text/event-stream"));
    assert!(contains("", ""));
    assert!(contains_lowered("No Valid SESSION ID", "session"));
    assert!(!contains_lowered("SESS ION", "session"));
    assert!(starts_with("http://x", "http://"));
    assert!(!starts_with("htt", "http://"));
    assert!(ends_with("x/api/mcp", "/api/mcp"));
    assert!(!ends_with("mcp", "/api/mcp"));
    assert!(same("ä", "ä"));
    assert!(!same("ä", "a"));
}

#[test]
fn splitting_and_joining() {
    for s in ["", "a", "a\n\nb", "\n\n", "a\n\n\nb", "a\n\n\n\nb\n"] {
        let want: Vec<String> = s.split("\n\n").map(str::to_string).collect();
        assert_eq!(texts(split(&chars_of(s), &chars_of("\n\n"))), want);
    }
    for s in ["", "a", "a\nb", "a\r\nb\r", "\n", "a\n\nb\n", "\r\n\r\n"] {
        let want: Vec<String> = s.lines().map(str::to_string).collect();
        assert_eq!(texts(lines(&chars_of(s))), want);
    }
    let parts = vec!["a".to_string(), "".to_string(), "c".to_string()];
    assert_eq!(join(&parts, "\n"), "a\n\nc");
    assert_eq!(join(&vec![], "\n"), "");
    let chars = chars_of("héllo");
    assert_eq!(string_of(&chars, 1, 3), "él");
    assert_eq!(slice_of(&chars, 3, 5), vec!['l', 'o']);
}

#[test]
fn numbers_are_written_in_decimal() {
    for n in [0u64, 7, 10, 99, 100, 65535, u64::MAX] {
        assert_eq!(decimal_text(n), n.to_string());
    }
    for n in [0i64, 5, -1, -32602, i64::MAX, i64::MIN] {
        assert_eq!(signed_decimal_text(n), n.to_string());
    }
}
