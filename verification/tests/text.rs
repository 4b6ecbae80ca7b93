//! Plain text handling agrees with the standard library.

use otto_tui::text::{
    begins_with, contains, join, lines, lower_char, number, strip, to_lower, trim, trim_start, white_space,
};

#[test]
fn white_space_is_that_of_unicode() {
    for c in '\0'..=char::MAX {
        assert_eq!(white_space(c), c.is_whitespace(), "{c:?}");
    }
}

#[test]
fn lower_case_is_ascii_only() {
    for c in '\0'..=char::MAX {
        assert_eq!(lower_char(c), c.to_ascii_lowercase(), "{c:?}");
    }
    assert_eq!(to_lower("ÄBc"), "Äbc");
}

#[test]
fn lines_are_those_of_a_text() {
    for text in ["", "a", "a\n", "a\r\nb", "\n\n", "a\n\nb\n", "a\rb", "a\r", "x\r\r\n"] {
        let expected: Vec<&str> = text.lines().collect();
        assert_eq!(lines(text), expected, "{text:?}");
    }
}

#[test]
fn trimming_takes_white_space_off_both_ends() {
    for text in ["", "  ", " a ", "\u{a0}b\u{3000}", "a b", "\n\tx"] {
        assert_eq!(trim(text), text.trim(), "{text:?}");
        assert_eq!(trim_start(text), text.trim_start(), "{text:?}");
    }
}

#[test]
fn searching_finds_whole_substrings() {
    for (s, p) in [("", ""), ("abc", ""), ("abc", "bc"), ("abc", "cb"), ("aab", "ab"), ("é", "e")] {
        assert_eq!(contains(s, p), s.contains(p), "{s:?} {p:?}");
        assert_eq!(begins_with(s, p), s.starts_with(p), "{s:?} {p:?}");
        assert_eq!(strip(s, p).as_deref(), s.strip_prefix(p), "{s:?} {p:?}");
    }
}

#[test]
fn numbers_are_decimal() {
    for n in [0, 7, 10, 99, 1000, u64::MAX] {
        assert_eq!(number(n), n.to_string());
    }
}

#[test]
fn joining_puts_the_separator_between() {
    let parts = ["a".to_string(), String::new(), "b".to_string()];
    assert_eq!(join(&parts, ", "), "a, , b");
    assert_eq!(join(&[], ", "), "");
}
