use clipspeak::text::is_wsp_char;
use clipspeak::text::trim;

#[test]
fn trim_removes_surrounding_whitespace() {
    assert_eq!(trim("  foo  "), "foo");
}

#[test]
fn trim_keeps_inner_whitespace() {
    assert_eq!(trim(" a b\tc "), "a b\tc");
}

#[test]
fn trim_of_empty_is_empty() {
    assert_eq!(trim(""), "");
}

#[test]
fn trim_of_whitespace_only_is_empty() {
    assert_eq!(trim(" \t\r\n "), "");
}

#[test]
fn trim_without_whitespace_is_identity() {
    assert_eq!(trim("plain"), "plain");
}

#[test]
fn trim_handles_unicode_whitespace() {
    assert_eq!(trim("\u{3000}\u{00A0}wide\u{2028}"), "wide");
    assert_eq!(trim("\u{200A}x\u{2009}"), "x");
}

#[test]
fn trim_keeps_non_ascii_content() {
    assert_eq!(trim("  héllo wörld  "), "héllo wörld");
}

#[test]
fn whitespace_characters_recognized() {
    assert!(is_wsp_char(' '));
    assert!(is_wsp_char('\t'));
    assert!(is_wsp_char('\n'));
    assert!(is_wsp_char('\r'));
    assert!(is_wsp_char('\u{3000}'));
    assert!(!is_wsp_char('a'));
    assert!(!is_wsp_char('-'));
    assert!(!is_wsp_char('\u{200B}'));
}
