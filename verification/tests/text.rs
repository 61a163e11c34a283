use lgaircon::text::{split, str_eq, trim_text};

#[test]
fn split_keeps_empty_pieces() {
    assert_eq!(split("a b", ' '), vec!["a", "b"]);
    assert_eq!(split("", ' '), vec![""]);
    assert_eq!(split(" a  b ", ' '), vec!["", "a", "", "b", ""]);
    assert_eq!(split("AC_HIGH_21", '_'), vec!["AC", "HIGH", "21"]);
}

#[test]
fn trim_removes_unicode_white_space() {
    assert_eq!(trim_text("  21\n"), "21");
    assert_eq!(trim_text("\u{3000}x y\u{a0}"), "x y");
    assert_eq!(trim_text(" \t "), "");
    assert_eq!(trim_text("é "), "é");
}

#[test]
fn str_eq_compares_text() {
    assert!(str_eq("AC", "AC"));
    assert!(!str_eq("AC", "AC "));
}
