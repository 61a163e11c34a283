use lgaircon::number::{i32_to_string, parse_i32};

#[test]
fn i32_text_matches_std() {
    for x in [0, 7, -7, 10, -10, 123456, i32::MAX, i32::MIN, -1, 1000000000] {
        assert_eq!(i32_to_string(x), x.to_string());
        assert_eq!(parse_i32(&x.to_string()), Some(x));
    }
}

#[test]
fn parse_i32_grammar() {
    assert_eq!(parse_i32("+42"), Some(42));
    assert_eq!(parse_i32("-0"), Some(0));
    assert_eq!(parse_i32("007"), Some(7));
    assert_eq!(parse_i32("-2147483648"), Some(i32::MIN));
    assert_eq!(parse_i32("2147483648"), None);
    assert_eq!(parse_i32("-2147483649"), None);
    assert_eq!(parse_i32("99999999999999999999"), None);
    assert_eq!(parse_i32(""), None);
    assert_eq!(parse_i32("-"), None);
    assert_eq!(parse_i32("+"), None);
    assert_eq!(parse_i32(" 1"), None);
    assert_eq!(parse_i32("1_000"), None);
    assert_eq!(parse_i32("١"), None);
    for t in ["+42", "-0", "007", "2147483648", "", "-", " 1", "1_000"] {
        assert_eq!(parse_i32(t), t.parse::<i32>().ok());
    }
}
