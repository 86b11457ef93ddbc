use peterlits_com_server::text::{decimal_text, parse_i64, signed_decimal_text, text_is};

#[test]
fn parse_agrees_with_std() {
    let cases = [
        "0", "12", "+7", "-3", "", "+", "-", "1a", " 1", "1 ", "00012", "-0",
        "9223372036854775807", "9223372036854775808", "-9223372036854775808",
        "-9223372036854775809", "99999999999999999999999", "+-1", "--1", "٣", "1_000",
    ];
    for s in cases {
        assert_eq!(parse_i64(s), s.parse::<i64>().ok(), "{:?}", s);
    }
}

#[test]
fn parse_values() {
    assert_eq!(parse_i64("43"), Some(43));
    assert_eq!(parse_i64("-9223372036854775808"), Some(i64::MIN));
    assert_eq!(parse_i64("9223372036854775808"), None);
    assert_eq!(parse_i64("abc"), None);
}

#[test]
fn decimal_text_agrees_with_std() {
    for n in [0u64, 1, 7, 9, 10, 11, 43, 99, 100, 1000, 123456789, u64::MAX] {
        assert_eq!(decimal_text(n), n.to_string());
    }
    for n in [0i64, -1, 3, -10, 44, i64::MIN, i64::MAX] {
        assert_eq!(signed_decimal_text(n), n.to_string());
    }
}

#[test]
fn text_is_compares_whole_texts() {
    assert!(text_is("page", "page"));
    assert!(!text_is("page", "pages"));
    assert!(!text_is("Page", "page"));
    assert!(text_is("", ""));
    assert!(text_is("é", "é"));
    assert!(!text_is("é", "e"));
}
