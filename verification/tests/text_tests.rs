//! The text helpers: decimal parsing and formatting, substring search.
use mojxml::text::{contains_str, parse_u32_text, u32_to_text};

#[test]
fn test_parse_u32_text_values() {
    assert_eq!(parse_u32_text("0"), Some(0));
    assert_eq!(parse_u32_text("46505"), Some(46505));
    assert_eq!(parse_u32_text("+7"), Some(7));
    assert_eq!(parse_u32_text("4294967295"), Some(u32::MAX));
}

#[test]
fn test_parse_u32_text_rejections() {
    assert_eq!(parse_u32_text(""), None);
    assert_eq!(parse_u32_text("+"), None);
    assert_eq!(parse_u32_text("-1"), None);
    assert_eq!(parse_u32_text("12x45"), None);
    assert_eq!(parse_u32_text("4294967296"), None);
    assert_eq!(parse_u32_text(" 5"), None);
    // The library accepts exactly what u32 itself accepts.
    for t in ["0", "46505", "+7", "", "+", "-1", "12x45", "4294967296", " 5"] {
        assert_eq!(parse_u32_text(t), t.parse::<u32>().ok(), "divergence on {:?}", t);
    }
}

#[test]
fn test_u32_to_text_values() {
    assert_eq!(u32_to_text(0), "0");
    assert_eq!(u32_to_text(7), "7");
    assert_eq!(u32_to_text(46505), "46505");
    assert_eq!(u32_to_text(u32::MAX), "4294967295");
}

#[test]
fn test_contains_str() {
    assert!(contains_str("1番地区外あり", "地区外"));
    assert!(contains_str("別図", "別図"));
    assert!(!contains_str("地区", "地区外"));
    assert!(contains_str("anything", ""));
    assert!(!contains_str("", "a"));
}
