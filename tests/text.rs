use tbf::text::{contains_text, ends_with_text, int_to_text, nat_to_text, parse_digits, parse_i64, prefixed};

#[test]
fn decimal_notation() {
    assert_eq!(nat_to_text(0), "0");
    assert_eq!(nat_to_text(1622854217), "1622854217");
    assert_eq!(int_to_text(-42), "-42");
    assert_eq!(int_to_text(i64::MIN as i128), "-9223372036854775808");
    assert_eq!(int_to_text(i128::MIN), i128::MIN.to_string());
    assert_eq!(int_to_text(i128::MAX), i128::MAX.to_string());
}

#[test]
fn reading_integers() {
    assert_eq!(parse_i64("42218705421"), Some(42218705421));
    assert_eq!(parse_i64("+5"), Some(5));
    assert_eq!(parse_i64("-9223372036854775808"), Some(i64::MIN));
    assert_eq!(parse_i64("9223372036854775808"), None);
    assert_eq!(parse_i64("-"), None);
    assert_eq!(parse_i64(""), None);
    assert_eq!(parse_i64("1 2"), None);
    assert_eq!(parse_digits(&vec!['2', '5', '5'], 255), Some(255));
    assert_eq!(parse_digits(&vec!['2', '5', '6'], 255), None);
}

#[test]
fn searching_text() {
    assert!(contains_text("1-unmuted.ts", "unmuted"));
    assert!(!contains_text("1-muted.ts", "unmuted"));
    assert!(contains_text("abc", ""));
    assert!(ends_with_text("1-muted.ts", "-muted.ts"));
    assert!(!ends_with_text("ts", "-muted.ts"));
    assert_eq!(prefixed("io error: ", "denied"), "io error: denied");
}
