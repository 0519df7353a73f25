use conduit_client::jsontext::json_quoted_string;
use conduit_client::textutil::{contains_substring, str_eq, u64_to_dec};

#[test]
fn decimal_zero() {
    assert_eq!(u64_to_dec(0), "0");
}

#[test]
fn decimal_round_number() {
    assert_eq!(u64_to_dec(30000), "30000");
}

#[test]
fn decimal_largest() {
    assert_eq!(u64_to_dec(u64::MAX), "18446744073709551615");
}

#[test]
fn str_eq_equal_and_unequal() {
    assert!(str_eq("abc", "abc"));
    assert!(!str_eq("abc", "abd"));
    assert!(!str_eq("abc", "abcd"));
    assert!(str_eq("", ""));
}

#[test]
fn substring_found() {
    assert!(contains_substring("errcode: M_USER_IN_USE here", "M_USER_IN_USE"));
    assert!(contains_substring("tail match", "match"));
    assert!(contains_substring("anything", ""));
}

#[test]
fn substring_missing() {
    assert!(!contains_substring("errcode: M_FORBIDDEN", "M_USER_IN_USE"));
    assert!(!contains_substring("short", "much longer needle"));
}

#[test]
fn quoting_plain_text() {
    assert_eq!(json_quoted_string("hello"), "\"hello\"");
    assert_eq!(json_quoted_string(""), "\"\"");
}

#[test]
fn quoting_escapes() {
    assert_eq!(json_quoted_string("a\"b\\c"), "\"a\\\"b\\\\c\"");
    assert_eq!(json_quoted_string("line\nbreak\tand\rmore"), "\"line\\nbreak\\tand\\rmore\"");
    assert_eq!(json_quoted_string("\u{1}"), "\"\\u0001\"");
    assert_eq!(json_quoted_string("\u{1f}"), "\"\\u001f\"");
}

#[test]
fn quoting_round_trip_through_serde() {
    let original = "tricky \"quotes\" and \\slashes\\ and\nnewlines\u{2}";
    let quoted = json_quoted_string(original);
    let decoded: serde_json::Value = serde_json::from_str(&quoted).unwrap();
    assert_eq!(decoded.as_str().unwrap(), original);
}
