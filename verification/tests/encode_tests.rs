use scroll_dump::encode::{contains_sub, dec_u64, json_escape};

fn b(s: &str) -> Vec<u8> {
    s.as_bytes().to_vec()
}

#[test]
fn decimal_zero() {
    assert_eq!(dec_u64(0), b("0"));
}

#[test]
fn decimal_single_digit() {
    assert_eq!(dec_u64(7), b("7"));
}

#[test]
fn decimal_many_digits() {
    assert_eq!(dec_u64(1234), b("1234"));
    assert_eq!(dec_u64(1000), b("1000"));
    assert_eq!(dec_u64(u64::MAX), b("18446744073709551615"));
}

#[test]
fn escape_plain_text_unchanged() {
    assert_eq!(json_escape(&b("plain text 123")), b("plain text 123"));
}

#[test]
fn escape_quote_and_backslash() {
    assert_eq!(json_escape(&b("a\"b")), b("a\\\"b"));
    assert_eq!(json_escape(&b("a\\b")), b("a\\\\b"));
}

#[test]
fn escape_control_bytes() {
    assert_eq!(json_escape(&b("a\nb")), b("a\\nb"));
    assert_eq!(json_escape(&b("a\tb")), b("a\\tb"));
    assert_eq!(json_escape(&b("a\rb")), b("a\\rb"));
    assert_eq!(json_escape(&vec![0x01u8]), b("\\u0001"));
    assert_eq!(json_escape(&vec![0x1fu8]), b("\\u001f"));
}

#[test]
fn escape_keeps_multibyte_bytes() {
    let s = "caf\u{e9}".as_bytes().to_vec();
    assert_eq!(json_escape(&s), s);
}

#[test]
fn substring_found() {
    assert!(contains_sub(&b("logs-1.json"), &b("logs")));
    assert!(contains_sub(&b("logs-1.json"), &b(".json")));
    assert!(contains_sub(&b("abc"), &b("")));
    assert!(contains_sub(&b(""), &b("")));
    assert!(contains_sub(&b("aaab"), &b("ab")));
}

#[test]
fn substring_absent() {
    assert!(!contains_sub(&b("logs-1.json"), &b("metrics")));
    assert!(!contains_sub(&b("ab"), &b("abc")));
    assert!(!contains_sub(&b(""), &b("a")));
}
