use macroman::text::{decimal_string, join_strings, parse_u64, split_trimmed, trimmed};

#[test]
fn parse_u64_plain_digits() {
    assert_eq!(parse_u64("42"), Some(42));
    assert_eq!(parse_u64("0"), Some(0));
    assert_eq!(parse_u64("007"), Some(7));
}

#[test]
fn parse_u64_plus_sign() {
    assert_eq!(parse_u64("+7"), Some(7));
    assert_eq!(parse_u64("+"), None);
    assert_eq!(parse_u64("++7"), None);
}

#[test]
fn parse_u64_rejects() {
    assert_eq!(parse_u64(""), None);
    assert_eq!(parse_u64("-1"), None);
    assert_eq!(parse_u64(" 5"), None);
    assert_eq!(parse_u64("5ms"), None);
    assert_eq!(parse_u64("1_000"), None);
}

#[test]
fn parse_u64_limits() {
    assert_eq!(parse_u64("18446744073709551615"), Some(u64::MAX));
    assert_eq!(parse_u64("18446744073709551616"), None);
    assert_eq!(parse_u64("99999999999999999999x"), None);
}

#[test]
fn parse_u64_agrees_with_std() {
    for s in ["1", "+12", "", "-0", "abc", "4294967296", "000", "+", " 1", "1 "] {
        assert_eq!(parse_u64(s), s.parse::<u64>().ok(), "input {:?}", s);
    }
}

#[test]
fn decimal_string_values() {
    assert_eq!(decimal_string(0), "0");
    assert_eq!(decimal_string(9), "9");
    assert_eq!(decimal_string(10), "10");
    assert_eq!(decimal_string(100), "100");
    assert_eq!(decimal_string(u64::MAX), u64::MAX.to_string());
}

#[test]
fn decimal_roundtrip() {
    for n in [0u64, 1, 9, 10, 99, 100, 12345, u64::MAX - 1, u64::MAX] {
        assert_eq!(parse_u64(&decimal_string(n)), Some(n));
    }
}

#[test]
fn trimmed_removes_unicode_space() {
    assert_eq!(trimmed("  a b \t\n"), "a b");
    assert_eq!(trimmed("\u{3000}x\u{a0}"), "x");
    assert_eq!(trimmed("   "), "");
    assert_eq!(trimmed(""), "");
    for s in [" x ", "\u{2003}y\u{85}", "z", "\u{200b}q"] {
        assert_eq!(trimmed(s), s.trim());
    }
}

#[test]
fn split_trimmed_pieces() {
    assert_eq!(split_trimmed("ctrl+F1", '+'), vec!["ctrl".to_string(), "F1".to_string()]);
    assert_eq!(split_trimmed(" a + + b +", '+'), vec!["a".to_string(), "b".to_string()]);
    assert!(split_trimmed("", '+').is_empty());
    assert!(split_trimmed("+ +", '+').is_empty());
}

#[test]
fn join_strings_pieces() {
    let v = vec!["ctrl".to_string(), "shift".to_string(), "a".to_string()];
    assert_eq!(join_strings(&v, "+"), "ctrl+shift+a");
    assert_eq!(join_strings(&vec![], "+"), "");
    assert_eq!(join_strings(&vec!["x".to_string()], "+"), "x");
}
