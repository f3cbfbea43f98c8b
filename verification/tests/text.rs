use backend::text::{
    after_prefix, append_decimal, append_signed_decimal, parse_i64, parse_u64, same_text,
    starts_with,
};

#[test]
fn prefix_is_found_only_at_the_front() {
    assert!(starts_with("/api/user/7", "/api/user/"));
    assert!(starts_with("abc", "abc"));
    assert!(starts_with("abc", ""));
    assert!(starts_with("", ""));
    assert!(!starts_with("", "a"));
    assert!(!starts_with("ab", "abc"));
    assert!(!starts_with("xabc", "abc"));
    assert!(!starts_with("abd", "abc"));
}

#[test]
fn prefix_agrees_with_std_beyond_ascii() {
    for (text, prefix) in [("héllo", "hé"), ("héllo", "he"), ("日本語", "日本"), ("日本語", "本")] {
        assert_eq!(starts_with(text, prefix), text.starts_with(prefix));
    }
}

#[test]
fn same_text_is_equality() {
    assert!(same_text("", ""));
    assert!(same_text("dev123", "dev123"));
    assert!(!same_text("dev123", "dev124"));
    assert!(!same_text("dev123", "dev12"));
    assert!(!same_text("dev12", "dev123"));
    assert!(!same_text("", "x"));
    assert!(same_text("日本語", "日本語"));
}

#[test]
fn what_follows_a_prefix() {
    assert_eq!(after_prefix("/api/user/42", "/api/user/"), Some("42"));
    assert_eq!(after_prefix("abc", ""), Some("abc"));
    assert_eq!(after_prefix("abc", "abc"), Some(""));
    assert_eq!(after_prefix("héllo", "hé"), Some("llo"));
    assert_eq!(after_prefix("abc", "abd"), None);
    assert_eq!(after_prefix("ab", "abc"), None);
    assert_eq!(after_prefix("", "a"), None);
}

#[test]
fn what_follows_a_prefix_agrees_with_std() {
    for (text, prefix) in [("日本語", "日本"), ("日本語", "本"), ("a/b", "a/"), ("", "")] {
        assert_eq!(after_prefix(text, prefix), text.strip_prefix(prefix));
    }
}

#[test]
fn decimal_of_unsigned() {
    for n in [0u64, 1, 9, 10, 11, 99, 100, 1024, 5120, 18446744073709551615] {
        let mut out = String::from("n=");
        append_decimal(&mut out, n);
        assert_eq!(out, format!("n={n}"));
    }
}

#[test]
fn decimal_of_signed() {
    for v in [0i64, 1, -1, 9, -9, 10, -10, 42, -42, i64::MAX, i64::MIN, i64::MIN + 1] {
        let mut out = String::new();
        append_signed_decimal(&mut out, v);
        assert_eq!(out, v.to_string());
    }
}

#[test]
fn unsigned_numerals() {
    assert_eq!(parse_u64("0"), Some(0));
    assert_eq!(parse_u64("5"), Some(5));
    assert_eq!(parse_u64("+5"), Some(5));
    assert_eq!(parse_u64("007"), Some(7));
    assert_eq!(parse_u64("1500"), Some(1500));
    assert_eq!(parse_u64("18446744073709551615"), Some(u64::MAX));
    assert_eq!(parse_u64("00018446744073709551615"), Some(u64::MAX));
}

#[test]
fn what_is_no_unsigned_numeral() {
    for text in [
        "", "+", "-", "-1", "-0", " 1", "1 ", "1_000", "1.5", "0x10", "١٢", "++1", "+-1", "1e3",
        "18446744073709551616", "99999999999999999999999", "184467440737095516150",
    ] {
        assert_eq!(parse_u64(text), None, "{text:?}");
    }
}

#[test]
fn unsigned_parse_agrees_with_std() {
    for text in [
        "", "0", "+0", "-0", "12", "+12", "-12", "a", "1a", "a1", "18446744073709551615",
        "18446744073709551616", "18446744073709551620", "000", "+", " ", "٣",
    ] {
        assert_eq!(parse_u64(text), text.parse::<u64>().ok(), "{text:?}");
    }
}

#[test]
fn signed_numerals() {
    assert_eq!(parse_i64("0"), Some(0));
    assert_eq!(parse_i64("-0"), Some(0));
    assert_eq!(parse_i64("+0"), Some(0));
    assert_eq!(parse_i64("42"), Some(42));
    assert_eq!(parse_i64("-42"), Some(-42));
    assert_eq!(parse_i64("+42"), Some(42));
    assert_eq!(parse_i64("9223372036854775807"), Some(i64::MAX));
    assert_eq!(parse_i64("-9223372036854775808"), Some(i64::MIN));
    assert_eq!(parse_i64("-9223372036854775807"), Some(i64::MIN + 1));
}

#[test]
fn what_is_no_signed_numeral() {
    for text in [
        "", "+", "-", "--1", "-+1", "+-1", "1-", " 1", "1 ", "1.0", "abc",
        "9223372036854775808", "-9223372036854775809", "+9223372036854775808",
    ] {
        assert_eq!(parse_i64(text), None, "{text:?}");
    }
}

#[test]
fn signed_parse_agrees_with_std() {
    for text in [
        "", "0", "+0", "-0", "12", "+12", "-12", "a", "-a", "9223372036854775807",
        "9223372036854775808", "-9223372036854775808", "-9223372036854775809", "-", "+", "0-1",
    ] {
        assert_eq!(parse_i64(text), text.parse::<i64>().ok(), "{text:?}");
    }
}
