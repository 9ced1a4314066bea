use sysshell::text::{contains_sub, i32_str, pad, parse_i32, tokenize, u64_str};

#[test]
fn tokenize_splits_on_blanks() {
    let toks = tokenize("  kill   1234 ");
    assert_eq!(toks, vec!["kill".to_string(), "1234".to_string()]);
}

#[test]
fn tokenize_empty_line() {
    let toks = tokenize("");
    assert!(toks.is_empty());
    let toks = tokenize("   \t ");
    assert!(toks.is_empty());
}

#[test]
fn tokenize_single_word() {
    assert_eq!(tokenize("help"), vec!["help".to_string()]);
}

#[test]
fn u64_str_matches_decimal() {
    assert_eq!(u64_str(0), "0");
    assert_eq!(u64_str(1048576), "1048576");
    assert_eq!(u64_str(u64::MAX), format!("{}", u64::MAX));
}

#[test]
fn i32_str_matches_decimal() {
    assert_eq!(i32_str(0), "0");
    assert_eq!(i32_str(-45), "-45");
    assert_eq!(i32_str(i32::MIN), "-2147483648");
}

#[test]
fn pad_widths() {
    assert_eq!(pad("ab", 5), "ab   ");
    assert_eq!(pad("abcdef", 3), "abcdef");
    assert_eq!(pad("", 2), "  ");
}

#[test]
fn contains_sub_finds_runs() {
    assert!(contains_sub("Samsung SSD 970", "SSD"));
    assert!(!contains_sub("Samsung 970", "SSD"));
    assert!(contains_sub("anything", ""));
    assert!(!contains_sub("ab", "abc"));
    assert!(contains_sub("amdgpu", "gpu"));
}

#[test]
fn parse_i32_accepts_integers() {
    assert_eq!(parse_i32("42"), Some(42));
    assert_eq!(parse_i32("-42"), Some(-42));
    assert_eq!(parse_i32("007"), Some(7));
    assert_eq!(parse_i32("2147483647"), Some(2147483647));
    assert_eq!(parse_i32("-2147483648"), Some(-2147483648));
    assert_eq!(parse_i32("0"), Some(0));
    assert_eq!(parse_i32("+42"), Some(42));
    assert_eq!(parse_i32("+2147483647"), Some(2147483647));
}

#[test]
fn parse_i32_rejects_malformed_and_overflow() {
    assert_eq!(parse_i32(""), None);
    assert_eq!(parse_i32("-"), None);
    assert_eq!(parse_i32("+"), None);
    assert_eq!(parse_i32("+-3"), None);
    assert_eq!(parse_i32("12a"), None);
    assert_eq!(parse_i32("one"), None);
    assert_eq!(parse_i32("2147483648"), None);
    assert_eq!(parse_i32("-2147483649"), None);
    assert_eq!(parse_i32("99999999999999999999"), None);
}
