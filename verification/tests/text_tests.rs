use coolctl::order::{sort_texts, text_le_exec};
use coolctl::text::{contains_text, parse_i64, parse_u64, parse_u8, same_text, starts_with_text, trim};

#[test]
fn trimming() {
    assert_eq!(trim("  a b \n"), "a b");
    assert_eq!(trim("\u{2003}x\u{85}"), "x");
    assert_eq!(trim(" \t "), "");
    assert_eq!(trim(""), "");
    assert_eq!(trim("x"), "x");
}

#[test]
fn comparing() {
    assert!(same_text("abc", "abc"));
    assert!(!same_text("abc", "abd"));
    assert!(!same_text("abc", "ab"));
    assert!(contains_text("x86_pkg_temp", "pkg"));
    assert!(contains_text("abc", ""));
    assert!(!contains_text("ab", "abc"));
    assert!(!contains_text("acpi", "cpu"));
    assert!(starts_with_text("thermal_zone3", "thermal_zone"));
    assert!(!starts_with_text("thermal", "thermal_zone"));
}

#[test]
fn parsing() {
    assert_eq!(parse_u64("0"), Some(0));
    assert_eq!(parse_u64("+12"), Some(12));
    assert_eq!(parse_u64("+"), None);
    assert_eq!(parse_u64("-1"), None);
    assert_eq!(parse_u64("1 2"), None);
    assert_eq!(parse_u8("255"), Some(255));
    assert_eq!(parse_u8("256"), None);
    assert_eq!(parse_i64("-9223372036854775808"), Some(i64::MIN));
    assert_eq!(parse_i64("9223372036854775807"), Some(i64::MAX));
    assert_eq!(parse_i64("9223372036854775808"), None);
    assert_eq!(parse_i64("-9223372036854775809"), None);
    assert_eq!(parse_i64("-"), None);
    assert_eq!(parse_i64("-42"), Some(-42));
    for s in ["7", "+7", "-7", "007", "", "x", "99999999999999999999"] {
        assert_eq!(parse_i64(s), s.parse::<i64>().ok());
        assert_eq!(parse_u64(s), s.parse::<u64>().ok());
        assert_eq!(parse_u8(s), s.parse::<u8>().ok());
    }
}

#[test]
fn ordering_text() {
    assert!(text_le_exec("cpu1", "cpu10"));
    assert!(text_le_exec("cpu10", "cpu2"));
    assert!(!text_le_exec("cpu2", "cpu10"));
    assert!(text_le_exec("", "a"));
    assert!(text_le_exec("a", "a"));
    let sorted = sort_texts(vec!["b".to_string(), "a".to_string(), "c".to_string(), "a".to_string()]);
    assert_eq!(sorted, vec!["a", "a", "b", "c"]);
}
