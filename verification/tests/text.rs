use cx::order::{stable_order, text_less};
use cx::text::{
    chars_of, cut_at, decimal_string, ends_with, find_in, is_whitespace, join, lines,
    parse_u32, push_str, slice_chars, split_chars, starts_with, string_of, take_chars, trim,
};

fn strs(v: &[&str]) -> Vec<String> {
    v.iter().map(|s| s.to_string()).collect()
}

#[test]
fn chars_and_strings() {
    let v = chars_of("héllo");
    assert_eq!(v, vec!['h', 'é', 'l', 'l', 'o']);
    assert_eq!(string_of(&v), "héllo");
    assert_eq!(slice_chars(&v, 1, 3), "él");
    let mut s = "ab".to_string();
    push_str(&mut s, "cd");
    assert_eq!(s, "abcd");
}

#[test]
fn trimming_unicode_white_space() {
    assert_eq!(trim("  a b \t\n"), "a b");
    assert_eq!(trim("\u{3000}x\u{00a0}"), "x");
    assert_eq!(trim("   "), "");
    assert!(is_whitespace('\u{2028}'));
    assert!(!is_whitespace('\u{200b}'));
}

#[test]
fn decimal_numbers() {
    assert_eq!(decimal_string(0), "0");
    assert_eq!(decimal_string(907), "907");
    assert_eq!(decimal_string(u64::MAX), "18446744073709551615");
    assert_eq!(parse_u32("42"), Some(42));
    assert_eq!(parse_u32("+7"), Some(7));
    assert_eq!(parse_u32("007"), Some(7));
    assert_eq!(parse_u32("4294967295"), Some(u32::MAX));
    assert_eq!(parse_u32("4294967296"), None);
    assert_eq!(parse_u32(""), None);
    assert_eq!(parse_u32("+"), None);
    assert_eq!(parse_u32("-1"), None);
    assert_eq!(parse_u32("1a"), None);
    assert_eq!(parse_u32(" 1"), None);
}

#[test]
fn prefixes_and_search() {
    assert!(starts_with("cx/s_1", "cx/"));
    assert!(!starts_with("c", "cx/"));
    assert!(ends_with("1.json", ".json"));
    assert!(!ends_with("json", ".json"));
    assert_eq!(find_in(&chars_of("a=b=c"), '='), Some(1));
    assert_eq!(find_in(&chars_of("abc"), '='), None);
}

#[test]
fn splitting_and_joining() {
    assert_eq!(split_chars("a,,b,", ','), strs(&["a", "", "b", ""]));
    assert_eq!(split_chars("", ','), strs(&[""]));
    assert_eq!(lines("a\nb\r\n\nc\n"), strs(&["a", "b", "", "c"]));
    assert_eq!(lines(""), Vec::<String>::new());
    assert_eq!(join(&strs(&["a", "b", "c"]), "-"), "a-b-c");
    assert_eq!(join(&strs(&[]), "-"), "");
    assert_eq!(take_chars("héllo", 2), "hé");
    assert_eq!(take_chars("hi", 5), "hi");
}

#[test]
fn cutting_at_a_byte_boundary() {
    assert_eq!(cut_at("2024-01-02T03:04:05.999", 19), "2024-01-02T03:04:05");
    assert_eq!(cut_at("héllo", 3), "hé");
}

#[test]
fn string_order_and_stable_sort() {
    assert!(text_less("10", "2"));
    assert!(text_less("a", "ab"));
    assert!(!text_less("b", "b"));
    assert!(text_less("Z", "a"));
    assert_eq!(stable_order(&strs(&["b", "a", "b", "a"])), vec![1, 3, 0, 2]);
    assert_eq!(stable_order(&strs(&[])), Vec::<usize>::new());
}
