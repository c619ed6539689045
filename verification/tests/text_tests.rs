use jira::text::{
    decimal, is_text_less, join, pad, parse_u32, signed_decimal, sorted_keys, split_char, str_head, trim,
};

#[test]
fn texts_are_ordered_like_str() {
    let pairs = [("a", "b"), ("a", "ab"), ("", "a"), ("B", "a"), ("é", "z")];
    for (x, y) in pairs {
        assert_eq!(is_text_less(x, y), x < y, "{x} < {y}");
        assert_eq!(is_text_less(y, x), y < x, "{y} < {x}");
    }
    assert!(!is_text_less("same", "same"));
}

#[test]
fn sorted_keys_sort_and_drop_repeats() {
    let keys: Vec<String> = ["b", "a", "c", "a", "ab"].iter().map(|s| s.to_string()).collect();
    assert_eq!(sorted_keys(&keys), vec!["a", "ab", "b", "c"]);
    assert!(sorted_keys(&[]).is_empty());
}

#[test]
fn numbers_are_written_and_read_in_decimal() {
    assert_eq!(decimal(0), "0");
    assert_eq!(decimal(1234567890), "1234567890");
    assert_eq!(signed_decimal(-42), "-42");
    assert_eq!(signed_decimal(i64::MIN), i64::MIN.to_string());
    assert_eq!(parse_u32("+12"), Some(12));
    assert_eq!(parse_u32("4294967295"), Some(u32::MAX));
    assert_eq!(parse_u32("4294967296"), None);
    assert_eq!(parse_u32(""), None);
    assert_eq!(parse_u32("1a"), None);
}

#[test]
fn splitting_and_joining_are_inverse() {
    let pieces = split_char("a,,b,", ',');
    assert_eq!(pieces, vec!["a", "", "b", ""]);
    assert_eq!(join(&pieces, ","), "a,,b,");
    assert_eq!(split_char("", ','), vec![""]);
}

#[test]
fn trimming_padding_and_heads() {
    assert_eq!(trim("  a b \t\n"), "a b");
    assert_eq!(pad("ab", 4), "ab  ");
    assert_eq!(pad("abcdef", 4), "abcdef");
    assert_eq!(str_head("2026-03-20T10:00:00Z", 10), "2026-03-20");
    assert_eq!(str_head("short", 10), "short");
}
