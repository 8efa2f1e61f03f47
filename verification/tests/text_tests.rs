use wmcssh::text::{
    bool_text, contains_str, decimal, is_blank, last_index_of, parse_bool, parse_unsigned,
    trim, trim_end_char,
};

#[test]
fn trim_removes_unicode_white_space_at_both_ends() {
    assert_eq!(trim("  \t host \n"), "host");
    assert_eq!(trim("\u{3000}a b\u{a0}"), "a b");
    assert_eq!(trim("   "), "");
}

#[test]
fn blank_texts_are_only_white_space() {
    assert!(is_blank(""));
    assert!(is_blank(" \t\r\n"));
    assert!(!is_blank(" x "));
}

#[test]
fn trailing_separators_are_dropped() {
    assert_eq!(trim_end_char("/home/user///", '/'), "/home/user");
    assert_eq!(trim_end_char("///", '/'), "");
    assert_eq!(trim_end_char("abc", '/'), "abc");
}

#[test]
fn last_index_counts_characters() {
    assert_eq!(last_index_of("/a/b", '/'), Some(2));
    assert_eq!(last_index_of("ab", '/'), None);
    assert_eq!(last_index_of("é/x", '/'), Some(1));
}

#[test]
fn decimal_matches_to_string() {
    assert_eq!(decimal(0), "0");
    assert_eq!(decimal(7), "7");
    assert_eq!(decimal(10000), "10000");
    assert_eq!(decimal(u64::MAX), u64::MAX.to_string());
}

#[test]
fn parse_unsigned_matches_str_parse() {
    assert_eq!(parse_unsigned("14", 0xffff), Some(14));
    assert_eq!(parse_unsigned("+14", 0xffff), Some(14));
    assert_eq!(parse_unsigned("65535", 0xffff), Some(65535));
    assert_eq!(parse_unsigned("65536", 0xffff), None);
    assert_eq!(parse_unsigned("", 0xffff), None);
    assert_eq!(parse_unsigned("+", 0xffff), None);
    assert_eq!(parse_unsigned("-1", 0xffff), None);
    assert_eq!(parse_unsigned(" 1", 0xffff), None);
    assert_eq!(parse_unsigned("12a", 0xffff), None);
    for text in ["0", "+0", "007", "4294967295", "4294967296", "x"] {
        assert_eq!(parse_unsigned(text, 0xffff_ffff), text.parse::<u32>().ok().map(u64::from));
    }
}

#[test]
fn parse_bool_accepts_exactly_true_and_false() {
    assert_eq!(parse_bool("true"), Some(true));
    assert_eq!(parse_bool("false"), Some(false));
    assert_eq!(parse_bool("True"), None);
    assert_eq!(parse_bool(" true"), None);
    assert_eq!(bool_text(true), "true");
    assert_eq!(bool_text(false), "false");
}

#[test]
fn substring_search() {
    assert!(contains_str("resource temporarily unavailable", "temporarily"));
    assert!(!contains_str("eagai", "eagain"));
    assert!(contains_str("abc", ""));
}
