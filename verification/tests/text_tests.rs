use scli::text::{
    chars_of, concat2, contains_ci, flatten_newlines, fmt_i64, fmt_u64, fmt_usize, hex_prefix,
    is_channel_id, is_whitespace, same_text, slice_chars, starts_with, string_of,
    strip_prefix_char, trim, trim_end, trim_matches_char,
};

#[test]
fn contains_ci_ignores_case() {
    assert!(contains_ci("General", "gen"));
    assert!(contains_ci("dev-ops", "OPS"));
    assert!(!contains_ci("random", "gen"));
}

#[test]
fn contains_ci_lowercases_both_sides() {
    // would fail if the lowercase mapping handed its argument back unchanged
    assert!(contains_ci("HELLO", "ell"));
    assert!(contains_ci("hello", "ELL"));
    assert!(contains_ci("ÉCOLE", "école"));
}

#[test]
fn contains_ci_empty_needle_matches() {
    assert!(contains_ci("anything", ""));
    assert!(contains_ci("", ""));
    assert!(!contains_ci("", "x"));
}

#[test]
fn channel_ids_are_recognised() {
    assert!(is_channel_id("C0123ABC"));
    assert!(is_channel_id("G99"));
    assert!(is_channel_id("D1a2"));
    assert!(is_channel_id("C"));
}

#[test]
fn channel_names_are_not_ids() {
    assert!(!is_channel_id(""));
    assert!(!is_channel_id("general"));
    assert!(!is_channel_id("c0123"));
    assert!(!is_channel_id("C01-23"));
    assert!(!is_channel_id("U0123"));
    assert!(!is_channel_id("CÉ1"));
}

#[test]
fn trimming_whitespace() {
    assert_eq!(trim("  a b \n"), "a b");
    assert_eq!(trim("\t\u{3000}x\u{a0}"), "x");
    assert_eq!(trim("   "), "");
    assert_eq!(trim_end("  hi \n\r\n"), "  hi");
    assert_eq!(trim_end(""), "");
}

#[test]
fn whitespace_class_follows_unicode() {
    assert!(is_whitespace(' '));
    assert!(is_whitespace('\n'));
    assert!(is_whitespace('\u{2003}'));
    assert!(is_whitespace('\u{85}'));
    assert!(!is_whitespace('x'));
    assert!(!is_whitespace('\u{200b}'));
}

#[test]
fn trim_matches_colons() {
    assert_eq!(trim_matches_char(":thumbsup:", ':'), "thumbsup");
    assert_eq!(trim_matches_char("::a:b::", ':'), "a:b");
    assert_eq!(trim_matches_char(":::", ':'), "");
    assert_eq!(trim_matches_char("wave", ':'), "wave");
}

#[test]
fn newlines_become_spaces() {
    assert_eq!(flatten_newlines("a\nb\n\nc"), "a b  c");
    assert_eq!(flatten_newlines("no newline"), "no newline");
}

#[test]
fn decimal_rendering() {
    assert_eq!(fmt_u64(0), "0");
    assert_eq!(fmt_u64(1234567890), "1234567890");
    assert_eq!(fmt_u64(u64::MAX), "18446744073709551615");
    assert_eq!(fmt_i64(-42), "-42");
    assert_eq!(fmt_i64(0), "0");
    assert_eq!(fmt_i64(i64::MIN), "-9223372036854775808");
    assert_eq!(fmt_usize(200), "200");
}

#[test]
fn hex_rendering_of_a_prefix() {
    assert_eq!(hex_prefix(&[0x00, 0x0f, 0xab, 0xff], 4), "000fabff");
    assert_eq!(hex_prefix(&[0xde, 0xad, 0xbe, 0xef], 2), "dead");
    assert_eq!(hex_prefix(&[1, 2, 3], 0), "");
}

#[test]
fn prefixes() {
    assert!(starts_with("xoxc-123", "xoxc-"));
    assert!(!starts_with("xoxp-123", "xoxc-"));
    assert!(!starts_with("xo", "xoxc-"));
    assert!(starts_with("abc", ""));
    assert_eq!(strip_prefix_char("#general", '#'), Some("general".to_string()));
    assert_eq!(strip_prefix_char("general", '#'), None);
    assert_eq!(strip_prefix_char("@", '@'), Some(String::new()));
}

#[test]
fn character_helpers() {
    let cs = chars_of("héllo");
    assert_eq!(cs, vec!['h', 'é', 'l', 'l', 'o']);
    assert_eq!(string_of(&cs), "héllo");
    assert_eq!(slice_chars(&cs, 1, 3), vec!['é', 'l']);
    assert_eq!(concat2("env-", "abcd"), "env-abcd");
    assert!(same_text("a", "a"));
    assert!(!same_text("a", "A"));
}
