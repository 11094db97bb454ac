use udo::text::{
    align_right, fmt_hex4, fmt_i64, fmt_u64, is_whitespace, str_le, take_chars, trim, trim_end_char,
    truncate,
};

#[test]
fn trim_removes_surrounding_whitespace() {
    assert_eq!(trim("  \t hello world \n"), "hello world");
    assert_eq!(trim("\u{3000}x\u{a0}"), "x");
    assert_eq!(trim("   "), "");
    assert_eq!(trim(""), "");
    assert_eq!(trim("a b"), "a b");
}

#[test]
fn trim_is_idempotent() {
    let once = trim("\n  run the tests  \r\n");
    assert_eq!(trim(&once), once);
}

#[test]
fn whitespace_matches_std() {
    for c in ['\t', '\n', '\u{b}', '\u{c}', '\r', ' ', '\u{85}', '\u{a0}', '\u{1680}', '\u{2000}', '\u{200a}', '\u{2028}', '\u{2029}', '\u{202f}', '\u{205f}', '\u{3000}', 'a', '0', '\u{200b}', '_'] {
        assert_eq!(is_whitespace(c), c.is_whitespace(), "{:?}", c);
    }
}

#[test]
fn trim_end_char_strips_only_the_end() {
    assert_eq!(trim_end_char("http://host:11434///", '/'), "http://host:11434");
    assert_eq!(trim_end_char("/a/b", '/'), "/a/b");
    assert_eq!(trim_end_char("///", '/'), "");
}

#[test]
fn truncate_keeps_short_text() {
    assert_eq!(truncate("short", 10), "short");
    assert_eq!(truncate("exactly10!", 10), "exactly10!");
}

#[test]
fn truncate_shortens_with_ellipsis() {
    assert_eq!(truncate("abcdefghijk", 5), "abcd\u{2026}");
    assert_eq!(truncate("héllo wörld", 4).chars().count(), 4);
    assert_eq!(truncate("héllo wörld", 4), "hél\u{2026}");
}

#[test]
fn take_chars_counts_characters() {
    assert_eq!(take_chars("äöü", 2), "äö");
    assert_eq!(take_chars("ab", 60), "ab");
    assert_eq!(take_chars("abc", 0), "");
}

#[test]
fn decimal_formatting() {
    assert_eq!(fmt_u64(0), "0");
    assert_eq!(fmt_u64(8192), "8192");
    assert_eq!(fmt_u64(u64::MAX), u64::MAX.to_string());
    assert_eq!(fmt_i64(-1), "-1");
    assert_eq!(fmt_i64(i64::MIN), i64::MIN.to_string());
    assert_eq!(fmt_i64(127), "127");
}

#[test]
fn hex_formatting() {
    assert_eq!(fmt_hex4(0x04a3), "04a3");
    assert_eq!(fmt_hex4(0), "0000");
    assert_eq!(fmt_hex4(0xffff), "ffff");
    assert_eq!(fmt_hex4(0xbeef), format!("{:04x}", 0xbeefu16));
}

#[test]
fn hex_ids_are_distinct() {
    let a = fmt_hex4(0x1234);
    let b = fmt_hex4(0x1235);
    assert_ne!(a, b);
    assert_eq!(a.len(), 4);
}

#[test]
fn align_right_pads_to_width() {
    assert_eq!(align_right("7", 3), "  7");
    assert_eq!(align_right("1234", 3), "1234");
    assert_eq!(align_right("5m", 4), "  5m");
}

#[test]
fn string_order_matches_std() {
    let cases = [("a", "b"), ("b", "a"), ("ab", "a"), ("a", "ab"), ("", "x"), ("x", ""), ("z", "ä"), ("04a3", "04a3")];
    for (a, b) in cases {
        assert_eq!(str_le(a, b), a <= b, "{a} {b}");
    }
}
