use dev_browser::text::{
    align_left, align_right, chars_of, decimal_text, join, parse_signed, parse_unsigned, same_text,
    signed_text, text_between, trim, trim_end, white_space,
};

#[test]
fn white_space_agrees_with_the_standard_library() {
    for code in 0..0x11_0000u32 {
        if let Some(c) = char::from_u32(code) {
            assert_eq!(white_space(c), c.is_whitespace(), "{code:x}");
        }
    }
}

#[test]
fn texts_are_trimmed_like_the_standard_library_does() {
    for text in ["", " ", "a", " a b ", "\t\u{a0}x\u{3000}\n", "\u{200b}x", "a\r\n"] {
        assert_eq!(trim(text), text.trim());
        assert_eq!(trim_end(text), text.trim_end());
    }
}

#[test]
fn numbers_are_written_in_decimal() {
    for n in [0u128, 7, 10, 12_345, u64::MAX as u128, u128::MAX] {
        assert_eq!(decimal_text(n), n.to_string());
    }
    for n in [0i64, -1, 42, i64::MIN, i64::MAX] {
        assert_eq!(signed_text(n), n.to_string());
    }
}

#[test]
fn numbers_are_read_like_the_standard_library_does() {
    for text in [
        "", "+", "-", "0", "-0", "+0", "12", "-12", "+12", "--1", "1-", " 1", "1 ", "00012",
        "2147483647", "2147483648", "-2147483648", "-2147483649", "99999999999999999999", "1a",
        "\u{661}",
    ] {
        assert_eq!(parse_signed(text), text.parse::<i32>().ok(), "{text}");
        assert_eq!(parse_unsigned(text, u64::MAX), text.parse::<u64>().ok(), "{text}");
    }
    assert_eq!(parse_unsigned("10", 9), None);
    assert_eq!(parse_unsigned("9", 9), Some(9));
}

#[test]
fn texts_are_aligned_by_characters() {
    for text in ["", "a", "\u{e9}\u{e9}", "abcdef"] {
        assert_eq!(align_left(text, 4), format!("{text:<4}"));
        assert_eq!(align_right(text, 4), format!("{text:>4}"));
    }
}

#[test]
fn texts_are_joined_and_cut() {
    let list = |texts: &[&str]| texts.iter().map(|text| text.to_string()).collect::<Vec<String>>();
    assert_eq!(join(&list(&[]), ", "), "");
    assert_eq!(join(&list(&["a"]), ", "), "a");
    assert_eq!(join(&list(&["a", "", "b"]), ", "), "a, , b");
    let chars = chars_of("h\u{e9}llo");
    assert_eq!(chars.len(), 5);
    assert_eq!(text_between(&chars, 1, 3), "\u{e9}l");
    assert_eq!(text_between(&chars, 2, 2), "");
    assert!(same_text("h\u{e9}", "h\u{e9}"));
    assert!(!same_text("he", "h\u{e9}"));
    assert!(!same_text("h", "he"));
}
