use dual_venue_mm::text::{
    char_code, chars_of, find_char, has_word, parse_numeral, push_decimal, push_signed_decimal, trim_bounds,
};

fn numeral(text: &str) -> Option<i64> {
    let chars = chars_of(text);
    parse_numeral(&chars, 0, chars.len())
}

#[test]
fn characters_come_in_order() {
    assert_eq!(chars_of("a\u{20ac}b"), vec!['a', '\u{20ac}', 'b']);
    assert_eq!(char_code('\u{20ac}'), 0x20ac);
}

#[test]
fn decimals_read_like_the_standard_library_writes_them() {
    for n in [0u128, 7, 10, 1_000, 65_535, u64::MAX as u128, u128::MAX] {
        let mut text = "n=".to_string();
        push_decimal(&mut text, n);
        assert_eq!(text, format!("n={n}"));
    }
    for i in [0i64, -1, 42, -1_000, i64::MAX, i64::MIN] {
        let mut text = String::new();
        push_signed_decimal(&mut text, i);
        assert_eq!(text, format!("{i}"));
        assert_eq!(numeral(&text), Some(i));
    }
}

#[test]
fn numerals_are_those_of_the_standard_library() {
    for text in [
        "", "+", "-", "0", "-0", "+0", "007", "1 ", " 1", "+-1", "--1", "12a", "9223372036854775807",
        "9223372036854775808", "-9223372036854775808", "-9223372036854775809", "+9223372036854775807",
        "00000000000000000000000001", "99999999999999999999999999", "\u{0661}",
    ] {
        assert_eq!(numeral(text), text.parse::<i64>().ok(), "{text}");
    }
}

#[test]
fn numerals_are_read_from_a_part() {
    assert_eq!(parse_numeral(&chars_of("12345"), 1, 4), Some(234));
    assert_eq!(parse_numeral(&chars_of("12345"), 2, 2), None);
}

#[test]
fn bounds_leave_out_white_space() {
    assert_eq!(trim_bounds(&chars_of(" \ta b\n")), (2, 5));
    let (from, to) = trim_bounds(&chars_of("   "));
    assert_eq!(from, to);
}

#[test]
fn characters_are_found_at_their_first_place() {
    let chars = chars_of("a.b.c");
    assert_eq!(find_char(&chars, 0, 5, '.'), 1);
    assert_eq!(find_char(&chars, 2, 5, '.'), 3);
    assert_eq!(find_char(&chars, 2, 3, '.'), 3);
}

#[test]
fn words_are_found_anywhere() {
    assert!(has_word("abcabd", "abd"));
    assert!(has_word("abc", "abc"));
    assert!(has_word("", ""));
    assert!(has_word("x", ""));
    assert!(!has_word("ab", "abc"));
    assert!(!has_word("abab", "abb"));
}
