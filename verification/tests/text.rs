use db_native::hex::encode_hex;
use db_native::text::{
    ascii_lowercase, chars_of, contains, decimal_text, same_text, signed_decimal_text, trim,
    trim_end_matches, white_space,
};

#[test]
fn white_space_is_that_of_unicode() {
    for code in 0..=0x10ffffu32 {
        if let Some(c) = char::from_u32(code) {
            assert_eq!(white_space(c), c.is_whitespace(), "{code:x}");
        }
    }
}

#[test]
fn text_is_trimmed_as_std_trims_it() {
    for text in ["", " ", "a", "  a b\t", "\u{3000}x\u{85}", "\n\u{2028}"] {
        assert_eq!(trim(text), text.trim());
        assert_eq!(trim_end_matches(text, 'b'), text.trim_end_matches('b'));
    }
    assert_eq!(trim_end_matches("a///", '/'), "a");
    assert_eq!(trim_end_matches("//", '/'), "");
}

#[test]
fn text_is_searched_as_std_searches_it() {
    for text in ["", "a", "http://x", "::", "aab"] {
        for part in ["", ":", "://", "ab", "aab!"] {
            assert_eq!(contains(text, part), text.contains(part));
        }
    }
    assert!(same_text("x\u{e9}", "x\u{e9}"));
    assert!(!same_text("x", "xy"));
    assert!(!same_text("x", "y"));
    assert_eq!(chars_of("h\u{e9}"), vec!['h', '\u{e9}']);
    assert_eq!(ascii_lowercase("CSV \u{c9}z"), "csv \u{c9}z");
}

#[test]
fn numbers_are_written_as_std_writes_them() {
    for number in [0u128, 9, 10, 99, 100, 12345, u64::MAX as u128, u128::MAX] {
        assert_eq!(decimal_text(number), number.to_string());
    }
    for number in [0i128, -1, 10, -10, i64::MIN as i128, i128::MIN, i128::MAX] {
        assert_eq!(signed_decimal_text(number), number.to_string());
    }
}

#[test]
fn bytes_in_hexadecimal() {
    assert_eq!(encode_hex(&[]), "");
    assert_eq!(encode_hex(&[0x00, 0x0f, 0xa9, 0xff]), "000fa9ff");
}
