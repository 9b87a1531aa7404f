use csql::text::{chars_of, is_digit_char, is_space_char, trim_bounds};

#[test]
fn the_characters_of_a_text_come_in_order() {
    assert_eq!(chars_of(""), Vec::<char>::new());
    assert_eq!(chars_of("a1"), vec!['a', '1']);
    assert_eq!(chars_of("žlutý"), vec!['ž', 'l', 'u', 't', 'ý']);
    assert_eq!(chars_of("žlutý").len(), 5);
}

#[test]
fn digits_are_the_ten_ascii_digits() {
    for c in ['0', '1', '5', '9'] {
        assert!(is_digit_char(c));
    }
    for c in ['/', ':', 'a', ' ', '٣', '५', '²', '+', '-'] {
        assert!(!is_digit_char(c));
    }
    for code in 0u32..0x3000 {
        if let Some(c) = char::from_u32(code) {
            assert_eq!(is_digit_char(c), c.is_ascii_digit());
        }
    }
}

#[test]
fn white_space_is_what_unicode_says() {
    for code in 0u32..=0x10ffff {
        if let Some(c) = char::from_u32(code) {
            assert_eq!(is_space_char(c), c.is_whitespace(), "{:x}", code);
        }
    }
}

#[test]
fn trimming_drops_the_white_space_at_both_ends() {
    let cases = [
        "", " ", "   ", "a", " a", "a ", "  a b  ", "\t\n a\u{a0}", "\u{3000}x\u{2028}y\u{85}",
        "(5) ", " (6, 2)", "no space", "\u{200b} a ", "a\u{180e}",
    ];
    for text in cases {
        let chars: Vec<char> = text.chars().collect();
        let (from, to) = trim_bounds(&chars);
        assert!(from <= to && to <= chars.len());
        let ours: String = chars[from..to].iter().collect();
        assert_eq!(ours, text.trim(), "{:?}", text);
    }
}
