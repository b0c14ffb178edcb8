use csv2tex::text::{chars_of, push_range, scan_prefix, scan_suffix, string_of, trim, trim_bounds, CharClass};

#[test]
fn whitespace_is_the_unicode_property() {
    for code in 0..=0x10ffffu32 {
        if let Some(c) = char::from_u32(code) {
            assert_eq!(CharClass::Whitespace.has(c), c.is_whitespace(), "U+{:04X}", code);
        }
    }
}

#[test]
fn mantissa_class_is_digits_point_and_signs() {
    for code in 0..=0x10ffffu32 {
        if let Some(c) = char::from_u32(code) {
            let expected = c.is_ascii_digit() || c == '.' || c == '-' || c == '+';
            assert_eq!(CharClass::Mantissa.has(c), expected, "U+{:04X}", code);
        }
    }
}

#[test]
fn exponent_class_is_digits_and_signs() {
    for code in 0..=0x10ffffu32 {
        if let Some(c) = char::from_u32(code) {
            let expected = c.is_ascii_digit() || c == '-' || c == '+';
            assert_eq!(CharClass::Exponent.has(c), expected, "U+{:04X}", code);
        }
    }
}

#[test]
fn trim_removes_whitespace_at_both_ends() {
    assert_eq!(trim("  a b  "), "a b");
    assert_eq!(trim("a b"), "a b");
    assert_eq!(trim(""), "");
    assert_eq!(trim(" \t\r\n"), "");
    assert_eq!(trim("\u{3000}表\u{2003}"), "表");
    assert_eq!(trim(" x"), "x");
    assert_eq!(trim("x "), "x");
}

#[test]
fn trim_agrees_with_the_standard_library() {
    for text in [
        "",
        " ",
        "a",
        "  a",
        "a  ",
        " a b ",
        "\n\ta\u{b}\u{c}",
        "\u{85}x\u{a0}",
        "\u{1680}\u{2000}y\u{200a}\u{2028}\u{2029}",
        "\u{202f}z\u{205f}\u{3000}",
        "\u{200b}zero width\u{200b}",
        "\u{feff}bom",
        " 日本語 テキスト ",
    ] {
        assert_eq!(trim(text), text.trim());
    }
}

#[test]
fn chars_of_lists_the_characters() {
    assert_eq!(chars_of(""), Vec::<char>::new());
    assert_eq!(chars_of("aé表"), vec!['a', 'é', '表']);
}

#[test]
fn string_of_copies_a_range() {
    let chars = chars_of("1.23E-4");
    assert_eq!(string_of(&chars, 0, 4), "1.23");
    assert_eq!(string_of(&chars, 5, 7), "-4");
    assert_eq!(string_of(&chars, 3, 3), "");
    let mut out = String::from("<");
    push_range(&mut out, &chars, 4, 5);
    assert_eq!(out, "<E");
}

#[test]
fn scan_prefix_finds_the_end_of_a_run() {
    let chars = chars_of("  12.5E+3  ");
    assert_eq!(scan_prefix(&chars, 0, chars.len(), CharClass::Whitespace), 2);
    assert_eq!(scan_prefix(&chars, 2, chars.len(), CharClass::Mantissa), 6);
    assert_eq!(scan_prefix(&chars, 2, chars.len(), CharClass::Exponent), 4);
    assert_eq!(scan_prefix(&chars, 7, chars.len(), CharClass::Exponent), 9);
    assert_eq!(scan_prefix(&chars, 7, 8, CharClass::Exponent), 8);
    assert_eq!(scan_prefix(&chars, 6, chars.len(), CharClass::Mantissa), 6);
    assert_eq!(scan_prefix(&chars, 11, 11, CharClass::Whitespace), 11);
}

#[test]
fn scan_suffix_finds_the_start_of_a_run() {
    let chars = chars_of("  12.5E+3  ");
    assert_eq!(scan_suffix(&chars, 0, chars.len(), CharClass::Whitespace), 9);
    assert_eq!(scan_suffix(&chars, 0, 9, CharClass::Exponent), 7);
    assert_eq!(scan_suffix(&chars, 8, 9, CharClass::Exponent), 8);
    assert_eq!(scan_suffix(&chars, 0, 6, CharClass::Mantissa), 2);
    assert_eq!(scan_suffix(&chars, 0, 0, CharClass::Whitespace), 0);
}

#[test]
fn trim_bounds_of_blank_text_are_empty() {
    assert_eq!(trim_bounds(&chars_of("   ")), (3, 3));
    assert_eq!(trim_bounds(&chars_of("")), (0, 0));
    assert_eq!(trim_bounds(&chars_of(" ab ")), (1, 3));
}
