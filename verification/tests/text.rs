use cargo_ebuild::text::{decimal_text, is_whitespace, text_lt, text_of, to_chars, trim};

#[test]
fn to_chars_gives_the_characters_in_order() {
    assert_eq!(to_chars("a-b\n"), vec!['a', '-', 'b', '\n']);
    assert_eq!(to_chars("é∀"), vec!['é', '∀']);
    assert_eq!(to_chars(""), Vec::<char>::new());
}

#[test]
fn text_of_copies_a_range_of_characters() {
    let chars = vec!['h', 'e', 'l', 'l', 'o'];
    assert_eq!(text_of(&chars, 1, 4), "ell");
    assert_eq!(text_of(&chars, 0, 5), "hello");
    assert_eq!(text_of(&chars, 2, 2), "");
}

#[test]
fn is_whitespace_agrees_with_the_unicode_property_on_every_character() {
    let mut code: u32 = 0;
    while code <= 0x10FFFF {
        if let Some(c) = char::from_u32(code) {
            assert_eq!(is_whitespace(c), c.is_whitespace(), "U+{:04X}", code);
        }
        code += 1;
    }
}

#[test]
fn trim_removes_whitespace_at_both_ends_only() {
    assert_eq!(trim("  a b \t\n"), "a b");
    assert_eq!(trim("a"), "a");
    assert_eq!(trim(""), "");
    assert_eq!(trim(" \r\n\t "), "");
    assert_eq!(trim("\u{3000}x\u{a0}y\u{2003}"), "x\u{a0}y");
}

#[test]
fn trim_agrees_with_the_standard_trim() {
    let samples = [
        "",
        " ",
        "unknown license",
        " MIT/Apache-2.0 ",
        "\n\nA summary\nin two lines\n",
        "\u{85}next line\u{2028}",
        "\u{200b}zero width space is no whitespace\u{200b}",
        "tab\tinside",
    ];
    for s in samples {
        assert_eq!(trim(s), s.trim(), "{:?}", s);
    }
}

#[test]
fn text_lt_is_the_order_of_the_standard_library() {
    let samples = [
        "", "a", "A", "ab", "abc", "abd", "b", "serde-1.0.0\n", "serde-1.0.10\n", "serde-1.0.2\n",
        "serde_json-1.0.0\n", "é", "z", "\u{10000}", "\u{ffff}", "~", "0", "-",
    ];
    for a in samples {
        for b in samples {
            assert_eq!(text_lt(a, b), a < b, "{:?} < {:?}", a, b);
        }
    }
}

#[test]
fn text_lt_is_strict() {
    assert!(!text_lt("same", "same"));
    assert!(text_lt("same", "same "));
    assert!(!text_lt("same ", "same"));
    assert!(text_lt("", "x"));
    assert!(!text_lt("", ""));
}

#[test]
fn decimal_text_writes_numerals() {
    assert_eq!(decimal_text(0), "0");
    assert_eq!(decimal_text(7), "7");
    assert_eq!(decimal_text(10), "10");
    assert_eq!(decimal_text(1900), "1900");
    assert_eq!(decimal_text(2018), "2018");
    assert_eq!(decimal_text(-1), "-1");
    assert_eq!(decimal_text(-247), "-247");
    assert_eq!(decimal_text(1234567890), "1234567890");
}

#[test]
fn decimal_text_agrees_with_to_string_at_the_limits() {
    for n in [i64::MIN, i64::MIN + 1, -10, -9, 9, 99, 100, 101, i64::MAX - 1, i64::MAX] {
        assert_eq!(decimal_text(n), n.to_string());
    }
}
