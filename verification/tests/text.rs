use node_api::text::{
    chars_of, is_whitespace, precedes, push_decimal, same_text, text_of, trim_bounds,
};

fn decimal(n: u64) -> String {
    let mut out = String::from("n=");
    push_decimal(&mut out, n);
    out
}

#[test]
fn decimal_numbers() {
    assert_eq!(decimal(0), "n=0");
    assert_eq!(decimal(7), "n=7");
    assert_eq!(decimal(10), "n=10");
    assert_eq!(decimal(255), "n=255");
    assert_eq!(decimal(65_535), "n=65535");
    assert_eq!(decimal(u64::MAX), "n=18446744073709551615");
}

#[test]
fn white_space_is_that_of_unicode() {
    for code in 0u32..=0x11_0000 {
        if let Some(c) = char::from_u32(code) {
            assert_eq!(is_whitespace(c), c.is_whitespace(), "U+{:04X}", code);
        }
    }
}

#[test]
fn trimming_agrees_with_str_trim() {
    for text in ["", " ", "a", "  a b  ", "\t\n x\u{2003}\u{3000}", "\u{a0}host\u{85}", "é ", " \u{180e} "] {
        let chars = chars_of(text);
        assert_eq!(chars, text.chars().collect::<Vec<char>>());
        let (a, b) = trim_bounds(&chars, 0, chars.len());
        assert_eq!(text_of(&chars, a, b), text.trim());
    }
    let chars = chars_of("ab  cd  ef");
    let (a, b) = trim_bounds(&chars, 2, 8);
    assert_eq!((a, b), (4, 6));
    assert_eq!(text_of(&chars, a, b), "cd");
    assert_eq!(trim_bounds(&chars, 2, 4), (4, 4));
}

#[test]
fn texts_compare_as_strings_do() {
    let texts = ["", "a", "A", "ab", "b", "aa", "é", "z", "\u{10000}", "\u{ffff}", "a\u{0}"];
    for a in texts {
        for b in texts {
            assert_eq!(precedes(a, b), a < b, "{:?} < {:?}", a, b);
            assert_eq!(same_text(a, b), a == b, "{:?} == {:?}", a, b);
        }
    }
}
