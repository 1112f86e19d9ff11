use kactive_window_launcher::text::{
    chars_of, decimal_chars, hex_chars, is_whitespace_char, lower_chars, str_equal, trim_chars,
};

#[test]
fn white_space_agrees_with_std_on_every_char() {
    for u in 0u32..=0x10FFFF {
        if let Some(c) = char::from_u32(u) {
            assert_eq!(is_whitespace_char(c), c.is_whitespace(), "U+{u:04X}");
        }
    }
}

#[test]
fn trimming_agrees_with_std() {
    for s in ["", "   ", " a ", "\u{3000}x\u{A0}", "\t\nab c\r", "a", "x\u{200B}"] {
        let t: String = trim_chars(&chars_of(s)).into_iter().collect();
        assert_eq!(t, s.trim());
    }
}

#[test]
fn lower_casing_and_notation() {
    let l: String = lower_chars(&chars_of("HTTP://Äb")).into_iter().collect();
    assert_eq!(l, "HTTP://Äb".to_ascii_lowercase());
    let d: String = decimal_chars(1234567890).into_iter().collect();
    assert_eq!(d, "1234567890");
    let h: String = hex_chars(0xdead_beef).into_iter().collect();
    assert_eq!(h, "deadbeef");
    assert!(str_equal("abc", "abc"));
    assert!(!str_equal("abc", "abd"));
}
