use frameview_gui::text::white_space;
use frameview_gui::text::{chars_of, parse_unsigned_chars, trim_bounds};
use frameview_gui::text::{decimal_string, parse_u32, parse_usize, trim};

#[test]
fn trim_removes_unicode_whitespace() {
    assert_eq!(trim("  GPU0Util(%) \t"), "GPU0Util(%)");
    assert_eq!(trim("\u{3000}x\u{a0}\u{2009}"), "x");
    assert_eq!(trim(" a b "), "a b");
    assert_eq!(trim("   "), "");
    assert_eq!(trim(""), "");
}

#[test]
fn trim_agrees_with_std() {
    for s in ["", " ", "x", " x", "x ", "\n\tx y\r\n", "\u{85}z\u{2028}", "\u{200b}a"] {
        assert_eq!(trim(s), s.trim());
    }
}

#[test]
fn parse_u32_accepts_what_std_accepts() {
    for s in ["0", "7", "+6", "0042", "4294967295", "4294967296", "", "+", "-1", " 3", "3 ", "x", "1_0"] {
        assert_eq!(parse_u32(s), s.parse::<u32>().ok(), "input {s:?}");
    }
}

#[test]
fn parse_usize_exact_values() {
    assert_eq!(parse_usize("63"), Some(63));
    assert_eq!(parse_usize("+12"), Some(12));
    assert_eq!(parse_usize("18446744073709551615"), "18446744073709551615".parse::<usize>().ok());
    assert_eq!(parse_usize("99999999999999999999"), None);
    assert_eq!(parse_usize("-0"), None);
}

#[test]
fn decimal_strings() {
    assert_eq!(decimal_string(0), "0");
    assert_eq!(decimal_string(9), "9");
    assert_eq!(decimal_string(15), "15");
    assert_eq!(decimal_string(1234567), "1234567");
}

#[test]
fn white_space_property() {
    for c in ['\t', '\n', '\u{b}', '\u{c}', '\r', ' ', '\u{85}', '\u{a0}', '\u{1680}', '\u{2000}', '\u{200a}', '\u{2028}', '\u{2029}', '\u{202f}', '\u{205f}', '\u{3000}'] {
        assert!(white_space(c), "{c:?}");
    }
    for c in ['a', '0', '\u{200b}', '\u{feff}', '\u{180e}', '_'] {
        assert!(!white_space(c), "{c:?}");
    }
    for u in 0u32..0x3100 {
        if let Some(c) = char::from_u32(u) {
            assert_eq!(white_space(c), c.is_whitespace(), "{u:#x}");
        }
    }
}

#[test]
fn trim_bounds_and_chars() {
    let cs = chars_of(" ab \n");
    assert_eq!(cs, vec![' ', 'a', 'b', ' ', '\n']);
    assert_eq!(trim_bounds(&cs), (1, 3));
    assert_eq!(parse_unsigned_chars(&chars_of("+255"), 255), Some(255));
    assert_eq!(parse_unsigned_chars(&chars_of("256"), 255), None);
}
