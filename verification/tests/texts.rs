use crate_indexer::text::{
    char_is_digit, char_is_space, chars_less, concat2, concat3, decimal_string, from_chars, has_prefix,
    join_strings, push_decimal, push_hex, replace_in, to_chars, trim_str,
};

#[test]
fn characters_round_trip() {
    let chars = to_chars("héllo");
    assert_eq!(chars, vec!['h', 'é', 'l', 'l', 'o']);
    assert_eq!(from_chars(&chars, 0, 5), "héllo");
    assert_eq!(from_chars(&chars, 1, 3), "él");
    assert_eq!(from_chars(&chars, 2, 2), "");
}

#[test]
fn texts_are_put_together() {
    assert_eq!(concat2("ab", "cd"), "abcd");
    assert_eq!(concat3("a", "", "c"), "ac");
    let parts = vec!["x".to_string(), "".to_string(), "z".to_string()];
    assert_eq!(join_strings(&parts, ", "), "x, , z");
    assert_eq!(join_strings(&parts[..1].to_vec(), ", "), "x");
    assert_eq!(join_strings(&vec![], ", "), "");
}

#[test]
fn prefixes_are_recognised() {
    let starts = |text: &str, prefix: &str| has_prefix(&to_chars(text), &to_chars(prefix));
    assert!(starts("serde-1.0.0", "serde-"));
    assert!(starts("serde", ""));
    assert!(starts("abc", "abc"));
    assert!(!starts("serde", "serde-"));
    assert!(!starts("xserde-", "serde-"));
}

#[test]
fn white_space_is_what_unicode_says() {
    for c in ['\t', '\n', '\u{b}', '\u{c}', '\r', ' ', '\u{85}', '\u{a0}', '\u{1680}', '\u{2000}', '\u{200a}', '\u{2028}', '\u{2029}', '\u{202f}', '\u{205f}', '\u{3000}'] {
        assert!(char_is_space(c), "{:?}", c);
    }
    for c in ['a', '0', '\u{8}', '\u{e}', '\u{200b}', '\u{feff}', '\u{180e}', '_'] {
        assert!(!char_is_space(c), "{:?}", c);
    }
    for code in 0..0x3100u32 {
        if let Some(c) = char::from_u32(code) {
            assert_eq!(char_is_space(c), c.is_whitespace(), "{:x}", code);
        }
    }
}

#[test]
fn trimming_agrees_with_the_standard_library() {
    for text in ["", " ", "a", "  a b  ", "\t\nline\r\n", "\u{a0}x\u{2003}", "x \u{200b} ", " inner  space "] {
        assert_eq!(trim_str(text), text.trim());
    }
}

#[test]
fn digits_and_numbers() {
    assert!(char_is_digit('0') && char_is_digit('9'));
    assert!(!char_is_digit('a') && !char_is_digit('/') && !char_is_digit(':') && !char_is_digit('٣'));
    assert_eq!(decimal_string(0), "0");
    assert_eq!(decimal_string(7), "7");
    assert_eq!(decimal_string(10), "10");
    assert_eq!(decimal_string(1234567890), "1234567890");
    assert_eq!(decimal_string(usize::MAX), usize::MAX.to_string());
    let mut out = String::from("line ");
    push_decimal(&mut out, 42);
    assert_eq!(out, "line 42");
}

#[test]
fn hexadecimal_has_a_fixed_width() {
    let mut out = String::new();
    push_hex(&mut out, 0xdead_beef, 8);
    assert_eq!(out, "deadbeef");
    let mut out = String::new();
    push_hex(&mut out, 0x1f, 8);
    assert_eq!(out, "0000001f");
    let mut out = String::new();
    push_hex(&mut out, 0x1234_5678_9abc_def0, 4);
    assert_eq!(out, "def0");
    let mut out = String::from("x");
    push_hex(&mut out, 255, 0);
    assert_eq!(out, "x");
}

#[test]
fn characters_are_replaced() {
    assert_eq!(replace_in("serde_json_core", '_', '-'), "serde-json-core");
    assert_eq!(replace_in("plain", '_', '-'), "plain");
    assert_eq!(replace_in("", '_', '-'), "");
}

#[test]
fn dictionary_order_agrees_with_the_standard_library() {
    let words = ["", "a", "ab", "abc", "abd", "b", "B", "foo-1.0.0", "foo-10.0.0", "foo-2.0.0", "é", "z", "日本"];
    for a in words {
        for b in words {
            assert_eq!(chars_less(&to_chars(a), &to_chars(b)), a < b, "{:?} {:?}", a, b);
        }
    }
}
