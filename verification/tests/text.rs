//! Texts and numbers.

use vmux::text::chars::{
    chars_of, contains, find, join_strings, split_char, split_words, string_of, strip_prefix,
    strip_suffix, trim, trim_text,
};
use vmux::text::lines::split_lines;
use vmux::text::numbers::{decimal_chars, parse_decimal, parse_number, signed_chars};
use vmux::text::order::before;
use vmux::text::pairs::{remove_key, set_pair};
use vmux::text::utf8::{bytes_in, char_width, find_byte};

#[test]
fn numbers_read_back() {
    for n in [0u64, 7, 10, 99, 12_345, u64::MAX] {
        let digits = decimal_chars(n);
        assert_eq!(string_of(&digits), n.to_string());
        assert_eq!(parse_decimal(&digits, u64::MAX), Some(n));
    }
    assert_eq!(string_of(&signed_chars(-45)), "-45");
    assert_eq!(parse_number(&chars_of("fF"), 16, 255), Some(255));
    assert_eq!(parse_number(&chars_of("100"), 16, 255), None);
    assert_eq!(parse_decimal(&chars_of("+5"), 10), Some(5));
    assert_eq!(parse_decimal(&chars_of(""), 10), None);
    assert_eq!(parse_decimal(&chars_of("1x"), 10), None);
}

#[test]
fn texts_are_cut_and_joined() {
    let s = chars_of("  a, b ,c ");
    assert_eq!(string_of(trim(&s)), "a, b ,c");
    assert_eq!(split_char(&s, ',').len(), 3);
    assert_eq!(split_words(&s).len(), 3);
    assert_eq!(trim_text("\u{2003}x\u{85}"), "x");
    assert_eq!(find(&chars_of("abcabc"), "ca"), Some(2));
    assert!(contains(&chars_of("abc"), ""));
    assert_eq!(strip_prefix(&chars_of("tab-1"), "tab-").map(string_of).as_deref(), Some("1"));
    assert_eq!(strip_suffix(&chars_of("x]"), "]").map(string_of).as_deref(), Some("x"));
    assert_eq!(join_strings(&["a".to_string(), "b".to_string()], ", "), "a, b");
    let lines: Vec<String> =
        split_lines(&chars_of("a\r\nb\n\nc")).iter().map(|l| string_of(l)).collect();
    assert_eq!(lines, ["a", "b", "", "c"]);
    assert!(split_lines(&[]).is_empty());
}

#[test]
fn order_and_widths_are_those_of_bytes() {
    let words = ["", "Z", "a", "ab", "é", "😀"];
    for a in words {
        for b in words {
            assert_eq!(before(a, b), a < b, "{a} {b}");
        }
        assert_eq!(bytes_in(a), a.len());
    }
    assert_eq!(char_width('é'), 2);
    let s = chars_of("é😀x");
    assert_eq!(find_byte(&s, 0), Some(0));
    assert_eq!(find_byte(&s, 2), Some(1));
    assert_eq!(find_byte(&s, 3), None);
    assert_eq!(find_byte(&s, 6), Some(2));
}

#[test]
fn pairs_stay_in_order() {
    let mut pairs = Vec::new();
    for (k, v) in [("b", "1"), ("a", "2"), ("c", "3"), ("b", "4")] {
        set_pair(&mut pairs, k.to_string(), v.to_string());
    }
    let shown: Vec<String> = pairs.iter().map(|p| format!("{}={}", p.0, p.1)).collect();
    assert_eq!(shown, ["a=2", "b=4", "c=3"]);
    remove_key(&mut pairs, "b");
    remove_key(&mut pairs, "zz");
    assert_eq!(pairs.len(), 2);
}
