use tails::text::{
    char_is_whitespace, char_len_utf8, chars_of, count_lines, decimal_string, line_bounds,
    line_bounds_with, newlines_of, push_decimal, push_range, push_repeated, string_of,
    string_of_range, trim_bounds, utf8_len_range,
};

#[test]
fn chars_and_strings() {
    let cs = chars_of("héllo");
    assert_eq!(cs, vec!['h', 'é', 'l', 'l', 'o']);
    assert_eq!(string_of(&cs), "héllo");
    assert_eq!(string_of_range(&cs, 1, 3), "él");
    let mut s = "x".to_string();
    push_range(&mut s, &cs, 3, 5);
    assert_eq!(s, "xlo");
}

#[test]
fn decimals() {
    assert_eq!(decimal_string(0), "0");
    assert_eq!(decimal_string(1234567890), "1234567890");
    assert_eq!(decimal_string(u64::MAX), u64::MAX.to_string());
    let mut s = "n=".to_string();
    push_decimal(&mut s, 42);
    assert_eq!(s, "n=42");
    let mut r = String::new();
    push_repeated(&mut r, '-', 3);
    assert_eq!(r, "---");
}

#[test]
fn utf8_lengths() {
    assert_eq!(char_len_utf8('a'), 1);
    assert_eq!(char_len_utf8('é'), 2);
    assert_eq!(char_len_utf8('€'), 3);
    assert_eq!(char_len_utf8('😀'), 4);
    let cs = chars_of("a€😀");
    assert_eq!(utf8_len_range(&cs, 0, 3), 8);
    assert_eq!(utf8_len_range(&cs, 1, 2), 3);
}

#[test]
fn line_tables() {
    let cs = chars_of("one\r\ntwo\n\nfour");
    let nl = newlines_of(&cs);
    assert_eq!(nl, vec![4, 8, 9]);
    assert_eq!(count_lines(&cs, &nl), 4);
    assert_eq!(line_bounds(&cs, 1), Some((0, 3)));
    assert_eq!(line_bounds(&cs, 2), Some((5, 8)));
    assert_eq!(line_bounds(&cs, 3), Some((9, 9)));
    assert_eq!(line_bounds_with(&cs, &nl, 4), Some((10, 14)));
    assert_eq!(line_bounds(&cs, 5), None);
    let lines: Vec<&str> = "one\r\ntwo\n\nfour".lines().collect();
    assert_eq!(lines.len(), count_lines(&cs, &nl));
    let trailing = chars_of("a\n");
    assert_eq!(count_lines(&trailing, &newlines_of(&trailing)), 1);
}

#[test]
fn whitespace_and_trim() {
    assert!(char_is_whitespace(' '));
    assert!(char_is_whitespace('\u{3000}'));
    assert!(!char_is_whitespace('x'));
    for c in ['\t', '\n', '\u{a0}', '\u{2028}', 'a', '\u{200b}'] {
        assert_eq!(char_is_whitespace(c), c.is_whitespace());
    }
    let cs = chars_of("  ab c \n");
    let (a, b) = trim_bounds(&cs, 0, cs.len());
    assert_eq!(string_of_range(&cs, a, b), "  ab c \n".trim());
}
