use kibad::text::{
    chars_of, contains_text, decimal, find_text, is_white_space, nth_piece, same_text, split_lines,
    string_of, trim,
};

fn lines(text: &str) -> Vec<String> {
    split_lines(&chars_of(text)).iter().map(string_of).collect()
}

#[test]
fn white_space_is_the_standard_one() {
    for n in 0..=0x10ffffu32 {
        if let Some(c) = char::from_u32(n) {
            assert_eq!(is_white_space(c), c.is_whitespace(), "{n:#x}");
        }
    }
}

#[test]
fn lines_are_the_standard_ones() {
    let samples = [
        "", "\n", "\r\n", "\r", "a", "a\n", "a\r\n", "a\r", "a\nb", "a\r\nb\r\n", "a\r\r\nb",
        "\n\n", "a\n\nb\n", "é\r\nü", "\r\n\r", "x\ry\n",
    ];
    for text in samples {
        let expected: Vec<String> = text.lines().map(|l| l.to_string()).collect();
        assert_eq!(lines(text), expected, "{text:?}");
    }
}

#[test]
fn trimming_is_the_standard_one() {
    for text in ["", " ", " a ", "\t a b\u{a0}\n", "a", "\u{3000}x\u{2009}", " \u{feff}y "] {
        assert_eq!(string_of(&trim(&chars_of(text))), text.trim(), "{text:?}");
    }
}

#[test]
fn pieces_are_the_standard_ones() {
    for text in ["", ":", "a", "a:b", "a:b:c", "::", "a::b", ":é:"] {
        for n in 0..4 {
            let found = nth_piece(&chars_of(text), ':', n).map(|p| string_of(&p));
            assert_eq!(found, text.split(':').nth(n).map(|s| s.to_string()), "{text:?} {n}");
        }
    }
}

#[test]
fn searching_is_the_standard_one() {
    for (text, pattern) in [
        ("", ""), ("a", ""), ("", "a"), ("abcabc", "ca"), ("abcabc", "abc"), ("aab", "ab"),
        ("éID x", "ID "), ("ID", "ID "), ("xxID  ID y", "ID "),
    ] {
        let chars = chars_of(text);
        let expected = text.find(pattern).map(|byte| text[..byte].chars().count());
        assert_eq!(find_text(&chars, pattern), expected, "{text:?} {pattern:?}");
        assert_eq!(contains_text(&chars, pattern), text.contains(pattern));
    }
}

#[test]
fn decimals_are_the_standard_ones() {
    for n in [0, 7, 9, 10, 99, 100, 20409, u32::MAX as u64, u64::MAX] {
        assert_eq!(decimal(n), n.to_string());
    }
}

#[test]
fn text_equality() {
    assert!(same_text("showing", "showing"));
    assert!(!same_text("showing", "Showing"));
    assert!(same_text("", ""));
}
