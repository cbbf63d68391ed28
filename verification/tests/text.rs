use hack_scraper::text::{is_white_space, strip_escapes, trim_found, trim_text, ESCAPE};

#[test]
fn whitespace_is_what_the_standard_library_calls_whitespace() {
    let mut n: u32 = 0;
    while n <= 0x10ffff {
        if let Some(c) = char::from_u32(n) {
            assert_eq!(is_white_space(c), c.is_whitespace(), "U+{:04X}", n);
        }
        n += 1;
    }
}

#[test]
fn whitespace_characters_by_name() {
    for c in ['\t', '\n', '\u{b}', '\u{c}', '\r', ' ', '\u{85}', '\u{a0}', '\u{1680}'] {
        assert!(is_white_space(c));
    }
    for c in ['\u{2000}', '\u{2005}', '\u{200a}', '\u{2028}', '\u{2029}', '\u{202f}'] {
        assert!(is_white_space(c));
    }
    assert!(is_white_space('\u{205f}'));
    assert!(is_white_space('\u{3000}'));
    for c in ['\0', '\u{8}', '\u{e}', '\u{1f}', '!', 'a', '_', '\u{84}', '\u{86}', '\u{9f}'] {
        assert!(!is_white_space(c));
    }
    for c in ['\u{a1}', '\u{167f}', '\u{1681}', '\u{180e}', '\u{1fff}', '\u{200b}', '\u{2027}'] {
        assert!(!is_white_space(c));
    }
    for c in ['\u{202a}', '\u{2060}', '\u{2fff}', '\u{3001}', '\u{feff}', '\u{10ffff}'] {
        assert!(!is_white_space(c));
    }
}

#[test]
fn trim_removes_whitespace_at_both_ends_only() {
    assert_eq!(trim_text("  Story A  "), "Story A");
    assert_eq!(trim_text("Story A"), "Story A");
    assert_eq!(trim_text("\n\tStory  A and\tB\r\n"), "Story  A and\tB");
    assert_eq!(trim_text("x "), "x");
    assert_eq!(trim_text(" x"), "x");
    assert_eq!(trim_text("x"), "x");
    assert_eq!(trim_text(" a b "), "a b");
}

#[test]
fn trim_of_nothing_but_whitespace_is_empty() {
    assert_eq!(trim_text(""), "");
    assert_eq!(trim_text(" "), "");
    assert_eq!(trim_text(" \t\r\n\u{a0}\u{3000} "), "");
}

#[test]
fn trim_counts_characters_not_bytes() {
    assert_eq!(trim_text("\u{3000}\u{e9}t\u{e9}\u{2003}"), "\u{e9}t\u{e9}");
    assert_eq!(trim_text("\u{a0}\u{1F980} crab \u{1F980}\u{a0}"), "\u{1F980} crab \u{1F980}");
    assert_eq!(trim_text("\u{200b} x \u{200b}"), "\u{200b} x \u{200b}");
}

#[test]
fn trim_agrees_with_the_standard_library() {
    let samples = [
        "",
        " ",
        "a",
        " a",
        "a ",
        " a ",
        "  a  b  ",
        "\t\n\u{b}\u{c}\r \u{85}\u{a0}x\u{1680}\u{2000}\u{200a}\u{2028}\u{2029}\u{202f}\u{205f}\u{3000}",
        "\u{feff} bom ",
        "login\n",
        " \u{1F600} ",
    ];
    for s in samples {
        assert_eq!(trim_text(s), s.trim());
    }
}

#[test]
fn trim_found_keeps_the_gap() {
    assert_eq!(trim_found(&None), None);
    assert_eq!(trim_found(&Some(" a ".to_string())), Some("a".to_string()));
    assert_eq!(trim_found(&Some("  ".to_string())), Some(String::new()));
}

#[test]
fn escape_is_the_control_character_1b() {
    assert_eq!(ESCAPE, '\u{1b}');
}

#[test]
fn strip_escapes_takes_out_every_escape_and_nothing_else() {
    assert_eq!(strip_escapes(""), "");
    assert_eq!(strip_escapes("plain"), "plain");
    assert_eq!(strip_escapes("\u{1b}"), "");
    assert_eq!(strip_escapes("\u{1b}\u{1b}\u{1b}"), "");
    assert_eq!(strip_escapes("\u{1b}[31mred\u{1b}[0m"), "[31mred[0m");
    assert_eq!(strip_escapes("a\u{1b}b\u{1b}"), "ab");
    let kept = " \u{1a}\u{1c}\t\u{e9}\u{1F980} ";
    assert_eq!(strip_escapes(kept), kept);
}
