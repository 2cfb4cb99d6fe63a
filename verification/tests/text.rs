use rust_todo::text::{chars_of, contains_text, is_whitespace, same_text, trim};

#[test]
fn whitespace_is_what_unicode_marks_as_white_space() {
    let mut code: u32 = 0;
    while code <= 0x10FFFF {
        if let Some(c) = char::from_u32(code) {
            assert_eq!(is_whitespace(c), c.is_whitespace(), "U+{:04X}", code);
        }
        code += 1;
    }
}

#[test]
fn chars_of_gives_every_character() {
    assert_eq!(chars_of(""), Vec::<char>::new());
    assert_eq!(chars_of("a b"), vec!['a', ' ', 'b']);
    assert_eq!(chars_of("déjà vu ✓"), "déjà vu ✓".chars().collect::<Vec<char>>());
}

#[test]
fn trim_removes_white_space_at_both_ends() {
    assert_eq!(trim("  buy milk \t"), "buy milk");
    assert_eq!(trim("buy milk"), "buy milk");
    assert_eq!(trim("\r\n a  b \u{3000}\u{a0}"), "a  b");
    assert_eq!(trim(""), "");
    assert_eq!(trim(" \t\n"), "");
    assert_eq!(trim("x"), "x");
    assert_eq!(trim(" é "), "é");
}

#[test]
fn trim_agrees_with_the_standard_library() {
    let samples = [
        "",
        " ",
        "a",
        " a",
        "a ",
        "  a  b  ",
        "\u{2003}wide\u{2003}",
        "\u{200b}zero width stays\u{200b}",
        "\u{1680}ogham\u{205f}",
        "tabs\t\t",
        "\u{85}next line\u{2028}\u{2029}",
    ];
    for sample in samples {
        assert_eq!(trim(sample), sample.trim(), "{:?}", sample);
    }
}

#[test]
fn contains_finds_a_run_of_characters() {
    assert!(contains_text("buy milk", "milk"));
    assert!(contains_text("buy milk", "buy"));
    assert!(contains_text("buy milk", "y m"));
    assert!(contains_text("buy milk", "buy milk"));
    assert!(!contains_text("buy milk", "buy milk!"));
    assert!(!contains_text("buy milk", "Milk"));
    assert!(!contains_text("buy milk", "bm"));
    assert!(!contains_text("", "a"));
}

#[test]
fn the_empty_text_occurs_everywhere() {
    assert!(contains_text("buy milk", ""));
    assert!(contains_text("", ""));
}

#[test]
fn contains_agrees_with_the_standard_library() {
    let hays = ["", "a", "aa", "aab", "abab", "banana", "ünïcödé", "a\nb"];
    let needles = ["", "a", "b", "ab", "ba", "aab", "nan", "ana", "anab", "ï", "\n"];
    for hay in hays {
        for needle in needles {
            assert_eq!(contains_text(hay, needle), hay.contains(needle), "{:?} {:?}", hay, needle);
        }
    }
}

#[test]
fn same_text_compares_characters() {
    assert!(same_text("", ""));
    assert!(same_text("add", "add"));
    assert!(!same_text("add", "ad"));
    assert!(!same_text("ad", "add"));
    assert!(!same_text("add", "adD"));
    assert!(!same_text("a", ""));
}
