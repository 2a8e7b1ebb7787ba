use wf_api_quick::text::{
    char_is_white_space, chars_of, contains_text, join, padding, repeat, split_whitespace,
};

#[test]
fn white_space_is_what_std_takes_for_it() {
    let mut code: u32 = 0;
    while code <= 0x10FFFF {
        if let Some(c) = char::from_u32(code) {
            assert_eq!(char_is_white_space(c), c.is_whitespace(), "U+{:04X}", code);
        }
        code += 1;
    }
}

#[test]
fn white_space_named_characters() {
    for c in [' ', '\t', '\n', '\r', '\u{B}', '\u{C}', '\u{85}', '\u{A0}', '\u{1680}', '\u{2000}',
        '\u{200A}', '\u{2028}', '\u{2029}', '\u{202F}', '\u{205F}', '\u{3000}']
    {
        assert!(char_is_white_space(c));
    }
    for c in ['a', 'Z', '0', '-', '\u{8}', '\u{E}', '\u{200B}', '\u{180E}', '\u{FEFF}', '│'] {
        assert!(!char_is_white_space(c));
    }
}

#[test]
fn chars_of_gives_every_character() {
    assert_eq!(chars_of("a│b"), vec!['a', '│', 'b']);
    assert_eq!(chars_of(""), Vec::<char>::new());
}

#[test]
fn split_whitespace_plain_words() {
    assert_eq!(split_whitespace("Meso A1 Relic"), vec!["Meso", "A1", "Relic"]);
}

#[test]
fn split_whitespace_runs_of_white_space() {
    assert_eq!(split_whitespace("  The \t quick\n\nbrown  "), vec!["The", "quick", "brown"]);
    assert_eq!(split_whitespace("a\u{3000}b\u{A0}c"), vec!["a", "b", "c"]);
}

#[test]
fn split_whitespace_empty_and_blank() {
    assert_eq!(split_whitespace(""), Vec::<&str>::new());
    assert_eq!(split_whitespace(" \t\n"), Vec::<&str>::new());
}

#[test]
fn split_whitespace_single_word() {
    assert_eq!(split_whitespace("Forma"), vec!["Forma"]);
    assert_eq!(split_whitespace(" Forma"), vec!["Forma"]);
    assert_eq!(split_whitespace("Forma "), vec!["Forma"]);
}

#[test]
fn split_whitespace_keeps_wide_characters_whole() {
    assert_eq!(split_whitespace("日本語 テキスト"), vec!["日本語", "テキスト"]);
}

#[test]
fn split_whitespace_agrees_with_std() {
    for s in [
        "",
        " ",
        "a",
        "a b",
        " a  b ",
        "The quick brown fox jumps",
        "tab\tseparated\tvalues",
        "line one\nline two\r\nline three",
        "\u{2003}em\u{2003}spaced\u{2003}",
        "mixed │ border ─ glyphs",
        "zero\u{200B}width is no space",
    ] {
        let expected: Vec<&str> = s.split_whitespace().collect();
        assert_eq!(split_whitespace(s), expected, "{:?}", s);
    }
}

#[test]
fn repeat_writes_the_unit_again_and_again() {
    assert_eq!(repeat("─", 3), "───");
    assert_eq!(repeat("ab", 2), "abab");
    assert_eq!(repeat("ab", 0), "");
    assert_eq!(repeat("", 5), "");
}

#[test]
fn padding_is_spaces() {
    assert_eq!(padding(0), "");
    assert_eq!(padding(2), "  ");
    assert_eq!(padding(5), "     ");
}

#[test]
fn join_puts_one_space_between() {
    assert_eq!(join(&vec![]), "");
    assert_eq!(join(&vec!["Meso"]), "Meso");
    assert_eq!(join(&vec!["Meso", "A1"]), "Meso A1");
    assert_eq!(join(&vec!["a", "b", "c"]), "a b c");
}

#[test]
fn contains_text_finds_equal_strings_only() {
    let seen = vec![String::from("Meso A1"), String::from("Axi K3")];
    assert!(contains_text(&seen, "Meso A1"));
    assert!(contains_text(&seen, "Axi K3"));
    assert!(!contains_text(&seen, "Meso"));
    assert!(!contains_text(&seen, "meso a1"));
    assert!(!contains_text(&Vec::new(), ""));
}
