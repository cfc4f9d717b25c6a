use minishell::text::{is_whitespace, same_text, split_words, to_chars, trim};

#[test]
fn whitespace_is_the_unicode_property() {
    for code in 0u32..=0x10FFFF {
        if let Some(c) = char::from_u32(code) {
            assert_eq!(is_whitespace(c), c.is_whitespace(), "U+{:04X}", code);
        }
    }
}

#[test]
fn whitespace_code_points_by_name() {
    for c in ['\t', '\n', '\u{0B}', '\u{0C}', '\r', ' ', '\u{85}', '\u{A0}', '\u{1680}'] {
        assert!(is_whitespace(c));
    }
    for c in ['\u{2000}', '\u{200A}', '\u{2028}', '\u{2029}', '\u{202F}', '\u{205F}', '\u{3000}'] {
        assert!(is_whitespace(c));
    }
    for c in ['a', '|', '\u{08}', '\u{0E}', '\u{1F}', '!', '\u{200B}', '\u{180E}', '\u{FEFF}'] {
        assert!(!is_whitespace(c));
    }
}

#[test]
fn chars_come_out_one_by_one() {
    assert_eq!(to_chars(""), Vec::<char>::new());
    assert_eq!(to_chars("a|b"), vec!['a', '|', 'b']);
    assert_eq!(to_chars("h\u{00E9}\u{4E16}"), vec!['h', '\u{00E9}', '\u{4E16}']);
}

#[test]
fn trim_cuts_both_ends_only() {
    assert_eq!(trim("  a  b  "), "a  b");
    assert_eq!(trim("a"), "a");
    assert_eq!(trim(""), "");
    assert_eq!(trim(" \t\n"), "");
    assert_eq!(trim("\u{3000}\u{00E9} x\u{00A0}"), "\u{00E9} x");
    assert_eq!(trim("x\n"), "x");
    assert_eq!(trim("\tx"), "x");
}

#[test]
fn trim_agrees_with_std() {
    let lines = ["", " ", "a", " a", "a ", " a b ", "\u{2003}\u{4E16} \u{754C}\r\n", "  |  "];
    for line in lines {
        assert_eq!(trim(line), line.trim());
    }
}

#[test]
fn words_are_the_runs_between_whitespace() {
    assert_eq!(split_words("echo  hello   world"), vec!["echo", "hello", "world"]);
    assert_eq!(split_words("  lead and trail  "), vec!["lead", "and", "trail"]);
    assert_eq!(split_words("one"), vec!["one"]);
    assert_eq!(split_words(""), Vec::<String>::new());
    assert_eq!(split_words(" \t "), Vec::<String>::new());
    assert_eq!(split_words("a\tb\nc\u{00A0}d"), vec!["a", "b", "c", "d"]);
}

#[test]
fn words_agree_with_std() {
    let lines = ["", "  ", "a  b", " a | b ", "\u{00E9}\u{3000}\u{4E16}  x", "x\r\ny\tz "];
    for line in lines {
        let want: Vec<String> = line.split_whitespace().map(|w| w.to_string()).collect();
        assert_eq!(split_words(line), want);
    }
}

#[test]
fn same_text_compares_characters() {
    assert!(same_text("", ""));
    assert!(same_text("exit", "exit"));
    assert!(!same_text("exit", "Exit"));
    assert!(!same_text("exit", "exi"));
    assert!(!same_text("cd", "cd "));
    assert!(same_text("\u{4E16}\u{754C}", "\u{4E16}\u{754C}"));
}

#[test]
fn words_do_not_depend_on_the_gaps() {
    let words = ["ls", "-l", "/tmp"];
    let gaps: [[&str; 4]; 3] = [
        ["", " ", " ", ""],
        ["  ", "\t", "\u{00A0}\u{3000}", "\r\n"],
        ["\n\n", "   ", " \t ", " "],
    ];
    for g in gaps {
        let mut text = String::new();
        for k in 0..words.len() {
            text.push_str(g[k]);
            text.push_str(words[k]);
        }
        text.push_str(g[words.len()]);
        assert_eq!(split_words(&text), words);
    }
}
