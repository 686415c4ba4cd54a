use koji::text::{
    chars_of, concat2, concat3, has_match, is_blank, is_match_at, is_white_space, prefix_before,
    replace, replace_chars, string_of,
};

fn chars(text: &str) -> Vec<char> {
    text.chars().collect()
}

#[test]
fn chars_and_back() {
    assert_eq!(chars_of("añ🦡"), vec!['a', 'ñ', '🦡']);
    assert_eq!(chars_of(""), Vec::<char>::new());
    assert_eq!(string_of(&vec!['a', 'ñ', '🦡']), "añ🦡");
    assert_eq!(string_of(&Vec::new()), "");
}

#[test]
fn replace_agrees_with_std() {
    let cases = [
        ("", "a", "b"),
        ("aaa", "a", "b"),
        ("aaa", "aa", "b"),
        ("aaaa", "aa", "a"),
        ("abcabc", "bc", ""),
        ("abcabc", "abcabcd", "x"),
        ("one\\ntwo\\n", "\\n", "\n"),
        (":a::a:", ":a:", "🦡"),
        ("ababab", "aba", "ab"),
    ];
    for (text, pattern, replacement) in cases {
        assert_eq!(
            replace(text, pattern, replacement),
            text.replace(pattern, replacement)
        );
    }
}

#[test]
fn replace_with_an_empty_pattern_changes_nothing() {
    assert_eq!(replace("abc", "", "x"), "abc");
    assert_eq!(replace_chars(&chars("abc"), &Vec::new(), &chars("x")), chars("abc"));
}

#[test]
fn matches_and_containment() {
    assert!(is_match_at(&chars("hello"), &chars("ll"), 2));
    assert!(!is_match_at(&chars("hello"), &chars("ll"), 3));
    assert!(!is_match_at(&chars("hello"), &chars("lo"), 4));
    assert!(!is_match_at(&chars("hello"), &chars("o"), 9));
    assert!(!is_match_at(&chars("hello"), &Vec::new(), 0));
    assert!(has_match(&chars("hello"), &chars("lo")));
    assert!(has_match(&chars("hello"), &Vec::new()));
    assert!(has_match(&Vec::new(), &Vec::new()));
    assert!(!has_match(&chars("hello"), &chars("ol")));
    assert!(!has_match(&Vec::new(), &chars("a")));
}

#[test]
fn prefix_and_joins() {
    assert_eq!(prefix_before("key=value=more", '='), "key");
    assert_eq!(prefix_before("none", '='), "none");
    assert_eq!(concat2("a", "b"), "ab");
    assert_eq!(concat3("a", "", "c"), "ac");
}

#[test]
fn white_space_agrees_with_std() {
    for code in 0..=0x10ffff_u32 {
        if let Some(c) = char::from_u32(code) {
            assert_eq!(is_white_space(c), c.is_whitespace(), "U+{:04X}", code);
        }
    }
}

#[test]
fn white_space_by_name() {
    for c in [' ', '\t', '\n', '\r', '\u{b}', '\u{c}', '\u{85}', '\u{a0}', '\u{3000}'] {
        assert!(is_white_space(c));
    }
    for c in ['a', '0', '_', '\u{8}', '\u{e}', '\u{200b}', '\u{feff}', '🦡'] {
        assert!(!is_white_space(c));
    }
}

#[test]
fn blank_agrees_with_trimming() {
    for text in ["", " ", "   ", " \t\r\n", "\u{a0}\u{2003}", " a ", "a", "  \u{200b} ", "x\n"] {
        assert_eq!(is_blank(text), text.trim().is_empty(), "{:?}", text);
    }
    assert!(is_blank(""));
    assert!(is_blank("   "));
    assert!(!is_blank(" . "));
}
