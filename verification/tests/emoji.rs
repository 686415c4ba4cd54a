use koji::emoji::{
    glyph_table, is_separated, replace_emoji_shortcodes, replace_shortcodes_with, Glyph,
    ReplaceEmoji,
};

#[test]
fn test_replace_emoji_shortcodes() {
    let phrase = "yes sir :pinched_fingers: !";

    assert_eq!(replace_emoji_shortcodes(phrase.to_string()), "yes sir 🤌 !");

    assert_eq!(phrase.replace_emoji_shortcodes(), "yes sir 🤌 !");

    assert_eq!(
        phrase.to_string().replace_emoji_shortcodes(),
        "yes sir 🤌 !"
    );
}

#[test]
fn unknown_shortcodes_pass_through() {
    assert_eq!(
        replace_emoji_shortcodes(":no_such_shortcode_here: stays".to_string()),
        ":no_such_shortcode_here: stays"
    );
    assert_eq!(replace_emoji_shortcodes(String::new()), "");
    assert_eq!(replace_emoji_shortcodes("a:b".to_string()), "a:b");
}

#[test]
fn only_the_first_shortcode_of_an_emoji_is_replaced() {
    assert_eq!(replace_emoji_shortcodes(":laughing:".to_string()), "😆");
    assert_eq!(replace_emoji_shortcodes(":satisfied:".to_string()), ":satisfied:");
}

#[test]
fn several_shortcodes_in_one_text() {
    assert_eq!(
        replace_emoji_shortcodes(":rocket::rocket: to the :badger:".to_string()),
        "🚀🚀 to the 🦡"
    );
}

#[test]
fn substitution_is_idempotent_on_examples() {
    let texts = [
        "yes sir :pinched_fingers: !",
        "::rocket::",
        ":rocket:badger:",
        ":one::100:",
        "plain text",
        ":ro:rocket:cket:",
    ];
    for text in texts {
        let once = replace_emoji_shortcodes(text.to_string());
        let twice = replace_emoji_shortcodes(once.clone());
        assert_eq!(once, twice);
    }
}

#[test]
fn entries_apply_in_table_order() {
    let table = vec![
        Glyph {
            shortcode: Some("b".to_string()),
            glyph: "B".to_string(),
        },
        Glyph {
            shortcode: None,
            glyph: "never".to_string(),
        },
        Glyph {
            shortcode: Some("a".to_string()),
            glyph: "A".to_string(),
        },
    ];
    assert_eq!(replace_shortcodes_with(":a:b:", &table), ":aB");
    assert_eq!(replace_shortcodes_with(":a: :b:", &table), "A B");
    assert_eq!(replace_shortcodes_with(":c:", &table), ":c:");
    assert_eq!(replace_shortcodes_with(":a:", &Vec::new()), ":a:");
}

#[test]
fn glyph_table_is_separated() {
    let table = glyph_table();
    assert!(table.len() > 1000);
    assert!(is_separated(&table));
}

#[test]
fn glyph_table_holds_first_shortcodes_only() {
    let table = glyph_table();
    let with = |code: &str| {
        table
            .iter()
            .filter(|entry| entry.shortcode.as_deref() == Some(code))
            .map(|entry| entry.glyph.clone())
            .collect::<Vec<String>>()
    };
    assert_eq!(with("badger"), ["🦡"]);
    assert_eq!(with("laughing"), ["😆"]);
    assert!(with("satisfied").is_empty());
    assert_eq!(table[0].glyph, "😀");
    assert!(table.iter().any(|entry| entry.shortcode.is_none()));
}

#[test]
fn a_second_pass_with_the_glyph_table_changes_nothing() {
    let table = glyph_table();
    for text in [
        "yes sir :pinched_fingers: !",
        "::rocket::",
        ":rocket:badger:",
        ":one::100:",
        ":+1::-1:",
        ":ro:rocket:cket:",
        "",
    ] {
        let once = replace_shortcodes_with(text, &table);
        assert_eq!(once, replace_emoji_shortcodes(text.to_string()));
        assert_eq!(replace_shortcodes_with(&once, &table), once);
    }
}

fn entry(shortcode: Option<&str>, glyph: &str) -> Glyph {
    Glyph {
        shortcode: shortcode.map(|code| code.to_string()),
        glyph: glyph.to_string(),
    }
}

#[test]
fn separated_tables() {
    assert!(is_separated(&Vec::new()));
    assert!(is_separated(&vec![entry(Some("a"), "A")]));
    assert!(is_separated(&vec![
        entry(Some("one"), "1\u{fe0f}\u{20e3}"),
        entry(Some("100"), "💯"),
        entry(None, ":x:"),
    ]));
}

#[test]
fn tables_that_are_not_separated() {
    // a glyph with a colon
    assert!(!is_separated(&vec![entry(Some("a"), "::a:")]));
    // an empty glyph
    assert!(!is_separated(&vec![entry(Some("a"), "")]));
    // a glyph made of characters of another entry's token
    assert!(!is_separated(&vec![
        entry(Some("ab"), "🦡"),
        entry(Some("c"), "ba"),
    ]));
}

#[test]
fn without_separation_a_second_pass_may_change_the_text() {
    let table = vec![entry(Some("a"), "::a:")];
    let once = replace_shortcodes_with(":a:", &table);
    assert_eq!(once, "::a:");
    let twice = replace_shortcodes_with(&once, &table);
    assert_eq!(twice, ":::a:");
}

#[test]
fn with_separation_a_second_pass_changes_nothing() {
    let table = vec![
        entry(Some("b"), "B"),
        entry(Some("a"), "A"),
        entry(Some("ab"), "X"),
    ];
    assert!(is_separated(&table));
    for text in [":a:b:", ":b:a:", "::a::b::", ":ab:", ":a:ab:", ":ab:a:b:", ":a:a:a:"] {
        let once = replace_shortcodes_with(text, &table);
        assert_eq!(replace_shortcodes_with(&once, &table), once);
    }
}

#[test]
fn glyph_table_is_the_table_of_the_crate() {
    let table = glyph_table();
    let expected: Vec<(Option<String>, String)> = emojis::iter()
        .map(|emoji| {
            (
                emoji.shortcode().map(|code| code.to_string()),
                emoji.as_str().to_string(),
            )
        })
        .collect();
    assert_eq!(table.len(), expected.len());
    for (entry, (shortcode, glyph)) in table.iter().zip(expected.iter()) {
        assert_eq!(&entry.shortcode, shortcode);
        assert_eq!(&entry.glyph, glyph);
    }
    let again = glyph_table();
    assert_eq!(again.len(), table.len());
    for (first, second) in table.iter().zip(again.iter()) {
        assert_eq!(first.shortcode, second.shortcode);
        assert_eq!(first.glyph, second.glyph);
    }
}

#[test]
fn replacing_twice_is_replacing_once() {
    for text in ["yes sir :pinched_fingers: !", "::rocket::", ":one::100:", "", ":a:"] {
        let once = replace_emoji_shortcodes(text.to_string());
        assert_eq!(replace_emoji_shortcodes(once.clone()), once);
        assert_eq!(replace_emoji_shortcodes(text.to_string()), once);
    }
}
