use indexmap::IndexMap;
use koji::commit_types::CommitType;
use koji::config::Config;
use koji::questions::{
    commit_type_choices, format_commit_type_choice, get_skip_hint, multiline_help_message, next_question,
    previous_summary, scope_help_message, suggestions_among, transform_commit_type_choice,
    validate_issue_reference, validate_summary, Answers, Flow, Question, Reply,
    ScopeAutocompleter, Session, Validation,
};
use std::path::PathBuf;

fn default_config() -> Config {
    Config::new(None, Some(PathBuf::from(".")), vec![]).unwrap()
}

#[test]
fn test_transform_commit_type_choice() {
    let transformed = transform_commit_type_choice(
        "feat:       A code change that neither fixes a bug nor adds a feature",
    );

    assert_eq!(transformed, "feat");
}

#[test]
fn transform_choice_without_colon() {
    assert_eq!(transform_commit_type_choice("feat"), "feat");
    assert_eq!(transform_commit_type_choice(""), "");
    assert_eq!(transform_commit_type_choice(":x"), "");
    assert_eq!(transform_commit_type_choice("a:b:c"), "a");
}

#[test]
fn test_format_commit_type_choice() {
    let config = default_config();
    let commit_types = config.commit_types;

    let choice = format_commit_type_choice(false, commit_types.get("ci").unwrap(), &commit_types);

    assert_eq!(
        choice,
        "ci:         Changes to our CI configuration files and scripts"
    );
}

#[test]
fn test_format_commit_type_choice_emoji() {
    let commit_type = CommitType {
        name: "123".into(),
        emoji: None,
        description: "Test".into(),
    };

    let mut commit_types = IndexMap::new();
    commit_types.insert("123".to_string(), commit_type.clone());

    let choice = format_commit_type_choice(true, &commit_type, &commit_types);

    assert_eq!(choice, "123:   Test");
}

#[test]
fn test_render_commit_type_choice_with_emoji() {
    let config = default_config();
    let commit_types = config.commit_types;

    let choice = format_commit_type_choice(true, commit_types.get("ci").unwrap(), &commit_types);

    assert_eq!(
        choice,
        "ci:         🤖 Changes to our CI configuration files and scripts"
    );
}

#[test]
fn format_choice_of_the_longest_name() {
    let config = default_config();
    let commit_types = config.commit_types;
    assert_eq!(
        format_commit_type_choice(true, commit_types.get("refactor").unwrap(), &commit_types),
        "refactor:   🔨 A code change that neither fixes a bug nor adds a feature"
    );
    assert_eq!(
        format_commit_type_choice(false, commit_types.get("refactor").unwrap(), &commit_types),
        "refactor:   A code change that neither fixes a bug nor adds a feature"
    );
}

#[test]
fn format_choice_with_a_long_emoji_text() {
    let commit_type = CommitType {
        name: "ab".into(),
        emoji: Some("123456".into()),
        description: "Test".into(),
    };
    let mut commit_types = IndexMap::new();
    commit_types.insert("ab".to_string(), commit_type.clone());
    assert_eq!(
        format_commit_type_choice(true, &commit_type, &commit_types),
        "ab:123456 Test"
    );
    assert_eq!(
        format_commit_type_choice(false, &commit_type, &commit_types),
        "ab:   Test"
    );
}

#[test]
fn format_choice_outside_the_registry() {
    let commit_type = CommitType {
        name: "longer".into(),
        emoji: None,
        description: "Test".into(),
    };
    let commit_types: IndexMap<String, CommitType> = IndexMap::new();
    assert_eq!(
        format_commit_type_choice(false, &commit_type, &commit_types),
        "longer:   Test"
    );
}

#[test]
fn test_validate_summary() {
    let validated = validate_summary("needed more badges :badger:");

    assert!(validated.eq(&Validation::Valid));

    let validated = validate_summary("");

    assert!(validated.eq(&Validation::Invalid("A summary is required".into())));
}

#[test]
fn test_validate_issue_reference() {
    let validated = validate_issue_reference("closes #123");

    assert!(validated.eq(&Validation::Valid));

    let validated = validate_issue_reference("");

    assert!(validated.eq(&Validation::Invalid(
        "An issue reference is required".into()
    )));
}

#[test]
fn blank_texts_are_invalid() {
    assert_eq!(
        validate_summary("  \t\n "),
        Validation::Invalid("A summary is required".into())
    );
    assert_eq!(
        validate_issue_reference(" \u{a0} "),
        Validation::Invalid("An issue reference is required".into())
    );
    assert_eq!(validate_summary("  x "), Validation::Valid);
    assert_eq!(
        validate_summary("   "),
        Validation::Invalid("A summary is required".into())
    );
    assert_eq!(
        validate_issue_reference("   "),
        Validation::Invalid("An issue reference is required".into())
    );
    assert_eq!(validate_issue_reference(" #1"), Validation::Valid);
}

#[test]
fn help_messages() {
    assert_eq!(get_skip_hint(), "<esc> or <return> to skip");
    assert_eq!(
        scope_help_message(true, true),
        "↑↓ to move, tab to autocomplete, enter to submit, <esc> or <return> to skip"
    );
    assert_eq!(scope_help_message(true, false), "<esc> or <return> to skip");
    assert_eq!(scope_help_message(false, true), "<esc> or <return> to skip");
    assert_eq!(
        multiline_help_message(),
        "Use '\\n' for newlines, <esc> or <return> to skip"
    );
}

fn flow(
    breaking_changes: bool,
    issues: bool,
    is_breaking_change: bool,
    has_open_issue: bool,
) -> Flow {
    Flow {
        breaking_changes,
        issues,
        is_breaking_change,
        has_open_issue,
    }
}

#[test]
fn questions_come_in_strict_order() {
    let all = flow(true, true, true, true);
    let mut asked = None;
    let mut order = Vec::new();
    while let Some(question) = next_question(asked, &all) {
        order.push(question);
        asked = Some(question);
    }
    assert_eq!(
        order,
        [
            Question::CommitType,
            Question::Scope,
            Question::Summary,
            Question::Body,
            Question::Breaking,
            Question::BreakingText,
            Question::Issues,
            Question::IssueText
        ]
    );
}

#[test]
fn follow_up_questions_need_a_yes() {
    assert_eq!(
        next_question(Some(Question::Breaking), &flow(true, true, false, false)),
        Some(Question::Issues)
    );
    assert_eq!(
        next_question(Some(Question::Breaking), &flow(true, true, true, false)),
        Some(Question::BreakingText)
    );
    assert_eq!(
        next_question(Some(Question::Issues), &flow(true, true, false, false)),
        None
    );
    assert_eq!(
        next_question(Some(Question::Issues), &flow(true, true, false, true)),
        Some(Question::IssueText)
    );
    assert_eq!(
        next_question(Some(Question::IssueText), &flow(true, true, true, true)),
        None
    );
}

#[test]
fn disabled_questions_are_not_asked() {
    assert_eq!(
        next_question(Some(Question::Body), &flow(false, true, true, true)),
        Some(Question::Issues)
    );
    assert_eq!(
        next_question(Some(Question::Body), &flow(false, false, true, true)),
        None
    );
    assert_eq!(
        next_question(Some(Question::Body), &flow(true, false, false, true)),
        Some(Question::Breaking)
    );
    assert_eq!(
        next_question(Some(Question::BreakingText), &flow(true, false, true, true)),
        None
    );
    assert_eq!(
        next_question(None, &flow(false, false, false, false)),
        Some(Question::CommitType)
    );
}

#[test]
fn a_whole_session() {
    let mut session = Session::new(true, true);
    let replies = [
        Reply::Text("feat:       ✨ A new feature".into()),
        Reply::Text("config".into()),
        Reply::Text("refactor config pairs".into()),
        Reply::Text("Removed and added a config pair each\\nNecessary for future compatibility.".into()),
        Reply::Confirm(true),
        Reply::Text("Something can't be configured anymore".into()),
        Reply::Confirm(true),
        Reply::Text("closes #1".into()),
    ];
    let mut asked = Vec::new();
    for reply in replies {
        asked.push(session.next().unwrap());
        assert!(session.record(reply));
    }
    assert_eq!(session.next(), None);
    assert!(!session.record(Reply::Skipped));
    assert_eq!(
        asked,
        [
            Question::CommitType,
            Question::Scope,
            Question::Summary,
            Question::Body,
            Question::Breaking,
            Question::BreakingText,
            Question::Issues,
            Question::IssueText
        ]
    );
    assert_eq!(
        session.into_answers(),
        Answers {
            commit_type: "feat".into(),
            scope: Some("config".into()),
            summary: "refactor config pairs".into(),
            body: Some(
                "Removed and added a config pair each\nNecessary for future compatibility.".into()
            ),
            issue_footer: Some("closes #1".into()),
            is_breaking_change: true,
            breaking_change_footer: Some("Something can't be configured anymore".into()),
        }
    );
}

#[test]
fn a_short_session() {
    let mut session = Session::new(true, true);
    assert_eq!(session.next(), Some(Question::CommitType));
    assert!(session.record(Reply::Text("fix: A bug fix".into())));
    assert_eq!(session.next(), Some(Question::Scope));
    assert!(session.record(Reply::Skipped));
    assert_eq!(session.next(), Some(Question::Summary));
    assert!(session.record(Reply::Text("some weird error".into())));
    assert_eq!(session.next(), Some(Question::Body));
    assert!(session.record(Reply::Text(String::new())));
    assert_eq!(session.next(), Some(Question::Breaking));
    assert!(session.record(Reply::Confirm(false)));
    assert_eq!(session.next(), Some(Question::Issues));
    assert!(session.record(Reply::Confirm(false)));
    assert_eq!(session.next(), None);
    assert_eq!(
        session.into_answers(),
        Answers {
            commit_type: "fix".into(),
            scope: None,
            summary: "some weird error".into(),
            body: None,
            issue_footer: None,
            is_breaking_change: false,
            breaking_change_footer: None,
        }
    );
}

#[test]
fn a_session_without_optional_questions() {
    let mut session = Session::new(false, false);
    assert!(session.record(Reply::Text("chore: Other changes".into())));
    assert!(session.record(Reply::Text("".into())));
    assert!(session.record(Reply::Text("new eslint config".into())));
    assert_eq!(session.asked(), Some(Question::Summary));
    assert!(session.record(Reply::Skipped));
    assert_eq!(session.next(), None);
    assert!(!session.record(Reply::Confirm(true)));
    assert!(!session.has_open_issue());
    assert_eq!(session.answers().commit_type, "chore");
    assert!(!session.into_answers().is_breaking_change);
}

#[test]
fn a_reply_of_the_wrong_kind_is_refused() {
    let mut session = Session::new(true, true);
    assert!(!session.record(Reply::Confirm(true)));
    assert!(!session.record(Reply::Skipped));
    assert_eq!(session.asked(), None);
    assert_eq!(session.next(), Some(Question::CommitType));
    assert_eq!(session.answers().commit_type, "");
    assert!(session.record(Reply::Text("feat".into())));
    assert!(!session.record(Reply::Confirm(true)));
    assert!(session.record(Reply::Skipped));
    assert!(!session.record(Reply::Skipped));
    assert!(!session.record(Reply::Confirm(false)));
    assert!(session.record(Reply::Text("summary".into())));
    assert!(!session.record(Reply::Confirm(false)));
    assert!(session.record(Reply::Skipped));
    assert!(!session.record(Reply::Text("yes".into())));
    assert!(!session.record(Reply::Skipped));
    assert_eq!(session.asked(), Some(Question::Body));
    assert!(!session.answers().is_breaking_change);
    assert!(session.record(Reply::Confirm(false)));
    assert!(!session.record(Reply::Text("yes".into())));
    assert!(session.record(Reply::Confirm(true)));
    assert!(session.has_open_issue());
    assert!(!session.record(Reply::Skipped));
    assert!(!session.record(Reply::Confirm(true)));
    assert!(session.record(Reply::Text("closes #1".into())));
    assert_eq!(session.next(), None);
}

#[test]
fn breaking_text_may_be_skipped() {
    let mut session = Session::new(true, false);
    assert!(session.record(Reply::Text("docs: Documentation only changes".into())));
    assert!(session.record(Reply::Text("cargo".into())));
    assert!(session.record(Reply::Text("rename project".into())));
    assert!(session.record(Reply::Text("Renamed the project to a new name.".into())));
    assert!(session.record(Reply::Confirm(true)));
    assert_eq!(session.next(), Some(Question::BreakingText));
    assert!(session.record(Reply::Skipped));
    assert_eq!(session.next(), None);
    assert!(session.answers().is_breaking_change);
    assert_eq!(session.answers().breaking_change_footer, None);
}

#[test]
fn previous_summary_of_a_message() {
    assert_eq!(
        previous_summary("docs(readme): initial draft"),
        "initial draft"
    );
    assert_eq!(previous_summary("fix: some weird error"), "some weird error");
    assert_eq!(previous_summary("abc"), "");
    assert_eq!(previous_summary(""), "");
}

#[test]
fn existing_scopes_of_a_history() {
    let completer = ScopeAutocompleter {
        summaries: vec![
            "feat(config)!: refactor config pairs".into(),
            "not a conventional commit".into(),
            "docs(readme): initial draft".into(),
            "fix: no scope".into(),
            "fix(config): once more".into(),
            "chore(deps): bump".into(),
        ],
    };
    assert_eq!(
        completer.get_existing_scopes(),
        ["config", "readme", "deps"]
    );
    assert_eq!(completer.get_suggestions("e"), ["readme", "deps"]);
    assert_eq!(completer.get_suggestions(""), ["config", "readme", "deps"]);
    assert_eq!(completer.get_suggestions("conf"), ["config"]);
    assert!(completer.get_suggestions("x").is_empty());
    assert_eq!(
        completer.get_completion("re", Some("readme".into())),
        Some("readme".into())
    );
    assert_eq!(completer.get_completion("re", None), None);
}

#[test]
fn existing_scopes_of_an_empty_history() {
    let completer = ScopeAutocompleter {
        summaries: Vec::new(),
    };
    assert!(completer.get_existing_scopes().is_empty());
    assert!(completer.get_suggestions("").is_empty());
}

#[test]
fn suggestions_keep_the_order() {
    let scopes: Vec<String> = vec!["api".into(), "cli".into(), "capi".into()];
    assert_eq!(suggestions_among(&scopes, "pi"), ["api", "capi"]);
    assert_eq!(suggestions_among(&scopes, "cli"), ["cli"]);
    assert_eq!(suggestions_among(&scopes, "clii"), Vec::<String>::new());
}

#[test]
fn choices_of_the_default_registry() {
    let config = default_config();
    let choices = commit_type_choices(true, &config.commit_types);
    assert_eq!(choices.len(), 11);
    assert_eq!(choices[0], "feat:       ✨ A new feature");
    assert_eq!(choices[1], "fix:        🐛 A bug fix");
    assert_eq!(
        choices[8],
        "ci:         🤖 Changes to our CI configuration files and scripts"
    );
    let plain = commit_type_choices(false, &config.commit_types);
    assert_eq!(plain[0], "feat:       A new feature");
    for (choice, name) in plain.iter().zip(config.commit_types.keys()) {
        assert_eq!(&transform_commit_type_choice(choice), name);
    }
    assert!(commit_type_choices(true, &IndexMap::new()).is_empty());
}
