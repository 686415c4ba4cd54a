use koji::commit_types::CommitType;
use koji::form_types::{get_custom_commit_types, get_default_commit_types};
use koji::get_answers::{
    get_amended_body, get_body, get_commit_type, get_has_open_issue, get_is_breaking_change,
    get_issue_reference, get_scope, get_summary, render_commit_type_choice, Answer, AnswerError,
    Field, ListItem,
};

#[test]
fn get_answers_test_render_commit_type_choice() {
    let commit_types = get_default_commit_types();

    let choice =
        render_commit_type_choice(false, commit_types.get("refactor").unwrap(), &commit_types);
    assert_eq!(
        choice,
        "refactor:   A code change that neither fixes a bug nor adds a feature"
    );

    let choice = render_commit_type_choice(false, commit_types.get("ci").unwrap(), &commit_types);
    assert_eq!(
        choice,
        "ci:         Changes to our CI configuration files and scripts"
    );

    let choice =
        render_commit_type_choice(true, commit_types.get("refactor").unwrap(), &commit_types);
    assert_eq!(
        choice,
        "refactor:   🔨 A code change that neither fixes a bug nor adds a feature"
    );

    let choice = render_commit_type_choice(true, commit_types.get("ci").unwrap(), &commit_types);
    assert_eq!(
        choice,
        "ci:         🤖 Changes to our CI configuration files and scripts"
    );
}

#[test]
fn get_answers_test_get_commit_type() {
    let answer = Some(Answer::ListItem(ListItem {
        index: 0,
        text: "docs: Documentation only changes".into(),
    }));

    assert_eq!(get_commit_type(answer.as_ref()).unwrap(), "docs")
}

#[test]
fn get_answers_test_get_scope() {
    let answer = Some(Answer::String("readme".into()));
    assert_eq!(get_scope(answer.as_ref()).unwrap(), Some("readme".into()));

    let answer = Some(Answer::String("".into()));
    assert_eq!(get_scope(answer.as_ref()).unwrap(), None);
}

#[test]
fn get_answers_test_get_summary() {
    let commit_types = get_default_commit_types();

    let answer = Some(Answer::String("needed more badges".into()));
    assert_eq!(
        get_summary(answer.as_ref(), false, "docs", &commit_types).unwrap(),
        "needed more badges"
    );

    let answer = Some(Answer::String("needed more badges".into()));
    assert_eq!(
        get_summary(answer.as_ref(), true, "docs", &commit_types).unwrap(),
        "📚 needed more badges"
    );
}

#[test]
fn get_answers_test_get_body() {
    let answer = Some(Answer::String("i _really_ like badges".into()));
    assert_eq!(
        get_body(answer.as_ref()).unwrap(),
        Some("i _really_ like badges".into())
    );

    let answer = Some(Answer::String("".into()));
    assert_eq!(get_body(answer.as_ref()).unwrap(), None);
}

#[test]
fn get_answers_test_get_is_breaking_change() {
    let answer = Some(Answer::Bool(true));
    assert!(get_is_breaking_change(answer.as_ref()).unwrap(), "{}", true);
}

#[test]
fn get_answers_test_get_has_open_issue() {
    let answer = Some(Answer::Bool(true));
    assert!(get_has_open_issue(answer.as_ref()).unwrap(), "{}", true);
}

#[test]
fn get_answers_test_get_issue_reference() {
    let answer = None;
    assert_eq!(get_issue_reference(answer.as_ref(), false).unwrap(), None);

    let answer = Some(Answer::String("closes #1".into()));
    assert_eq!(
        get_issue_reference(answer.as_ref(), true).unwrap(),
        Some("closes #1".into())
    );
}

#[test]
fn get_answers_test_get_amended_body() {
    let body = Some("i _really_ like badges".to_string());
    let issue_reference = Some("closes #1".to_string());

    assert_eq!(
        get_amended_body(&body, &issue_reference),
        Some("i _really_ like badges\n\ncloses #1".into())
    );

    assert_eq!(
        get_amended_body(&body, &None),
        Some("i _really_ like badges".into())
    );

    assert_eq!(
        get_amended_body(&None, &issue_reference),
        Some("closes #1".into())
    );

    assert_eq!(get_amended_body(&None, &None), None);
}

#[test]
fn main_test_render_commit_type_choice() {
    let commit_types = get_default_commit_types();

    let choice =
        render_commit_type_choice(false, commit_types.get("refactor").unwrap(), &commit_types);
    assert_eq!(
        choice,
        "refactor:   A code change that neither fixes a bug nor adds a feature"
    );

    let choice = render_commit_type_choice(false, commit_types.get("ci").unwrap(), &commit_types);
    assert_eq!(
        choice,
        "ci:         Changes to our CI configuration files and scripts"
    );

    let choice =
        render_commit_type_choice(true, commit_types.get("refactor").unwrap(), &commit_types);
    assert_eq!(
        choice,
        "refactor:   🔨 A code change that neither fixes a bug nor adds a feature"
    );

    let choice = render_commit_type_choice(true, commit_types.get("ci").unwrap(), &commit_types);
    assert_eq!(
        choice,
        "ci:         🤖 Changes to our CI configuration files and scripts"
    );
}

#[test]
fn main_test_get_commit_type() {
    let answer = Some(Answer::ListItem(ListItem {
        index: 0,
        text: "docs: Documentation only changes".into(),
    }));

    assert_eq!(get_commit_type(answer.as_ref()).unwrap(), "docs")
}

#[test]
fn main_test_get_scope() {
    let answer = Some(Answer::String("readme".into()));
    assert_eq!(get_scope(answer.as_ref()).unwrap(), Some("readme".into()));

    let answer = Some(Answer::String("".into()));
    assert_eq!(get_scope(answer.as_ref()).unwrap(), None);
}

#[test]
fn main_test_get_summary() {
    let commit_types = get_default_commit_types();

    let answer = Some(Answer::String("needed more badges".into()));
    assert_eq!(
        get_summary(answer.as_ref(), false, "docs", &commit_types).unwrap(),
        "needed more badges"
    );

    let answer = Some(Answer::String("needed more badges".into()));
    assert_eq!(
        get_summary(answer.as_ref(), true, "docs", &commit_types).unwrap(),
        "📚 needed more badges"
    );
}

#[test]
fn main_test_get_body() {
    let answer = Some(Answer::String("i _really_ like badges".into()));
    assert_eq!(
        get_body(answer.as_ref()).unwrap(),
        Some("i _really_ like badges".into())
    );

    let answer = Some(Answer::String("".into()));
    assert_eq!(get_body(answer.as_ref()).unwrap(), None);
}

#[test]
fn main_test_get_is_breaking_change() {
    let answer = Some(Answer::Bool(true));
    assert!(get_is_breaking_change(answer.as_ref()).unwrap(), "{}", true);
}

#[test]
fn main_test_get_has_open_issue() {
    let answer = Some(Answer::Bool(true));
    assert!(get_has_open_issue(answer.as_ref()).unwrap(), "{}", true);
}

#[test]
fn main_test_get_issue_reference() {
    let answer = None;
    assert_eq!(get_issue_reference(answer.as_ref(), false).unwrap(), None);

    let answer = Some(Answer::String("closes #1".into()));
    assert_eq!(
        get_issue_reference(answer.as_ref(), true).unwrap(),
        Some("closes #1".into())
    );
}

#[test]
fn main_test_get_amended_body() {
    let body = Some("i _really_ like badges".to_string());
    let issue_reference = Some("closes #1".to_string());

    assert_eq!(
        get_amended_body(&body, &issue_reference),
        Some("i _really_ like badges\n\ncloses #1".into())
    );

    assert_eq!(
        get_amended_body(&body, &None),
        Some("i _really_ like badges".into())
    );

    assert_eq!(
        get_amended_body(&None, &issue_reference),
        Some("closes #1".into())
    );

    assert_eq!(get_amended_body(&None, &None), None);
}

#[test]
fn missing_answers_are_errors() {
    assert_eq!(
        get_commit_type(None),
        Err(AnswerError::Missing(Field::CommitType))
    );
    assert_eq!(get_scope(None), Err(AnswerError::Missing(Field::Scope)));
    assert_eq!(get_body(None), Err(AnswerError::Missing(Field::Body)));
    assert_eq!(
        get_is_breaking_change(None),
        Err(AnswerError::Missing(Field::BreakingChange))
    );
    assert_eq!(
        get_has_open_issue(None),
        Err(AnswerError::Missing(Field::OpenIssue))
    );
    assert_eq!(
        get_issue_reference(None, true),
        Err(AnswerError::Missing(Field::IssueReference))
    );
    assert_eq!(
        get_summary(None, false, "docs", &get_default_commit_types()),
        Err(AnswerError::Missing(Field::Summary))
    );
}

#[test]
fn answers_of_the_wrong_kind_are_errors() {
    let text = Answer::String("docs: text".into());
    let flag = Answer::Bool(false);
    let other = Answer::Other;
    assert_eq!(
        get_commit_type(Some(&text)),
        Err(AnswerError::WrongKind(Field::CommitType))
    );
    assert_eq!(
        get_scope(Some(&flag)),
        Err(AnswerError::WrongKind(Field::Scope))
    );
    assert_eq!(
        get_body(Some(&other)),
        Err(AnswerError::WrongKind(Field::Body))
    );
    assert_eq!(
        get_is_breaking_change(Some(&text)),
        Err(AnswerError::WrongKind(Field::BreakingChange))
    );
    assert_eq!(
        get_has_open_issue(Some(&other)),
        Err(AnswerError::WrongKind(Field::OpenIssue))
    );
    assert_eq!(
        get_issue_reference(Some(&flag), true),
        Err(AnswerError::WrongKind(Field::IssueReference))
    );
    assert_eq!(get_issue_reference(Some(&flag), false), Ok(None));
    assert_eq!(
        get_summary(Some(&flag), true, "docs", &get_default_commit_types()),
        Err(AnswerError::WrongKind(Field::Summary))
    );
}

#[test]
fn summary_of_unknown_commit_type_is_an_error() {
    let answer = Answer::String("needed more badges".into());
    assert_eq!(
        get_summary(Some(&answer), true, "wip", &get_default_commit_types()),
        Err(AnswerError::UnknownCommitType)
    );
}

#[test]
fn summary_keeps_shortcodes() {
    let answer = Answer::String("needed more badges :badger:".into());
    assert_eq!(
        get_summary(Some(&answer), false, "docs", &get_default_commit_types()).unwrap(),
        "needed more badges :badger:"
    );
}

#[test]
fn commit_type_without_colon_is_the_whole_text() {
    let answer = Answer::ListItem(ListItem {
        index: 3,
        text: "docs".into(),
    });
    assert_eq!(get_commit_type(Some(&answer)).unwrap(), "docs");
    let answer = Answer::ListItem(ListItem {
        index: 3,
        text: ":docs".into(),
    });
    assert_eq!(get_commit_type(Some(&answer)).unwrap(), "");
}

#[test]
fn errors_in_words() {
    assert_eq!(
        AnswerError::Missing(Field::CommitType).message(),
        "could not get commit type"
    );
    assert_eq!(
        AnswerError::WrongKind(Field::CommitType).message(),
        "could not convert commit type to list item"
    );
    assert_eq!(
        AnswerError::Missing(Field::IssueReference).message(),
        "could not get issue reference"
    );
    assert_eq!(
        AnswerError::WrongKind(Field::OpenIssue).message(),
        "could not convert open issue to bool"
    );
    assert_eq!(
        AnswerError::WrongKind(Field::Scope).message(),
        "could not convert scope to string"
    );
}

#[test]
fn amended_body_of_the_form_joins_what_it_is_given() {
    let empty = Some(String::new());
    let issue_reference = Some("closes #1".to_string());
    assert_eq!(
        get_amended_body(&empty, &issue_reference),
        Some("\n\ncloses #1".into())
    );
    assert_eq!(get_amended_body(&empty, &None), Some(String::new()));
    assert_eq!(
        get_amended_body(&get_body(Some(&Answer::String("".into()))).unwrap(), &issue_reference),
        Some("closes #1".into())
    );
}

#[test]
fn form_commit_types_keep_the_order() {
    let commit_types = get_default_commit_types();
    let names: Vec<&str> = commit_types.keys().map(|k| k.as_str()).collect();
    assert_eq!(
        names,
        ["feat", "fix", "docs", "style", "refactor", "perf", "test", "build", "ci", "chore", "revert"]
    );
    assert_eq!(
        commit_types.get("feat"),
        Some(&CommitType {
            name: "feat".into(),
            emoji: Some("✨".into()),
            description: "A new feature".into()
        })
    );
}

#[test]
fn form_commit_type_declared_twice_moves_to_the_end() {
    let plain = |name: &str, description: &str| CommitType {
        name: name.into(),
        emoji: None,
        description: description.into(),
    };
    let declared = vec![
        plain("a", "first"),
        plain("b", "second"),
        plain("a", "third"),
    ];
    let commit_types = get_custom_commit_types(&declared);
    let names: Vec<&str> = commit_types.keys().map(|k| k.as_str()).collect();
    assert_eq!(names, ["b", "a"]);
    assert_eq!(commit_types.get("a"), Some(&plain("a", "third")));
    assert_eq!(commit_types.len(), 2);
    assert!(get_custom_commit_types(&Vec::new()).is_empty());
    assert_eq!(
        render_commit_type_choice(false, &plain("a", "third"), &commit_types),
        "a:   third"
    );
    assert_eq!(
        render_commit_type_choice(false, &plain("abc", "x"), &get_custom_commit_types(&Vec::new())),
        "abc:   x"
    );
}
