use koji::answers::assemble;
use koji::commit::{already_conventional, first_line};
use koji::commit_types::CommitType;
use koji::config::{Config, ConfigArgs, ConfigDocument, ConfigSource};
use koji::questions::{Reply, Session};
use koji::status::{check_staging, staging_action, StagingAction};
use std::path::PathBuf;

fn config_with(sources: Vec<ConfigSource>) -> Config {
    Config::new(
        Some(ConfigArgs {
            autocomplete: Some(true),
            ..ConfigArgs::default()
        }),
        Some(PathBuf::from(".")),
        sources,
    )
    .unwrap()
}

fn run_session(config: &Config, replies: Vec<Reply>) -> String {
    let mut session = Session::new(config.breaking_changes, config.issues);
    for reply in replies {
        assert!(session.next().is_some());
        assert!(session.record(reply));
    }
    assert_eq!(session.next(), None);
    assemble(session.into_answers(), config).unwrap()
}

#[test]
fn test_everything_correct() {
    let config = config_with(vec![]);
    let message = run_session(
        &config,
        vec![
            Reply::Text("feat:       A new feature".into()),
            Reply::Text("config".into()),
            Reply::Text("refactor config pairs".into()),
            Reply::Text(
                "Removed and added a config pair each\\nNecessary for future compatibility."
                    .into(),
            ),
            Reply::Confirm(true),
            Reply::Text("Something can't be configured anymore".into()),
            Reply::Confirm(true),
            Reply::Text("closes #1".into()),
        ],
    );
    assert_eq!(first_line(&message), "feat(config)!: refactor config pairs");
    assert_eq!(
        message,
        "feat(config)!: refactor config pairs\n\nRemoved and added a config pair each\nNecessary for future compatibility.\n\ncloses #1\nBREAKING CHANGE: Something can't be configured anymore"
    );
}

#[test]
fn test_hook_correct() {
    assert!(!already_conventional(true, first_line("abc").as_str()));
    let config = config_with(vec![]);
    let message = run_session(
        &config,
        vec![
            Reply::Text("fix:        A bug fix".into()),
            Reply::Text("".into()),
            Reply::Text("some weird error".into()),
            Reply::Text("".into()),
            Reply::Confirm(false),
            Reply::Confirm(false),
        ],
    );
    assert_eq!(message, "fix: some weird error");
    assert!(already_conventional(true, &message));
}

#[test]
fn test_stdout_correct() {
    let config = config_with(vec![]);
    let message = run_session(
        &config,
        vec![
            Reply::Text("fix:        A bug fix".into()),
            Reply::Skipped,
            Reply::Text("some weird error".into()),
            Reply::Skipped,
            Reply::Confirm(false),
            Reply::Confirm(false),
        ],
    );
    assert_eq!(message, "fix: some weird error");
}

#[test]
fn test_empty_breaking_text_correct() {
    let config = config_with(vec![]);
    let message = run_session(
        &config,
        vec![
            Reply::Text("docs:       Documentation only changes".into()),
            Reply::Text("cargo".into()),
            Reply::Text("rename project".into()),
            Reply::Text("Renamed the project to a new name.".into()),
            Reply::Confirm(true),
            Reply::Skipped,
            Reply::Confirm(false),
        ],
    );
    assert_eq!(first_line(&message), "docs(cargo)!: rename project");
    assert_eq!(
        message,
        "docs(cargo)!: rename project\n\nRenamed the project to a new name."
    );
}

#[test]
fn test_empty_repository_error() {
    let status = check_staging(Ok(0), Ok(0)).unwrap();
    assert_eq!(staging_action(&status, false, false), StagingAction::Abort);
}

#[test]
fn test_xdg_config_on_macos() {
    let document = ConfigDocument {
        autocomplete: None,
        breaking_changes: None,
        commit_types: vec![CommitType {
            name: "wip".into(),
            emoji: None,
            description: "Work in progress".into(),
        }],
        emoji: None,
        issues: None,
        sign: None,
    };
    let config = config_with(vec![ConfigSource::Document(document)]);
    let message = run_session(
        &config,
        vec![
            Reply::Text("wip:   Work in progress".into()),
            Reply::Text("".into()),
            Reply::Text("some weird error".into()),
            Reply::Text("".into()),
            Reply::Confirm(false),
            Reply::Confirm(false),
        ],
    );
    assert_eq!(message, "wip: some weird error");
}
