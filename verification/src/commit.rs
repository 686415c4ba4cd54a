//! The final commit message: its text, and whether the conventional-commit
//! parser accepts that text.

use crate::commit_types::opt_view;
use crate::text::{before_first, chars_of, string_of};
use vstd::prelude::*;

verus! {

#[verifier::external_type_specification]
#[verifier::external_body]
pub struct ExAnyhowError(anyhow::Error);

/// Whether `conventional_commit_parser::parse` accepts a message as a
/// conventional commit.
pub uninterp spec fn accepted_by_parser(message: Seq<char>) -> bool;

/// The lower-case form of an ASCII capital; any other character itself.
pub open spec fn ascii_lower(c: char) -> char {
    if 'A' <= c && c <= 'Z' {
        ((c as u32) + 32) as char
    } else {
        c
    }
}

/// The text with its ASCII capitals in lower case.
pub open spec fn lowercased(text: Seq<char>) -> Seq<char> {
    Seq::new(text.len(), |i: int| ascii_lower(text[i]))
}

/// The text of a conventional commit: `type(scope)!: summary`, then a blank
/// line and the body. The type stands in lower case, the scope and its
/// brackets only where there is a scope, the mark `!` only for a breaking
/// change, the blank line only before a body.
pub open spec fn conventional_message(
    commit_type: Seq<char>,
    scope: Option<Seq<char>>,
    summary: Seq<char>,
    body: Option<Seq<char>>,
    is_breaking_change: bool,
) -> Seq<char> {
    lowercased(commit_type) + (match scope {
        Some(s) => "("@ + s + ")"@,
        None => Seq::empty(),
    }) + (if is_breaking_change {
        "!"@
    } else {
        Seq::empty()
    }) + ": "@ + summary + (match body {
        Some(b) => "\n\n"@ + b,
        None => Seq::empty(),
    })
}

/// Why no commit message was produced.
#[derive(Debug, PartialEq, Eq, Structural)]
pub enum CommitError {
    /// The text is no conventional commit: the parser refused it.
    NotConventional,
}

/// `CocoGitto::get_conventional_message` of the `cocogitto` crate, called
/// without footers. It writes the message as `conventional_message` says
/// and hands it to `conventional_commit_parser::parse`; it returns the
/// message where the parser accepts it and the parser's error where not.
#[verifier::external_body]
fn checked_message(
    commit_type: &str,
    scope: Option<String>,
    summary: String,
    body: Option<String>,
    is_breaking_change: bool,
) -> (checked: Result<String, anyhow::Error>)
    ensures
        checked is Ok <==> accepted_by_parser(
            conventional_message(
                commit_type@,
                opt_view(scope),
                summary@,
                opt_view(body),
                is_breaking_change,
            ),
        ),
        checked is Ok ==> checked->Ok_0@ == conventional_message(
            commit_type@,
            opt_view(scope),
            summary@,
            opt_view(body),
            is_breaking_change,
        ),
{
    cocogitto::CocoGitto::get_conventional_message(
        commit_type,
        scope,
        summary,
        body,
        None,
        is_breaking_change,
    )
}

/// `conventional_commit_parser::parse`: tells whether the message is
/// accepted.
#[verifier::external_body]
fn parses(message: &str) -> (accepted: bool)
    ensures
        accepted == accepted_by_parser(message@),
{
    conventional_commit_parser::parse(message).is_ok()
}

/// Turns the parser's verdict into the library's result: the message where
/// it was accepted, `NotConventional` where it was refused.
pub fn message_or_error(checked: Result<String, anyhow::Error>) -> (result: Result<
    String,
    CommitError,
>)
    ensures
        match checked {
            Ok(message) => result == Ok::<String, CommitError>(message),
            Err(_) => result == Err::<String, CommitError>(CommitError::NotConventional),
        },
{
    match checked {
        Ok(message) => Ok(message),
        Err(_) => Err(CommitError::NotConventional),
    }
}

/// Generates the commit message. The result is the text that
/// `conventional_message` gives for the parts, if the parser accepts that
/// text as a conventional commit, and `NotConventional` if it does not.
pub fn generate_commit_msg(
    commit_type: String,
    scope: Option<String>,
    summary: String,
    body: Option<String>,
    is_breaking_change: bool,
) -> (result: Result<String, CommitError>)
    ensures
        match result {
            Ok(message) => message@ == conventional_message(
                commit_type@,
                opt_view(scope),
                summary@,
                opt_view(body),
                is_breaking_change,
            ) && accepted_by_parser(message@),
            Err(error) => error == CommitError::NotConventional && !accepted_by_parser(
                conventional_message(
                    commit_type@,
                    opt_view(scope),
                    summary@,
                    opt_view(body),
                    is_breaking_change,
                ),
            ),
        },
{
    let checked = checked_message(commit_type.as_str(), scope, summary, body, is_breaking_change);
    message_or_error(checked)
}

/// The first line of a text, without its line ending: the part before the
/// first line feed, less a carriage return that stands directly before that
/// line feed. A text without a line feed is its own first line.
pub open spec fn first_line_of(contents: Seq<char>) -> Seq<char> {
    let line = before_first(contents, '\n');
    if line.len() < contents.len() && line.len() > 0 && line.last() == '\r' {
        line.drop_last()
    } else {
        line
    }
}

/// The message that is already there when the tool starts: the first line
/// of the contents of the commit-message file.
pub fn first_line(contents: &str) -> (line: String)
    ensures
        line@ == first_line_of(contents@),
{
    let line = crate::text::prefix_before(contents, '\n');
    let mut chars = chars_of(line.as_str());
    let total = contents.unicode_len();
    if chars.len() < total && chars.len() > 0 && chars[chars.len() - 1] == '\r' {
        chars.pop();
        assert(chars@ =~= before_first(contents@, '\n').drop_last());
    }
    string_of(&chars)
}

/// Tells whether a run as a hook has nothing to ask: the message that is
/// already there is a conventional commit. Outside a hook run the answer is
/// no, whatever the message.
pub fn already_conventional(hook: bool, message: &str) -> (skip: bool)
    ensures
        skip == (hook && accepted_by_parser(message@)),
{
    hook && parses(message)
}

} // verus!
