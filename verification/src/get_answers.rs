//! Reading the answers of a question form: each answer is looked up by the
//! caller and handed over as it was found, of whatever kind it is.

use crate::commit_types::{lookup, opt_view, CommitType, Entry};
use crate::form_types::{key_views, keys_of, linked_entries, linked_get, linked_keys};
use crate::questions::{choice_line, format_choice, longest_key};
use crate::text::{before_first, concat3, prefix_before};
use linked_hash_map::LinkedHashMap;
use vstd::prelude::*;
use vstd::string::*;

verus! {

/// One choice of a menu as it was shown.
#[derive(Debug, Clone, PartialEq, Eq)]
pub struct ListItem {
    pub index: usize,
    pub text: String,
}

/// An answer of the form.
#[derive(Debug, Clone, PartialEq, Eq)]
pub enum Answer {
    /// A typed text.
    String(String),
    /// The choice made in a menu.
    ListItem(ListItem),
    /// A yes or no.
    Bool(bool),
    /// An answer of a kind that no question of this tool gives.
    Other,
}

/// The answers that the form is read for.
#[derive(Debug, Clone, Copy, PartialEq, Eq, Structural)]
pub enum Field {
    CommitType,
    Scope,
    Summary,
    Body,
    BreakingChange,
    OpenIssue,
    IssueReference,
}

/// Why an answer could not be read.
#[derive(Debug, Clone, Copy, PartialEq, Eq, Structural)]
pub enum AnswerError {
    /// The form holds no answer to the question.
    Missing(Field),
    /// The answer is not of the kind that the question gives.
    WrongKind(Field),
    /// The registry holds no commit type of the answered name.
    UnknownCommitType,
}

impl AnswerError {
    /// The error in words.
    pub fn message(&self) -> (text: String)
        ensures
            text@ == match *self {
                AnswerError::Missing(Field::CommitType) => "could not get commit type"@,
                AnswerError::Missing(Field::Scope) => "could not get scope"@,
                AnswerError::Missing(Field::Summary) => "could not get summary"@,
                AnswerError::Missing(Field::Body) => "could not get body"@,
                AnswerError::Missing(Field::BreakingChange) => "could not get breaking change"@,
                AnswerError::Missing(Field::OpenIssue) => "could not get open issue"@,
                AnswerError::Missing(Field::IssueReference) => "could not get issue reference"@,
                AnswerError::WrongKind(
                    Field::CommitType,
                ) => "could not convert commit type to list item"@,
                AnswerError::WrongKind(Field::Scope) => "could not convert scope to string"@,
                AnswerError::WrongKind(Field::Summary) => "could not convert summary to string"@,
                AnswerError::WrongKind(Field::Body) => "could not convert body to string"@,
                AnswerError::WrongKind(
                    Field::BreakingChange,
                ) => "could not convert breaking change to bool"@,
                AnswerError::WrongKind(
                    Field::OpenIssue,
                ) => "could not convert open issue to bool"@,
                AnswerError::WrongKind(
                    Field::IssueReference,
                ) => "could not convert issue reference to string"@,
                AnswerError::UnknownCommitType => "could not find commit type"@,
            },
    {
        let text = match self {
            AnswerError::Missing(Field::CommitType) => "could not get commit type",
            AnswerError::Missing(Field::Scope) => "could not get scope",
            AnswerError::Missing(Field::Summary) => "could not get summary",
            AnswerError::Missing(Field::Body) => "could not get body",
            AnswerError::Missing(Field::BreakingChange) => "could not get breaking change",
            AnswerError::Missing(Field::OpenIssue) => "could not get open issue",
            AnswerError::Missing(Field::IssueReference) => "could not get issue reference",
            AnswerError::WrongKind(Field::CommitType) => "could not convert commit type to list item",
            AnswerError::WrongKind(Field::Scope) => "could not convert scope to string",
            AnswerError::WrongKind(Field::Summary) => "could not convert summary to string",
            AnswerError::WrongKind(Field::Body) => "could not convert body to string",
            AnswerError::WrongKind(Field::BreakingChange) => "could not convert breaking change to bool",
            AnswerError::WrongKind(Field::OpenIssue) => "could not convert open issue to bool",
            AnswerError::WrongKind(Field::IssueReference) => "could not convert issue reference to string",
            AnswerError::UnknownCommitType => "could not find commit type",
        };
        String::from_str(text)
    }
}

/// The text of an answer that must be a typed text.
pub open spec fn text_of(answer: Option<&Answer>, field: Field) -> Result<Seq<char>, AnswerError> {
    match answer {
        None => Err(AnswerError::Missing(field)),
        Some(Answer::String(text)) => Ok(text@),
        Some(_) => Err(AnswerError::WrongKind(field)),
    }
}

/// The yes or no of an answer that must be one.
pub open spec fn flag_of(answer: Option<&Answer>, field: Field) -> Result<bool, AnswerError> {
    match answer {
        None => Err(AnswerError::Missing(field)),
        Some(Answer::Bool(flag)) => Ok(*flag),
        Some(_) => Err(AnswerError::WrongKind(field)),
    }
}

/// A text, or nothing where the text is empty.
pub open spec fn non_empty(text: Seq<char>) -> Option<Seq<char>> {
    if text.len() == 0 {
        None
    } else {
        Some(text)
    }
}

/// The view of a result that holds a text.
pub open spec fn text_result(result: Result<String, AnswerError>) -> Result<Seq<char>, AnswerError> {
    match result {
        Ok(text) => Ok(text@),
        Err(error) => Err(error),
    }
}

/// The view of a result that holds an optional text.
pub open spec fn optional_result(result: Result<Option<String>, AnswerError>) -> Result<
    Option<Seq<char>>,
    AnswerError,
> {
    match result {
        Ok(text) => Ok(opt_view(text)),
        Err(error) => Err(error),
    }
}

fn string_answer<'a>(answer: Option<&'a Answer>, field: Field) -> (result: Result<
    &'a String,
    AnswerError,
>)
    ensures
        match result {
            Ok(text) => text_of(answer, field) == Ok::<Seq<char>, AnswerError>(text@),
            Err(error) => text_of(answer, field) == Err::<Seq<char>, AnswerError>(error),
        },
{
    match answer {
        None => Err(AnswerError::Missing(field)),
        Some(Answer::String(text)) => Ok(text),
        Some(_) => Err(AnswerError::WrongKind(field)),
    }
}

fn optional_answer(answer: Option<&Answer>, field: Field) -> (result: Result<
    Option<String>,
    AnswerError,
>)
    ensures
        optional_result(result) == match text_of(answer, field) {
            Ok(text) => Ok(non_empty(text)),
            Err(error) => Err(error),
        },
{
    match string_answer(answer, field) {
        Ok(text) => {
            if text.as_str().unicode_len() == 0 {
                Ok(None)
            } else {
                Ok(Some(text.clone()))
            }
        },
        Err(error) => Err(error),
    }
}

fn flag_answer(answer: Option<&Answer>, field: Field) -> (result: Result<bool, AnswerError>)
    ensures
        result == flag_of(answer, field),
{
    match answer {
        None => Err(AnswerError::Missing(field)),
        Some(Answer::Bool(flag)) => Ok(*flag),
        Some(_) => Err(AnswerError::WrongKind(field)),
    }
}

fn longest_of(commit_types: &LinkedHashMap<String, CommitType>) -> (longest: usize)
    ensures
        longest == longest_key(linked_entries(*commit_types)),
{
    let keys = linked_keys(commit_types);
    let ghost entries = linked_entries(*commit_types);
    let mut longest: usize = 0;
    let mut i: usize = 0;
    assert(keys.len() == entries.len()) by {
        assert(key_views(keys@).len() == keys_of(entries).len());
    }
    assert(entries.subrange(0, 0) =~= Seq::<Entry>::empty());
    while i < keys.len()
        invariant
            i <= keys.len(),
            keys.len() == entries.len(),
            key_views(keys@) == keys_of(entries),
            longest == longest_key(entries.subrange(0, i as int)),
        decreases keys.len() - i,
    {
        proof {
            assert(entries.subrange(0, i + 1).drop_last() =~= entries.subrange(0, i as int));
            assert(entries.subrange(0, i + 1).last() == entries[i as int]);
            assert(key_views(keys@)[i as int] == keys_of(entries)[i as int]);
        }
        let len = keys[i].as_str().unicode_len();
        if len > longest {
            longest = len;
        }
        i += 1;
    }
    assert(entries.subrange(0, entries.len() as int) =~= entries);
    longest
}

/// Format the commit type choices.
pub fn render_commit_type_choice(
    use_emoji: bool,
    commit_type: &CommitType,
    commit_types: &LinkedHashMap<String, CommitType>,
) -> (line: String)
    ensures
        line@ == choice_line(use_emoji, commit_type@, linked_entries(*commit_types)),
{
    format_choice(use_emoji, commit_type, longest_of(commit_types))
}

/// Parse the commit type out of the menu choice: the part of the choice's
/// text before its first colon, as in `feat: A new feature`.
pub fn get_commit_type(answer: Option<&Answer>) -> (result: Result<String, AnswerError>)
    ensures
        text_result(result) == match answer {
            None => Err(AnswerError::Missing(Field::CommitType)),
            Some(Answer::ListItem(item)) => Ok(before_first(item.text@, ':')),
            Some(_) => Err(AnswerError::WrongKind(Field::CommitType)),
        },
{
    match answer {
        None => Err(AnswerError::Missing(Field::CommitType)),
        Some(Answer::ListItem(item)) => Ok(prefix_before(item.text.as_str(), ':')),
        Some(_) => Err(AnswerError::WrongKind(Field::CommitType)),
    }
}

/// Gets the scope, returning `None` if it's an empty string.
pub fn get_scope(answer: Option<&Answer>) -> (result: Result<Option<String>, AnswerError>)
    ensures
        optional_result(result) == match text_of(answer, Field::Scope) {
            Ok(text) => Ok(non_empty(text)),
            Err(error) => Err(error),
        },
{
    optional_answer(answer, Field::Scope)
}

/// Gets the summary, prepending the commit type's emoji if enabled and if
/// the commit type has one. The answer is read first; then the commit type
/// must be one of the registry.
pub fn get_summary(
    answer: Option<&Answer>,
    use_emoji: bool,
    commit_type: &str,
    commit_types: &LinkedHashMap<String, CommitType>,
) -> (result: Result<String, AnswerError>)
    ensures
        text_result(result) == match text_of(answer, Field::Summary) {
            Err(error) => Err(error),
            Ok(text) => match lookup(linked_entries(*commit_types), commit_type@) {
                None => Err(AnswerError::UnknownCommitType),
                Some(found) => Ok(crate::answers::decorated(text, use_emoji, found.emoji)),
            },
        },
{
    let text = match string_answer(answer, Field::Summary) {
        Ok(text) => text,
        Err(error) => {
            return Err(error);
        },
    };
    let found = match linked_get(commit_types, commit_type) {
        Some(found) => found,
        None => {
            return Err(AnswerError::UnknownCommitType);
        },
    };
    match &found.emoji {
        Some(emoji) => {
            if use_emoji {
                Ok(concat3(emoji.as_str(), " ", text.as_str()))
            } else {
                Ok(text.clone())
            }
        },
        None => Ok(text.clone()),
    }
}

/// Gets the body, returning `None` if it's an empty string.
pub fn get_body(answer: Option<&Answer>) -> (result: Result<Option<String>, AnswerError>)
    ensures
        optional_result(result) == match text_of(answer, Field::Body) {
            Ok(text) => Ok(non_empty(text)),
            Err(error) => Err(error),
        },
{
    optional_answer(answer, Field::Body)
}

/// Returns whether or not there's a breaking change.
pub fn get_is_breaking_change(answer: Option<&Answer>) -> (result: Result<bool, AnswerError>)
    ensures
        result == flag_of(answer, Field::BreakingChange),
{
    flag_answer(answer, Field::BreakingChange)
}

/// Returns whether or not there's an open issue.
pub fn get_has_open_issue(answer: Option<&Answer>) -> (result: Result<bool, AnswerError>)
    ensures
        result == flag_of(answer, Field::OpenIssue),
{
    flag_answer(answer, Field::OpenIssue)
}

/// Get the issue reference, returning `None` if there isn't an open issue.
/// Without an open issue the answer is not looked at.
pub fn get_issue_reference(answer: Option<&Answer>, has_open_issue: bool) -> (result: Result<
    Option<String>,
    AnswerError,
>)
    ensures
        optional_result(result) == if has_open_issue {
            match text_of(answer, Field::IssueReference) {
                Ok(text) => Ok(non_empty(text)),
                Err(error) => Err(error),
            }
        } else {
            Ok(None)
        },
{
    if has_open_issue {
        optional_answer(answer, Field::IssueReference)
    } else {
        Ok(None)
    }
}

/// If there is a referenced issue, returns the body with a blank line and
/// the issue reference after it; without a body, the issue reference alone.
/// If there is none, gives back the body.
pub fn get_amended_body(body: &Option<String>, issue_reference: &Option<String>) -> (out: Option<
    String,
>)
    ensures
        match (*body, *issue_reference) {
            (Some(b), Some(i)) => opt_view(out) == Some(b@ + "\n\n"@ + i@),
            (Some(b), None) => opt_view(out) == Some(b@),
            (None, Some(i)) => opt_view(out) == Some(i@),
            (None, None) => out is None,
        },
{
    match (body, issue_reference) {
        (Some(b), Some(i)) => Some(concat3(b.as_str(), "\n\n", i.as_str())),
        (Some(b), None) => Some(b.clone()),
        (None, Some(i)) => Some(i.clone()),
        (None, None) => None,
    }
}

} // verus!
