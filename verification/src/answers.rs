//! From the raw answers of a prompt session to the parts of a commit
//! message: the summary with its emoji, the body with its footers.

use crate::commit::{accepted_by_parser, conventional_message, generate_commit_msg};
use crate::commit_types::{lookup, opt_view, registry_entries, registry_get, CommitType};
use crate::config::Config;
use crate::emoji::{
    emoji_glyphs, glyph_table, replace_shortcodes_with, substituted, table_view, Glyph, GlyphView,
};
use crate::questions::Answers;
use crate::text::{concat2, concat3};
use indexmap::IndexMap;
use vstd::prelude::*;
use vstd::string::*;

verus! {

/// Why the answers could not be made into a commit message.
#[derive(Debug, PartialEq, Eq, Structural)]
pub enum AssemblyError {
    /// The registry holds no commit type of the answered name.
    UnknownCommitType,
    /// The assembled text is no conventional commit: the parser refused it.
    NotConventional,
}

/// The parts of a commit message.
#[derive(Debug, PartialEq, Eq)]
pub struct ExtractedAnswers {
    pub body: Option<String>,
    pub commit_type: String,
    pub is_breaking_change: bool,
    pub scope: Option<String>,
    pub summary: String,
}

/// The summary with the commit type's emoji before it, where emoji are
/// wanted and the commit type has one; the summary alone otherwise.
pub open spec fn decorated(summary: Seq<char>, use_emoji: bool, emoji: Option<Seq<char>>) -> Seq<
    char,
> {
    match emoji {
        Some(e) => if use_emoji {
            e + " "@ + summary
        } else {
            summary
        },
        None => summary,
    }
}

/// The footer that announces a breaking change.
pub open spec fn breaking_footer(text: Seq<char>) -> Seq<char> {
    "BREAKING CHANGE: "@ + text
}

/// The footer block: the issue reference, then the breaking-change footer,
/// each on a line of its own.
pub open spec fn footers(issue_reference: Option<Seq<char>>, breaking_text: Option<Seq<char>>) -> Option<
    Seq<char>,
> {
    match (issue_reference, breaking_text) {
        (Some(issue), Some(breaking)) => Some(issue + "\n"@ + breaking),
        (Some(issue), None) => Some(issue),
        (None, Some(breaking)) => Some(breaking),
        (None, None) => None,
    }
}

/// A body that counts: an empty body is no body.
pub open spec fn present(body: Option<Seq<char>>) -> Option<Seq<char>> {
    match body {
        Some(b) => if b.len() == 0 {
            None
        } else {
            Some(b)
        },
        None => None,
    }
}

/// The body with the footer block after it, one blank line between the two.
/// A part that is absent leaves nothing behind, no blank line either; an
/// empty body is taken as absent.
pub open spec fn composed(
    body: Option<Seq<char>>,
    issue_reference: Option<Seq<char>>,
    breaking_text: Option<Seq<char>>,
) -> Option<Seq<char>> {
    match (present(body), footers(issue_reference, breaking_text)) {
        (Some(b), Some(f)) => Some(b + "\n\n"@ + f),
        (Some(b), None) => Some(b),
        (None, Some(f)) => Some(f),
        (None, None) => None,
    }
}

/// An optional text with its shortcode tokens replaced.
pub open spec fn opt_substituted(text: Option<Seq<char>>, table: Seq<GlyphView>) -> Option<
    Seq<char>,
> {
    match text {
        Some(t) => Some(substituted(t, table)),
        None => None,
    }
}

/// The breaking-change footer of the answers: there is one where the change
/// is breaking and a text that is not empty describes it.
pub open spec fn breaking_footer_of(is_breaking_change: bool, text: Option<Seq<char>>) -> Option<
    Seq<char>,
> {
    match text {
        Some(t) => if is_breaking_change && t.len() > 0 {
            Some(breaking_footer(t))
        } else {
            None
        },
        None => None,
    }
}

/// The summary that a glyph table gives: the shortcode tokens of the answer
/// are replaced, and the emoji of the commit type is put before the result
/// as it is.
pub open spec fn summary_of(
    answer: Seq<char>,
    use_emoji: bool,
    type_emoji: Option<Seq<char>>,
    table: Seq<GlyphView>,
) -> Seq<char> {
    decorated(substituted(answer, table), use_emoji, type_emoji)
}

/// As `get_summary`, with the glyph table given.
pub fn get_summary_with(
    answer: &str,
    use_emoji: bool,
    commit_type: &str,
    commit_types: &IndexMap<String, CommitType>,
    table: &Vec<Glyph>,
) -> (result: Result<String, AssemblyError>)
    ensures
        match lookup(registry_entries(*commit_types), commit_type@) {
            None => result == Err::<String, AssemblyError>(AssemblyError::UnknownCommitType),
            Some(found) => result is Ok && result->Ok_0@ == summary_of(
                answer@,
                use_emoji,
                found.emoji,
                table_view(table@),
            ),
        },
{
    let found = match registry_get(commit_types, commit_type) {
        Some(found) => found,
        None => {
            return Err(AssemblyError::UnknownCommitType);
        },
    };
    let summary = replace_shortcodes_with(answer, table);
    match &found.emoji {
        Some(emoji) => {
            if use_emoji {
                Ok(concat3(emoji.as_str(), " ", summary.as_str()))
            } else {
                Ok(summary)
            }
        },
        None => Ok(summary),
    }
}

/// Get the summary, prepending the commit type's emoji if enabled. The
/// shortcode tokens of the answer are replaced, with the glyph table of the
/// `emojis` crate; the emoji of the commit type is put before the result as
/// it is.
pub fn get_summary(
    answer: &str,
    use_emoji: bool,
    commit_type: &str,
    commit_types: &IndexMap<String, CommitType>,
) -> (result: Result<String, AssemblyError>)
    ensures
        match lookup(registry_entries(*commit_types), commit_type@) {
            None => result == Err::<String, AssemblyError>(AssemblyError::UnknownCommitType),
            Some(found) => result is Ok && result->Ok_0@ == summary_of(
                answer@,
                use_emoji,
                found.emoji,
                emoji_glyphs(),
            ),
        },
{
    let table = glyph_table();
    get_summary_with(answer, use_emoji, commit_type, commit_types, &table)
}

/// Puts the breaking-change key before the text, if there is a text.
/// Callers decide beforehand whether the text counts.
pub fn into_breaking_footer(breaking_text: &Option<String>) -> (footer: Option<String>)
    ensures
        opt_view(footer) == match opt_view(*breaking_text) {
            Some(text) => Some(breaking_footer(text)),
            None => None,
        },
{
    match breaking_text {
        Some(text) => Some(concat2("BREAKING CHANGE: ", text.as_str())),
        None => None,
    }
}

/// Joins the body and the footers. With both footers the result is the
/// body, a blank line, the issue reference and, on the next line, the
/// breaking-change footer; with the issue reference alone it is the body, a
/// blank line and the issue reference; without footers it is the body as it
/// was; without a body, or with an empty one, it is the footer block alone,
/// with no blank line before it, and nothing at all where there are no
/// footers either: an empty body would only bring blank lines into the
/// message.
pub fn compose_body(
    body: &Option<String>,
    issue_reference: &Option<String>,
    breaking_text: &Option<String>,
) -> (out: Option<String>)
    ensures
        opt_view(out) == composed(
            opt_view(*body),
            opt_view(*issue_reference),
            opt_view(*breaking_text),
        ),
        match (present(opt_view(*body)), *issue_reference, *breaking_text) {
            (Some(b), Some(i), Some(t)) => opt_view(out) == Some(b + "\n\n"@ + (i@ + "\n"@ + t@)),
            (Some(b), Some(i), None) => opt_view(out) == Some(b + "\n\n"@ + i@),
            (Some(b), None, Some(t)) => opt_view(out) == Some(b + "\n\n"@ + t@),
            (Some(b), None, None) => opt_view(out) == Some(b),
            (None, Some(i), Some(t)) => opt_view(out) == Some(i@ + "\n"@ + t@),
            (None, Some(i), None) => opt_view(out) == Some(i@),
            (None, None, Some(t)) => opt_view(out) == Some(t@),
            (None, None, None) => out is None,
        },
{
    let block: Option<String> = match (issue_reference, breaking_text) {
        (Some(issue), Some(breaking)) => Some(
            concat3(issue.as_str(), "\n", breaking.as_str()),
        ),
        (Some(issue), None) => Some(issue.clone()),
        (None, Some(breaking)) => Some(breaking.clone()),
        (None, None) => None,
    };
    let text: Option<&String> = match body {
        Some(b) => {
            if b.as_str().unicode_len() == 0 {
                None
            } else {
                Some(b)
            }
        },
        None => None,
    };
    match (text, block) {
        (Some(b), Some(f)) => Some(concat3(b.as_str(), "\n\n", f.as_str())),
        (Some(b), None) => Some(b.clone()),
        (None, Some(f)) => Some(f),
        (None, None) => None,
    }
}

/// As `get_amended_body`, with the glyph table given.
pub fn get_amended_body_with(
    body: &Option<String>,
    issue_reference: &Option<String>,
    breaking_text: &Option<String>,
    table: &Vec<Glyph>,
) -> (out: Option<String>)
    ensures
        opt_view(out) == opt_substituted(
            composed(opt_view(*body), opt_view(*issue_reference), opt_view(*breaking_text)),
            table_view(table@),
        ),
{
    match compose_body(body, issue_reference, breaking_text) {
        Some(joined) => Some(replace_shortcodes_with(joined.as_str(), table)),
        None => None,
    }
}

/// Get the body, amending it with issue references and breaking changes if
/// provided. The parts are joined as `compose_body` says; then the
/// shortcode tokens of the whole are replaced, with the glyph table of the
/// `emojis` crate.
pub fn get_amended_body(
    body: &Option<String>,
    issue_reference: &Option<String>,
    breaking_text: &Option<String>,
) -> (out: Option<String>)
    ensures
        opt_view(out) == opt_substituted(
            composed(opt_view(*body), opt_view(*issue_reference), opt_view(*breaking_text)),
            emoji_glyphs(),
        ),
{
    let table = glyph_table();
    get_amended_body_with(body, issue_reference, breaking_text, &table)
}

/// The parts of the message as plain text.
pub struct ExtractedView {
    pub body: Option<Seq<char>>,
    pub commit_type: Seq<char>,
    pub is_breaking_change: bool,
    pub scope: Option<Seq<char>>,
    pub summary: Seq<char>,
}

impl View for ExtractedAnswers {
    type V = ExtractedView;

    open spec fn view(&self) -> ExtractedView {
        ExtractedView {
            body: opt_view(self.body),
            commit_type: self.commit_type@,
            is_breaking_change: self.is_breaking_change,
            scope: opt_view(self.scope),
            summary: self.summary@,
        }
    }
}

/// The parts that belong to the answers, for a commit type with this emoji,
/// this setting of `emoji` and this glyph table.
pub open spec fn extracted(
    answers: Answers,
    use_emoji: bool,
    type_emoji: Option<Seq<char>>,
    table: Seq<GlyphView>,
) -> ExtractedView {
    ExtractedView {
        body: opt_substituted(
            composed(
                opt_view(answers.body),
                opt_view(answers.issue_footer),
                breaking_footer_of(
                    answers.is_breaking_change,
                    opt_view(answers.breaking_change_footer),
                ),
            ),
            table,
        ),
        commit_type: answers.commit_type@,
        is_breaking_change: answers.is_breaking_change,
        scope: opt_substituted(opt_view(answers.scope), table),
        summary: summary_of(answers.summary@, use_emoji, type_emoji, table),
    }
}

/// As `get_extracted_answers`, with the glyph table given.
pub fn get_extracted_answers_with(answers: Answers, config: &Config, table: &Vec<Glyph>) -> (result:
    Result<ExtractedAnswers, AssemblyError>)
    ensures
        match lookup(registry_entries(config.commit_types), answers.commit_type@) {
            None => result == Err::<ExtractedAnswers, AssemblyError>(
                AssemblyError::UnknownCommitType,
            ),
            Some(found) => result is Ok && result->Ok_0@ == extracted(
                answers,
                config.emoji,
                found.emoji,
                table_view(table@),
            ),
        },
{
    let footer_text: Option<String> = match &answers.breaking_change_footer {
        Some(text) => {
            if answers.is_breaking_change && text.as_str().unicode_len() > 0 {
                Some(text.clone())
            } else {
                None
            }
        },
        None => None,
    };
    let breaking_change_footer = into_breaking_footer(&footer_text);
    let summary = match get_summary_with(
        answers.summary.as_str(),
        config.emoji,
        answers.commit_type.as_str(),
        &config.commit_types,
        table,
    ) {
        Ok(summary) => summary,
        Err(error) => {
            return Err(error);
        },
    };
    let body = get_amended_body_with(
        &answers.body,
        &answers.issue_footer,
        &breaking_change_footer,
        table,
    );
    let scope = match &answers.scope {
        Some(scope) => Some(replace_shortcodes_with(scope.as_str(), table)),
        None => None,
    };
    Ok(
        ExtractedAnswers {
            body,
            commit_type: answers.commit_type,
            is_breaking_change: answers.is_breaking_change,
            scope,
            summary,
        },
    )
}

/// Extract the prompt answers into an `ExtractedAnswers`, making it usable
/// for creating a commit. Fails if, and only if, the registry of the
/// configuration holds no commit type of the answered name. The shortcode
/// tokens are replaced with the glyph table of the `emojis` crate.
pub fn get_extracted_answers(answers: Answers, config: &Config) -> (result: Result<
    ExtractedAnswers,
    AssemblyError,
>)
    ensures
        match lookup(registry_entries(config.commit_types), answers.commit_type@) {
            None => result == Err::<ExtractedAnswers, AssemblyError>(
                AssemblyError::UnknownCommitType,
            ),
            Some(found) => result is Ok && result->Ok_0@ == extracted(
                answers,
                config.emoji,
                found.emoji,
                emoji_glyphs(),
            ),
        },
{
    let table = glyph_table();
    get_extracted_answers_with(answers, config, &table)
}

/// The message that belongs to the parts.
pub open spec fn message_of(parts: ExtractedView) -> Seq<char> {
    conventional_message(
        parts.commit_type,
        parts.scope,
        parts.summary,
        parts.body,
        parts.is_breaking_change,
    )
}

/// What is made of a message: the message itself where the parser accepts
/// it as a conventional commit, `NotConventional` where it does not.
pub open spec fn delivered(message: Seq<char>, result: Result<String, AssemblyError>) -> bool {
    if accepted_by_parser(message) {
        result is Ok && result->Ok_0@ == message
    } else {
        result == Err::<String, AssemblyError>(AssemblyError::NotConventional)
    }
}

/// As `assemble`, with the glyph table given.
pub fn assemble_with(answers: Answers, config: &Config, table: &Vec<Glyph>) -> (result: Result<
    String,
    AssemblyError,
>)
    ensures
        match lookup(registry_entries(config.commit_types), answers.commit_type@) {
            None => result == Err::<String, AssemblyError>(AssemblyError::UnknownCommitType),
            Some(found) => delivered(
                message_of(extracted(answers, config.emoji, found.emoji, table_view(table@))),
                result,
            ),
        },
{
    let parts = match get_extracted_answers_with(answers, config, table) {
        Ok(parts) => parts,
        Err(error) => {
            return Err(error);
        },
    };
    match generate_commit_msg(
        parts.commit_type,
        parts.scope,
        parts.summary,
        parts.body,
        parts.is_breaking_change,
    ) {
        Ok(message) => Ok(message),
        Err(_) => Err(AssemblyError::NotConventional),
    }
}

/// Assembles the commit message from the answers and the configuration,
/// with the glyph table of the `emojis` crate. Fails with
/// `UnknownCommitType` if, and only if, the registry holds no commit type
/// of the answered name. Otherwise the parser decides: the result is the
/// text of the message where the parser accepts it as a conventional
/// commit, and `NotConventional` where it does not.
pub fn assemble(answers: Answers, config: &Config) -> (result: Result<String, AssemblyError>)
    ensures
        match lookup(registry_entries(config.commit_types), answers.commit_type@) {
            None => result == Err::<String, AssemblyError>(AssemblyError::UnknownCommitType),
            Some(found) => delivered(
                message_of(extracted(answers, config.emoji, found.emoji, emoji_glyphs())),
                result,
            ),
        },
{
    let table = glyph_table();
    assemble_with(answers, config, &table)
}

} // verus!
