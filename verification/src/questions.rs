//! The questions of a prompt session, the order in which they are asked,
//! and what is made of the replies.

use crate::commit_types::{
    opt_view, registry_entries, registry_get_index, registry_len, CommitType, CommitTypeView,
    Entry,
};
use crate::text::{
    before_first, blank, chars_of, concat3, contains, has_match, is_blank, prefix_before, replace,
    replace_all,
};
use indexmap::IndexMap;
use vstd::prelude::*;
use vstd::string::*;

verus! {

/// The raw answers of one prompt session.
#[derive(Debug, PartialEq, Eq)]
pub struct Answers {
    pub commit_type: String,
    pub scope: Option<String>,
    pub summary: String,
    pub body: Option<String>,
    pub issue_footer: Option<String>,
    pub is_breaking_change: bool,
    pub breaking_change_footer: Option<String>,
}

/// The verdict on a text that the user typed.
#[derive(Debug, PartialEq, Eq)]
pub enum Validation {
    /// The text is accepted.
    Valid,
    /// The text is refused; the message says why.
    Invalid(String),
}

/// The hint shown with every question that may be skipped.
pub fn get_skip_hint() -> (hint: &'static str)
    ensures
        hint@ == "<esc> or <return> to skip"@,
{
    "<esc> or <return> to skip"
}

/// The help line of the scope question. It explains the completion only
/// where completion is enabled and has something to offer.
pub fn scope_help_message(autocomplete: bool, has_suggestions: bool) -> (help: String)
    ensures
        help@ == if autocomplete && has_suggestions {
            "↑↓ to move, tab to autocomplete, enter to submit"@ + ", "@
                + "<esc> or <return> to skip"@
        } else {
            "<esc> or <return> to skip"@
        },
{
    if autocomplete && has_suggestions {
        concat3("↑↓ to move, tab to autocomplete, enter to submit", ", ", get_skip_hint())
    } else {
        String::from_str(get_skip_hint())
    }
}

/// The help line of the questions whose answer may span several lines.
pub fn multiline_help_message() -> (help: String)
    ensures
        help@ == "Use '\\n' for newlines"@ + ", "@ + "<esc> or <return> to skip"@,
{
    concat3("Use '\\n' for newlines", ", ", get_skip_hint())
}

/// Transform commit type choice: the name is the part of the choice before
/// its first colon.
pub fn transform_commit_type_choice(choice: &str) -> (name: String)
    ensures
        name@ == before_first(choice@, ':'),
{
    prefix_before(choice, ':')
}

/// The length of the longest key.
pub open spec fn longest_key(entries: Seq<Entry>) -> nat
    decreases entries.len(),
{
    if entries.len() == 0 {
        0
    } else {
        let before = longest_key(entries.drop_last());
        if entries.last().0.len() > before {
            entries.last().0.len()
        } else {
            before
        }
    }
}

/// `count` spaces.
pub open spec fn spaces(count: nat) -> Seq<char>
    decreases count,
{
    if count == 0 {
        Seq::empty()
    } else {
        spaces((count - 1) as nat) + " "@
    }
}

/// The text, with spaces before it where it is shorter than `width`.
pub open spec fn padded_left(text: Seq<char>, width: nat) -> Seq<char> {
    if text.len() >= width {
        text
    } else {
        spaces((width - text.len()) as nat) + text
    }
}

/// The width of the column between the colon and the description: what the
/// name lacks to the longest key, and three more, or five where an emoji is
/// shown.
pub open spec fn column_width(longest: nat, name_len: nat, with_emoji: bool) -> nat {
    let gap: nat = if longest >= name_len {
        (longest - name_len) as nat
    } else {
        0
    };
    if with_emoji {
        gap + 5
    } else {
        gap + 3
    }
}

/// The line that offers a commit type where the longest key has `longest`
/// characters: the name, a colon, the emoji and a space set to the right of
/// the column, the description. The emoji is shown where emoji are wanted
/// and the commit type has one; else the column is blank.
pub open spec fn choice_line_for(use_emoji: bool, commit_type: CommitTypeView, longest: nat) -> Seq<
    char,
> {
    let with_emoji = use_emoji && commit_type.emoji is Some;
    let shown = if with_emoji {
        commit_type.emoji->0 + " "@
    } else {
        Seq::empty()
    };
    commit_type.name + ":"@ + padded_left(
        shown,
        column_width(longest, commit_type.name.len(), with_emoji),
    ) + commit_type.description
}

/// The line that offers a commit type among the entries of a registry.
pub open spec fn choice_line(use_emoji: bool, commit_type: CommitTypeView, entries: Seq<Entry>) -> Seq<
    char,
> {
    choice_line_for(use_emoji, commit_type, longest_key(entries))
}

fn longest_key_of(commit_types: &IndexMap<String, CommitType>) -> (longest: usize)
    ensures
        longest == longest_key(registry_entries(*commit_types)),
{
    let n = registry_len(commit_types);
    let mut longest: usize = 0;
    let mut i: usize = 0;
    let ghost entries = registry_entries(*commit_types);
    assert(entries.subrange(0, 0) =~= Seq::<Entry>::empty());
    while i < n
        invariant
            i <= n,
            n == entries.len(),
            entries == registry_entries(*commit_types),
            longest == longest_key(entries.subrange(0, i as int)),
        decreases n - i,
    {
        proof {
            assert(entries.subrange(0, i + 1).drop_last() =~= entries.subrange(0, i as int));
            assert(entries.subrange(0, i + 1).last() == entries[i as int]);
        }
        match registry_get_index(commit_types, i) {
            Some((key, _)) => {
                let len = key.as_str().unicode_len();
                if len > longest {
                    longest = len;
                }
            },
            None => {},
        }
        i += 1;
    }
    assert(entries.subrange(0, n as int) =~= entries);
    longest
}

/// Format the commit type choices.
pub fn format_commit_type_choice(
    use_emoji: bool,
    commit_type: &CommitType,
    commit_types: &IndexMap<String, CommitType>,
) -> (line: String)
    ensures
        line@ == choice_line(use_emoji, commit_type@, registry_entries(*commit_types)),
{
    format_choice(use_emoji, commit_type, longest_key_of(commit_types))
}

/// Formats the line that offers a commit type, for the length of the
/// longest key.
pub fn format_choice(use_emoji: bool, commit_type: &CommitType, longest: usize) -> (line: String)
    ensures
        line@ == choice_line_for(use_emoji, commit_type@, longest as nat),
{
    let longest = longest as u128;
    let name_len = commit_type.name.as_str().unicode_len() as u128;
    let gap: u128 = if longest >= name_len {
        longest - name_len
    } else {
        0
    };
    let mut out = String::from_str(commit_type.name.as_str());
    out.append(":");
    let ghost head = out@;
    proof {
        reveal_strlit(" ");
    }
    match &commit_type.emoji {
        Some(emoji) => {
            if use_emoji {
                let shown_len = emoji.as_str().unicode_len() as u128 + 1;
                let width = gap + 5;
                let pad: u128 = if shown_len >= width {
                    0
                } else {
                    width - shown_len
                };
                append_spaces(&mut out, pad);
                out.append(emoji.as_str());
                out.append(" ");
                out.append(commit_type.description.as_str());
                assert(out@ =~= head + padded_left(emoji@ + " "@, width as nat)
                    + commit_type.description@);
                return out;
            }
        },
        None => {},
    }
    append_spaces(&mut out, gap + 3);
    out.append(commit_type.description.as_str());
    assert(out@ =~= head + padded_left(Seq::<char>::empty(), (gap + 3) as nat)
        + commit_type.description@);
    out
}

/// The lines that offer the commit types of a registry, in its order.
pub open spec fn choice_lines(use_emoji: bool, entries: Seq<Entry>) -> Seq<Seq<char>> {
    Seq::new(entries.len(), |i: int| choice_line(use_emoji, entries[i].1, entries))
}

/// The choices of the commit-type question: one line for each commit type
/// of the registry, in the registry's order.
pub fn commit_type_choices(use_emoji: bool, commit_types: &IndexMap<String, CommitType>) -> (lines:
    Vec<String>)
    ensures
        texts(lines@) == choice_lines(use_emoji, registry_entries(*commit_types)),
{
    let n = registry_len(commit_types);
    let mut lines: Vec<String> = Vec::new();
    let mut i: usize = 0;
    let ghost entries = registry_entries(*commit_types);
    while i < n
        invariant
            i <= n,
            n == entries.len(),
            entries == registry_entries(*commit_types),
            lines.len() == i,
            forall|k: int| 0 <= k < i ==> (#[trigger] lines@[k])@ == choice_line(
                use_emoji,
                entries[k].1,
                entries,
            ),
        decreases n - i,
    {
        match registry_get_index(commit_types, i) {
            Some((_, commit_type)) => {
                lines.push(format_commit_type_choice(use_emoji, commit_type, commit_types));
            },
            None => {
                lines.push(String::new());
            },
        }
        i += 1;
    }
    assert(texts(lines@) =~= choice_lines(use_emoji, entries));
    lines
}

fn append_spaces(out: &mut String, count: u128)
    ensures
        final(out)@ == old(out)@ + spaces(count as nat),
{
    let mut done: u128 = 0;
    assert(out@ + spaces(0) =~= out@);
    while done < count
        invariant
            done <= count,
            out@ == old(out)@ + spaces(done as nat),
        decreases count - done,
    {
        out.append(" ");
        done += 1;
        assert(out@ =~= old(out)@ + spaces(done as nat));
    }
}

/// A summary must not be blank.
pub fn validate_summary(input: &str) -> (verdict: Validation)
    ensures
        !blank(input@) ==> verdict == Validation::Valid,
        blank(input@) ==> verdict is Invalid && verdict->Invalid_0@ == "A summary is required"@,
{
    if is_blank(input) {
        Validation::Invalid(String::from_str("A summary is required"))
    } else {
        Validation::Valid
    }
}

/// An issue reference must not be blank.
pub fn validate_issue_reference(input: &str) -> (verdict: Validation)
    ensures
        !blank(input@) ==> verdict == Validation::Valid,
        blank(input@) ==> verdict is Invalid && verdict->Invalid_0@
            == "An issue reference is required"@,
{
    if is_blank(input) {
        Validation::Invalid(String::from_str("An issue reference is required"))
    } else {
        Validation::Valid
    }
}

/// What the user made of a question: a text, a yes or no, or nothing where
/// a question that may be skipped was skipped.
#[derive(Debug)]
pub enum Reply {
    Text(String),
    Confirm(bool),
    Skipped,
}

/// The answer to a question that may be skipped: none where the question
/// was skipped or the text is empty.
pub open spec fn optional_text(reply: Reply) -> Option<Seq<char>> {
    match reply {
        Reply::Text(text) => if text@.len() == 0 {
            None
        } else {
            Some(text@)
        },
        _ => None,
    }
}

/// The answer to a question whose text may span several lines: as
/// `optional_text`, with each `\n` that was typed as two characters made a
/// line feed.
pub open spec fn optional_lines(reply: Reply) -> Option<Seq<char>> {
    match optional_text(reply) {
        Some(text) => Some(replace_all(text, "\\n"@, "\n"@)),
        None => None,
    }
}

/// The scope that a reply gives.
pub fn scope_of_reply(reply: &Reply) -> (scope: Option<String>)
    ensures
        opt_view(scope) == optional_text(*reply),
{
    match reply {
        Reply::Text(text) => {
            if text.as_str().unicode_len() == 0 {
                None
            } else {
                Some(text.clone())
            }
        },
        _ => None,
    }
}

/// The body, or the description of a breaking change, that a reply gives.
pub fn lines_of_reply(reply: &Reply) -> (lines: Option<String>)
    ensures
        opt_view(lines) == optional_lines(*reply),
{
    match reply {
        Reply::Text(text) => {
            if text.as_str().unicode_len() == 0 {
                None
            } else {
                Some(replace(text.as_str(), "\\n", "\n"))
            }
        },
        _ => None,
    }
}

/// The raw answers as plain text.
pub struct AnswersView {
    pub commit_type: Seq<char>,
    pub scope: Option<Seq<char>>,
    pub summary: Seq<char>,
    pub body: Option<Seq<char>>,
    pub issue_footer: Option<Seq<char>>,
    pub is_breaking_change: bool,
    pub breaking_change_footer: Option<Seq<char>>,
}

impl View for Answers {
    type V = AnswersView;

    open spec fn view(&self) -> AnswersView {
        AnswersView {
            commit_type: self.commit_type@,
            scope: opt_view(self.scope),
            summary: self.summary@,
            body: opt_view(self.body),
            issue_footer: opt_view(self.issue_footer),
            is_breaking_change: self.is_breaking_change,
            breaking_change_footer: opt_view(self.breaking_change_footer),
        }
    }
}

/// The questions of a session, in the order in which they are asked.
#[derive(Debug, Clone, Copy, PartialEq, Eq, Structural)]
pub enum Question {
    CommitType,
    Scope,
    Summary,
    Body,
    Breaking,
    BreakingText,
    Issues,
    IssueText,
}

/// What decides which questions are asked: two settings of the
/// configuration and two answers given so far.
pub struct Flow {
    pub breaking_changes: bool,
    pub issues: bool,
    pub is_breaking_change: bool,
    pub has_open_issue: bool,
}

/// The place of a question in the order.
pub open spec fn rank(question: Question) -> int {
    match question {
        Question::CommitType => 0,
        Question::Scope => 1,
        Question::Summary => 2,
        Question::Body => 3,
        Question::Breaking => 4,
        Question::BreakingText => 5,
        Question::Issues => 6,
        Question::IssueText => 7,
    }
}

/// The question at a place of the order.
pub open spec fn question_at(place: int) -> Question {
    if place <= 0 {
        Question::CommitType
    } else if place == 1 {
        Question::Scope
    } else if place == 2 {
        Question::Summary
    } else if place == 3 {
        Question::Body
    } else if place == 4 {
        Question::Breaking
    } else if place == 5 {
        Question::BreakingText
    } else if place == 6 {
        Question::Issues
    } else {
        Question::IssueText
    }
}

/// Whether a question is asked at all. The questions on breaking changes
/// and on issues depend on the configuration; each follow-up question is
/// asked only after a yes.
pub open spec fn wanted(question: Question, flow: Flow) -> bool {
    match question {
        Question::Breaking => flow.breaking_changes,
        Question::BreakingText => flow.breaking_changes && flow.is_breaking_change,
        Question::Issues => flow.issues,
        Question::IssueText => flow.issues && flow.has_open_issue,
        _ => true,
    }
}

/// The first question at or after a place that is asked.
pub open spec fn next_from(place: int, flow: Flow) -> Option<Question>
    decreases 8 - place,
{
    if place < 0 || place >= 8 {
        None
    } else if wanted(question_at(place), flow) {
        Some(question_at(place))
    } else {
        next_from(place + 1, flow)
    }
}

/// The question that follows the one asked last; the first question where
/// none was asked yet; none where the session is complete.
pub open spec fn next_after(asked: Option<Question>, flow: Flow) -> Option<Question> {
    match asked {
        None => next_from(0, flow),
        Some(question) => next_from(rank(question) + 1, flow),
    }
}

/// The questions come in strict order: the next question stands later than
/// the one asked last, it is one that is asked, and no question between the
/// two is.
pub proof fn lemma_strict_order(asked: Option<Question>, flow: Flow)
    ensures
        match next_after(asked, flow) {
            Some(next) => {
                &&& wanted(next, flow)
                &&& asked is Some ==> rank(asked->0) < rank(next)
                &&& forall|between: Question|
                    (asked is Some ==> rank(asked->0) < rank(between)) && rank(between) < rank(
                        next,
                    ) ==> !wanted(between, flow)
            },
            None => forall|later: Question|
                (asked is Some ==> rank(asked->0) < rank(later)) ==> !wanted(later, flow),
        },
{
    let start = match asked {
        None => 0,
        Some(question) => rank(question) + 1,
    };
    lemma_next_from(start, flow);
}

proof fn lemma_next_from(place: int, flow: Flow)
    requires
        0 <= place <= 8,
    ensures
        match next_from(place, flow) {
            Some(next) => {
                &&& wanted(next, flow)
                &&& place <= rank(next)
                &&& forall|between: Question|
                    place <= rank(between) && rank(between) < rank(next) ==> !wanted(
                        between,
                        flow,
                    )
            },
            None => forall|later: Question| place <= rank(later) ==> !wanted(later, flow),
        },
    decreases 8 - place,
{
    if place < 8 {
        assert(rank(question_at(place)) == place);
        assert forall|q: Question| rank(q) == place implies q == question_at(place) by {}
        if !wanted(question_at(place), flow) {
            lemma_next_from(place + 1, flow);
        }
    }
}

fn question_of(place: u8) -> (question: Question)
    requires
        place < 8,
    ensures
        question == question_at(place as int),
{
    if place == 0 {
        Question::CommitType
    } else if place == 1 {
        Question::Scope
    } else if place == 2 {
        Question::Summary
    } else if place == 3 {
        Question::Body
    } else if place == 4 {
        Question::Breaking
    } else if place == 5 {
        Question::BreakingText
    } else if place == 6 {
        Question::Issues
    } else {
        Question::IssueText
    }
}

fn place_of(question: Question) -> (place: u8)
    ensures
        place == rank(question),
{
    match question {
        Question::CommitType => 0,
        Question::Scope => 1,
        Question::Summary => 2,
        Question::Body => 3,
        Question::Breaking => 4,
        Question::BreakingText => 5,
        Question::Issues => 6,
        Question::IssueText => 7,
    }
}

fn is_wanted(question: Question, flow: &Flow) -> (asked: bool)
    ensures
        asked == wanted(question, *flow),
{
    match question {
        Question::Breaking => flow.breaking_changes,
        Question::BreakingText => flow.breaking_changes && flow.is_breaking_change,
        Question::Issues => flow.issues,
        Question::IssueText => flow.issues && flow.has_open_issue,
        _ => true,
    }
}

/// The question to ask after `asked`, if any is left.
pub fn next_question(asked: Option<Question>, flow: &Flow) -> (next: Option<Question>)
    ensures
        next == next_after(asked, *flow),
{
    let mut place: u8 = match asked {
        None => 0,
        Some(question) => place_of(question) + 1,
    };
    while place < 8
        invariant
            place <= 8,
            next_from(place as int, *flow) == next_after(asked, *flow),
        decreases 8 - place,
    {
        let question = question_of(place);
        if is_wanted(question, flow) {
            return Some(question);
        }
        place += 1;
    }
    None
}

/// A prompt session in progress: the two settings that decide which
/// questions are asked, the question answered last, and the answers so far.
/// The questions are answered in their order, so a follow-up answer is
/// there only after a yes.
#[derive(Debug)]
pub struct Session {
    breaking_changes: bool,
    issues: bool,
    asked: Option<Question>,
    answers: Answers,
    has_open_issue: bool,
}

/// A session as plain values.
pub struct SessionView {
    /// Whether the configuration has the questions on breaking changes
    /// asked.
    pub breaking_changes: bool,
    /// Whether the configuration has the questions on issues asked.
    pub issues: bool,
    /// The question that was answered last.
    pub asked: Option<Question>,
    /// The answers so far.
    pub answers: AnswersView,
    /// Whether the user said that the change affects an open issue.
    pub has_open_issue: bool,
}

/// What decides the next question of a session.
pub open spec fn flow_of(session: SessionView) -> Flow {
    Flow {
        breaking_changes: session.breaking_changes,
        issues: session.issues,
        is_breaking_change: session.answers.is_breaking_change,
        has_open_issue: session.has_open_issue,
    }
}

/// The question that a session asks next; none where it is complete.
pub open spec fn due(session: SessionView) -> Option<Question> {
    next_after(session.asked, flow_of(session))
}

/// A reply is of the kind that the question takes: a text for the commit
/// type, the summary and the issue reference; a text or nothing for what
/// may be skipped; a yes or no for the two flags.
pub open spec fn fits(question: Question, reply: Reply) -> bool {
    match question {
        Question::CommitType | Question::Summary | Question::IssueText => reply is Text,
        Question::Scope | Question::Body | Question::BreakingText => reply is Text
            || reply is Skipped,
        Question::Breaking | Question::Issues => reply is Confirm,
    }
}

/// The session after a fitting reply to a question was recorded.
pub open spec fn recorded(session: SessionView, question: Question, reply: Reply) -> SessionView {
    let answers = session.answers;
    let answers = match question {
        Question::CommitType => AnswersView {
            commit_type: before_first(reply->Text_0@, ':'),
            ..answers
        },
        Question::Scope => AnswersView { scope: optional_text(reply), ..answers },
        Question::Summary => AnswersView { summary: reply->Text_0@, ..answers },
        Question::Body => AnswersView { body: optional_lines(reply), ..answers },
        Question::Breaking => AnswersView { is_breaking_change: reply->Confirm_0, ..answers },
        Question::BreakingText => AnswersView {
            breaking_change_footer: optional_lines(reply),
            ..answers
        },
        Question::Issues => answers,
        Question::IssueText => AnswersView { issue_footer: Some(reply->Text_0@), ..answers },
    };
    SessionView {
        asked: Some(question),
        answers,
        has_open_issue: if question == Question::Issues {
            reply->Confirm_0
        } else {
            session.has_open_issue
        },
        ..session
    }
}

/// The answers hold a description of a breaking change only where the
/// change is marked as breaking.
pub open spec fn consistent(answers: AnswersView) -> bool {
    answers.breaking_change_footer is Some ==> answers.is_breaking_change
}

/// The place of the question answered last; below every place where none
/// was answered yet.
pub open spec fn progress(asked: Option<Question>) -> int {
    match asked {
        Some(question) => rank(question),
        None => -1,
    }
}

impl View for Session {
    type V = SessionView;

    closed spec fn view(&self) -> SessionView {
        SessionView {
            breaking_changes: self.breaking_changes,
            issues: self.issues,
            asked: self.asked,
            answers: self.answers@,
            has_open_issue: self.has_open_issue,
        }
    }
}

impl Session {
    #[verifier::type_invariant]
    spec fn well_formed(&self) -> bool {
        &&& progress(self.asked) < rank(Question::Breaking) ==> !self.answers.is_breaking_change
        &&& progress(self.asked) < rank(Question::BreakingText)
            ==> self.answers.breaking_change_footer is None
        &&& progress(self.asked) < rank(Question::Issues) ==> !self.has_open_issue
        &&& progress(self.asked) < rank(Question::IssueText) ==> self.answers.issue_footer is None
        &&& self.answers.breaking_change_footer is Some ==> self.answers.is_breaking_change
        &&& self.answers.issue_footer is Some ==> self.has_open_issue
    }

    /// A session in which nothing was asked yet, under the two settings of
    /// the configuration.
    pub fn new(breaking_changes: bool, issues: bool) -> (session: Session)
        ensures
            session@ == (SessionView {
                breaking_changes,
                issues,
                asked: None,
                answers: AnswersView {
                    commit_type: Seq::empty(),
                    scope: None,
                    summary: Seq::empty(),
                    body: None,
                    issue_footer: None,
                    is_breaking_change: false,
                    breaking_change_footer: None,
                },
                has_open_issue: false,
            }),
    {
        Session {
            breaking_changes,
            issues,
            asked: None,
            answers: Answers {
                commit_type: String::new(),
                scope: None,
                summary: String::new(),
                body: None,
                issue_footer: None,
                is_breaking_change: false,
                breaking_change_footer: None,
            },
            has_open_issue: false,
        }
    }

    /// The question that was answered last.
    pub fn asked(&self) -> (asked: Option<Question>)
        ensures
            asked == self@.asked,
    {
        self.asked
    }

    /// The answers so far.
    pub fn answers(&self) -> (answers: &Answers)
        ensures
            answers@ == self@.answers,
            consistent(answers@),
    {
        proof {
            use_type_invariant(self);
        }
        &self.answers
    }

    /// Whether the user said that the change affects an open issue.
    pub fn has_open_issue(&self) -> (yes: bool)
        ensures
            yes == self@.has_open_issue,
    {
        self.has_open_issue
    }

    /// The question to ask next; none where the session is complete.
    pub fn next(&self) -> (next: Option<Question>)
        ensures
            next == due(self@),
    {
        let flow = Flow {
            breaking_changes: self.breaking_changes,
            issues: self.issues,
            is_breaking_change: self.answers.is_breaking_change,
            has_open_issue: self.has_open_issue,
        };
        next_question(self.asked, &flow)
    }

    /// Records the reply to the question that is due. Where no question is
    /// due, or the reply does not fit the question, the reply is refused
    /// and the session stays as it was.
    pub fn record(&mut self, reply: Reply) -> (accepted: bool)
        ensures
            accepted == (due(old(self)@) is Some && fits(due(old(self)@)->0, reply)),
            accepted ==> final(self)@ == recorded(old(self)@, due(old(self)@)->0, reply),
            !accepted ==> final(self)@ == old(self)@,
    {
        proof {
            use_type_invariant(&*self);
            lemma_strict_order(self.asked, flow_of(self@));
        }
        let question = match self.next() {
            Some(question) => question,
            None => {
                return false;
            },
        };
        match question {
            Question::CommitType => match reply {
                Reply::Text(choice) => {
                    self.asked = Some(question);
                    self.answers.commit_type = transform_commit_type_choice(choice.as_str());
                },
                _ => {
                    return false;
                },
            },
            Question::Scope => match reply {
                Reply::Confirm(_) => {
                    return false;
                },
                _ => {
                    self.asked = Some(question);
                    self.answers.scope = scope_of_reply(&reply);
                },
            },
            Question::Summary => match reply {
                Reply::Text(summary) => {
                    self.asked = Some(question);
                    self.answers.summary = summary;
                },
                _ => {
                    return false;
                },
            },
            Question::Body => match reply {
                Reply::Confirm(_) => {
                    return false;
                },
                _ => {
                    self.asked = Some(question);
                    self.answers.body = lines_of_reply(&reply);
                },
            },
            Question::Breaking => match reply {
                Reply::Confirm(yes) => {
                    self.asked = Some(question);
                    self.answers.is_breaking_change = yes;
                },
                _ => {
                    return false;
                },
            },
            Question::BreakingText => match reply {
                Reply::Confirm(_) => {
                    return false;
                },
                _ => {
                    self.asked = Some(question);
                    self.answers.breaking_change_footer = lines_of_reply(&reply);
                },
            },
            Question::Issues => match reply {
                Reply::Confirm(yes) => {
                    self.asked = Some(question);
                    self.has_open_issue = yes;
                },
                _ => {
                    return false;
                },
            },
            Question::IssueText => match reply {
                Reply::Text(reference) => {
                    self.asked = Some(question);
                    self.answers.issue_footer = Some(reference);
                },
                _ => {
                    return false;
                },
            },
        }
        true
    }

    /// The answers of the session. They are consistent: a description of a
    /// breaking change is there only where the change is marked as
    /// breaking.
    pub fn into_answers(self) -> (answers: Answers)
        ensures
            answers@ == self@.answers,
            consistent(answers@),
    {
        proof {
            use_type_invariant(&self);
        }
        self.answers
    }
}

/// The scope and the summary that a summary line holds.
#[derive(Debug, PartialEq, Eq)]
pub struct ParsedSummary {
    pub scope: Option<String>,
    pub summary: String,
}

/// What `conventional_commit_parser::parse_summary` makes of a line: the
/// scope, if the line has one, and the summary; nothing where it refuses
/// the line.
pub uninterp spec fn parsed_summary(line: Seq<char>) -> Option<(Option<Seq<char>>, Seq<char>)>;

/// The view of what was parsed.
pub open spec fn parsed_view(parsed: Option<ParsedSummary>) -> Option<(Option<Seq<char>>, Seq<char>)> {
    match parsed {
        Some(p) => Some((opt_view(p.scope), p.summary@)),
        None => None,
    }
}

/// `conventional_commit_parser::parse_summary`: the scope and the summary
/// of the commit it returns, or nothing for its error.
#[verifier::external_body]
fn parse_summary(line: &str) -> (parsed: Option<ParsedSummary>)
    ensures
        parsed_view(parsed) == parsed_summary(line@),
{
    match conventional_commit_parser::parse_summary(line) {
        Ok(commit) => Some(ParsedSummary { scope: commit.scope, summary: commit.summary }),
        Err(_) => None,
    }
}

/// The scope of a summary line; none where the line is no conventional
/// summary or has no scope.
pub open spec fn scope_in(line: Seq<char>) -> Option<Seq<char>> {
    match parsed_summary(line) {
        Some(parsed) => parsed.0,
        None => None,
    }
}

/// The summary to offer again after a message that did not pass: the
/// summary of that message where it is a conventional summary line, nothing
/// otherwise.
pub open spec fn previous_summary_of(message: Seq<char>) -> Seq<char> {
    match parsed_summary(message) {
        Some(parsed) => parsed.1,
        None => Seq::empty(),
    }
}

/// The summary of the message that is already there.
pub fn previous_summary(message: &str) -> (summary: String)
    ensures
        summary@ == previous_summary_of(message@),
{
    match parse_summary(message) {
        Some(parsed) => parsed.summary,
        None => String::new(),
    }
}

/// The views of a list of texts.
pub open spec fn texts(list: Seq<String>) -> Seq<Seq<char>> {
    Seq::new(list.len(), |i: int| list[i]@)
}

/// The scopes of the summary lines, each once, in the order in which they
/// first appear.
pub open spec fn scopes_of(lines: Seq<Seq<char>>) -> Seq<Seq<char>>
    decreases lines.len(),
{
    if lines.len() == 0 {
        Seq::empty()
    } else {
        let before = scopes_of(lines.drop_last());
        match scope_in(lines.last()) {
            Some(scope) => if before.contains(scope) {
                before
            } else {
                before.push(scope)
            },
            None => before,
        }
    }
}

/// No scope stands twice among the scopes of a history, and each of them
/// is the scope of one of its lines.
pub proof fn lemma_scopes_once(lines: Seq<Seq<char>>)
    ensures
        scopes_of(lines).no_duplicates(),
        forall|i: int|
            0 <= i < scopes_of(lines).len() ==> exists|k: int|
                0 <= k < lines.len() && scope_in(#[trigger] lines[k]) == Some(
                    #[trigger] scopes_of(lines)[i],
                ),
        forall|k: int|
            0 <= k < lines.len() && scope_in(#[trigger] lines[k]) is Some ==> scopes_of(
                lines,
            ).contains(scope_in(lines[k])->0),
    decreases lines.len(),
{
    if lines.len() > 0 {
        let front = lines.drop_last();
        let before = scopes_of(front);
        let after = scopes_of(lines);
        lemma_scopes_once(front);
        assert forall|i: int| 0 <= i < after.len() implies exists|k: int|
            0 <= k < lines.len() && scope_in(#[trigger] lines[k]) == Some(#[trigger] after[i]) by {
            if i < before.len() {
                assert(after[i] == before[i]);
                let k = choose|k: int|
                    0 <= k < front.len() && scope_in(#[trigger] front[k]) == Some(before[i]);
                assert(lines[k] == front[k]);
            } else {
                assert(scope_in(lines[lines.len() - 1]) == Some(after[i]));
            }
        }
        assert forall|k: int|
            0 <= k < lines.len() && scope_in(#[trigger] lines[k]) is Some implies after.contains(
            scope_in(lines[k])->0,
        ) by {
            let scope = scope_in(lines[k])->0;
            if k < front.len() {
                assert(front[k] == lines[k]);
                assert(before.contains(scope));
                let i = choose|i: int| 0 <= i < before.len() && before[i] == scope;
                assert(after[i] == scope);
            } else {
                if before.contains(scope) {
                } else {
                    assert(after[after.len() - 1] == scope);
                }
            }
        }
    }
}

/// The texts of the list that contain `input`, in the list's order.
pub open spec fn containing(list: Seq<Seq<char>>, input: Seq<char>) -> Seq<Seq<char>>
    decreases list.len(),
{
    if list.len() == 0 {
        Seq::empty()
    } else {
        let before = containing(list.drop_last(), input);
        if contains(list.last(), input) {
            before.push(list.last())
        } else {
            before
        }
    }
}

fn holds(list: &Vec<String>, text: &String) -> (found: bool)
    ensures
        found == texts(list@).contains(text@),
{
    let mut i: usize = 0;
    while i < list.len()
        invariant
            i <= list.len(),
            forall|k: int| 0 <= k < i ==> list@[k]@ != text@,
        decreases list.len() - i,
    {
        if list[i] == *text {
            assert(texts(list@)[i as int] == text@);
            return true;
        }
        i += 1;
    }
    assert forall|k: int| 0 <= k < texts(list@).len() implies texts(list@)[k] != text@ by {
        assert(texts(list@)[k] == list@[k]@);
    }
    false
}

/// Offers, for the scope question, the scopes that earlier commits used.
#[derive(Debug, Clone)]
pub struct ScopeAutocompleter {
    /// The summary lines of the commits in the history, newest first.
    pub summaries: Vec<String>,
}

impl ScopeAutocompleter {
    /// The scopes of the history, each once, the one used last first.
    /// Lines that are no conventional summaries are passed over.
    pub fn get_existing_scopes(&self) -> (scopes: Vec<String>)
        ensures
            texts(scopes@) == scopes_of(texts(self.summaries@)),
            texts(scopes@).no_duplicates(),
    {
        let mut scopes: Vec<String> = Vec::new();
        let mut i: usize = 0;
        let ghost lines = texts(self.summaries@);
        assert(lines.subrange(0, 0) =~= Seq::<Seq<char>>::empty());
        assert(texts(scopes@) =~= Seq::<Seq<char>>::empty());
        while i < self.summaries.len()
            invariant
                i <= self.summaries.len(),
                lines == texts(self.summaries@),
                texts(scopes@) == scopes_of(lines.subrange(0, i as int)),
            decreases self.summaries.len() - i,
        {
            proof {
                assert(lines.subrange(0, i + 1).drop_last() =~= lines.subrange(0, i as int));
                assert(lines.subrange(0, i + 1).last() == self.summaries@[i as int]@);
            }
            let ghost before = texts(scopes@);
            match parse_summary(self.summaries[i].as_str()) {
                Some(parsed) => match parsed.scope {
                    Some(scope) => {
                        if !holds(&scopes, &scope) {
                            scopes.push(scope);
                            assert(texts(scopes@) =~= before.push(scope@));
                        }
                    },
                    None => {},
                },
                None => {},
            }
            i += 1;
        }
        proof {
            assert(lines.subrange(0, self.summaries.len() as int) =~= lines);
            lemma_scopes_once(lines);
        }
        scopes
    }

    /// The scopes of the history that contain what was typed so far.
    pub fn get_suggestions(&self, input: &str) -> (suggestions: Vec<String>)
        ensures
            texts(suggestions@) == containing(scopes_of(texts(self.summaries@)), input@),
    {
        let scopes = self.get_existing_scopes();
        suggestions_among(&scopes, input)
    }

    /// The completion of what was typed: the suggestion that is
    /// highlighted, if one is.
    pub fn get_completion(&self, input: &str, highlighted_suggestion: Option<String>) -> (completion:
        Option<String>)
        ensures
            completion == highlighted_suggestion,
    {
        highlighted_suggestion
    }
}

/// The scopes of the list that contain `input`, in the list's order.
pub fn suggestions_among(scopes: &Vec<String>, input: &str) -> (suggestions: Vec<String>)
    ensures
        texts(suggestions@) == containing(texts(scopes@), input@),
{
    let pattern = chars_of(input);
    let mut suggestions: Vec<String> = Vec::new();
    let mut i: usize = 0;
    let ghost list = texts(scopes@);
    assert(list.subrange(0, 0) =~= Seq::<Seq<char>>::empty());
    assert(texts(suggestions@) =~= Seq::<Seq<char>>::empty());
    while i < scopes.len()
        invariant
            i <= scopes.len(),
            list == texts(scopes@),
            pattern@ == input@,
            texts(suggestions@) == containing(list.subrange(0, i as int), input@),
        decreases scopes.len() - i,
    {
        proof {
            assert(list.subrange(0, i + 1).drop_last() =~= list.subrange(0, i as int));
            assert(list.subrange(0, i + 1).last() == scopes@[i as int]@);
        }
        let ghost before = texts(suggestions@);
        let scope_chars = chars_of(scopes[i].as_str());
        if has_match(&scope_chars, &pattern) {
            suggestions.push(scopes[i].clone());
            assert(texts(suggestions@) =~= before.push(scopes@[i as int]@));
        }
        i += 1;
    }
    assert(list.subrange(0, scopes.len() as int) =~= list);
    suggestions
}

} // verus!
