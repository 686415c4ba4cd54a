//! Classification of the staging area from the sizes of two diffs.

use vstd::prelude::*;

verus! {

/// What the index holds for the next commit, compared with the last commit
/// and with the working tree.
#[derive(Debug, PartialEq, Eq, Structural)]
pub enum StagingStatus {
    /// Nothing is staged.
    Empty,
    /// Something is staged, and tracked files carry further unstaged changes.
    Partial { staged: usize, unstaged: usize },
    /// Something is staged and the tracked files are otherwise clean.
    Ready { staged: usize },
}

/// What a caller does with a staging status before it prompts.
#[derive(Debug, PartialEq, Eq, Structural)]
pub enum StagingAction {
    /// Stop with a user-facing error: there is nothing to commit.
    Abort,
    /// Go on, after warning that unstaged changes stay out of the commit.
    Warn,
    /// Go on silently.
    Proceed,
}

/// The status that belongs to `staged` changed entries between the last
/// commit's tree and the index, and `unstaged` changed entries between the
/// index and the tracked part of the working tree.
pub open spec fn staging_status(staged: usize, unstaged: usize) -> StagingStatus {
    if staged == 0 {
        StagingStatus::Empty
    } else if unstaged == 0 {
        StagingStatus::Ready { staged }
    } else {
        StagingStatus::Partial { staged, unstaged }
    }
}

/// The action that belongs to `status`. Only an interactive run, one that
/// neither writes a hook file nor stages all tracked files itself, stops on
/// an empty index.
pub open spec fn staging_action_of(status: StagingStatus, hook: bool, stage_all: bool) -> StagingAction {
    match status {
        StagingStatus::Empty => if !hook && !stage_all {
            StagingAction::Abort
        } else {
            StagingAction::Proceed
        },
        StagingStatus::Partial { .. } => StagingAction::Warn,
        StagingStatus::Ready { .. } => StagingAction::Proceed,
    }
}

/// Why the staging area could not be classified: the step of the two diffs
/// that failed.
#[derive(Debug, Clone, Copy, PartialEq, Eq, Structural)]
pub enum RepositoryError {
    /// The index could not be read.
    Index,
    /// The tree of the last commit could not be resolved.
    HeadTree,
    /// The diff of the last commit's tree against the index could not be
    /// computed.
    StagedDiff,
    /// The status of the working tree could not be set up.
    Status,
    /// The diff of the index against the working tree could not be started.
    WorktreeStatus,
    /// An entry of the diff of the index against the working tree could not
    /// be read.
    StatusEntry,
}

impl RepositoryError {
    /// The error in words.
    pub fn message(&self) -> (text: &'static str)
        ensures
            text@ == match *self {
                RepositoryError::Index => "could not read index"@,
                RepositoryError::HeadTree => "could not resolve HEAD tree"@,
                RepositoryError::StagedDiff => "could not diff HEAD tree against index"@,
                RepositoryError::Status => "could not initialize status"@,
                RepositoryError::WorktreeStatus => "could not iterate worktree status"@,
                RepositoryError::StatusEntry => "error reading worktree status entry"@,
            },
    {
        match self {
            RepositoryError::Index => "could not read index",
            RepositoryError::HeadTree => "could not resolve HEAD tree",
            RepositoryError::StagedDiff => "could not diff HEAD tree against index",
            RepositoryError::Status => "could not initialize status",
            RepositoryError::WorktreeStatus => "could not iterate worktree status",
            RepositoryError::StatusEntry => "error reading worktree status entry",
        }
    }
}

/// Classifies the staging area from the number of changed entries in the
/// diff of the last commit's tree against the index (`staged_count`; an
/// empty tree stands in for a repository without commits) and in the diff of
/// the index against the tracked files of the working tree
/// (`unstaged_count`).
pub fn classify(staged_count: usize, unstaged_count: usize) -> (status: StagingStatus)
    ensures
        status == staging_status(staged_count, unstaged_count),
        staged_count == 0 ==> status == StagingStatus::Empty,
        staged_count > 0 && unstaged_count == 0 ==> status == (StagingStatus::Ready {
            staged: staged_count,
        }),
        staged_count > 0 && unstaged_count > 0 ==> status == (StagingStatus::Partial {
            staged: staged_count,
            unstaged: unstaged_count,
        }),
{
    if staged_count == 0 {
        StagingStatus::Empty
    } else if unstaged_count == 0 {
        StagingStatus::Ready { staged: staged_count }
    } else {
        StagingStatus::Partial { staged: staged_count, unstaged: unstaged_count }
    }
}

/// Classifies the staging area from the outcome of the two diffs: for each
/// the number of its changed entries, or the step at which it failed. A
/// diff that failed is an error, the staged one first; else the status is
/// the one that `classify` gives for the two numbers.
pub fn check_staging(
    staged: Result<usize, RepositoryError>,
    unstaged: Result<usize, RepositoryError>,
) -> (result: Result<StagingStatus, RepositoryError>)
    ensures
        result == match (staged, unstaged) {
            (Err(error), _) => Err(error),
            (Ok(_), Err(error)) => Err(error),
            (Ok(staged_count), Ok(unstaged_count)) => Ok(
                staging_status(staged_count, unstaged_count),
            ),
        },
{
    match (staged, unstaged) {
        (Err(error), _) => Err(error),
        (Ok(_), Err(error)) => Err(error),
        (Ok(staged_count), Ok(unstaged_count)) => Ok(classify(staged_count, unstaged_count)),
    }
}

/// Decides how a run goes on after the staging area was classified.
pub fn staging_action(status: &StagingStatus, hook: bool, stage_all: bool) -> (action: StagingAction)
    ensures
        action == staging_action_of(*status, hook, stage_all),
{
    match status {
        StagingStatus::Empty => {
            if !hook && !stage_all {
                StagingAction::Abort
            } else {
                StagingAction::Proceed
            }
        },
        StagingStatus::Partial { .. } => StagingAction::Warn,
        StagingStatus::Ready { .. } => StagingAction::Proceed,
    }
}

} // verus!
