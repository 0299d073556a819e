use crate::text::{push_str_chars, string_of};
use vstd::prelude::*;

verus! {

/// Failures of the single-shot stash operation.
#[derive(Debug, Clone, Copy, PartialEq, Eq, Structural)]
pub enum GitOperationError {
    NoChangesToCommit,
    NotOnABranch,
    FailedToFetchChanges,
    FailedToDiscardChanges,
    FailedToCheckoutBranch,
    GitStatusError,
}

/// The message shown for each operation error.
pub open spec fn operation_message(e: GitOperationError) -> Seq<char> {
    match e {
        GitOperationError::NoChangesToCommit => "No changes to commit."@,
        GitOperationError::NotOnABranch => "Failed to determine the current branch."@,
        GitOperationError::FailedToFetchChanges => "Failed to fetch changes from origin."@,
        GitOperationError::FailedToDiscardChanges => "Failed to discard local changes."@,
        GitOperationError::FailedToCheckoutBranch => "Failed to checkout the new branch."@,
        GitOperationError::GitStatusError => "Failed to execute git status command."@,
    }
}

impl GitOperationError {
    /// The human-readable message of the error (what `Display` shows).
    pub fn message(&self) -> (m: String)
        ensures
            m@ == operation_message(*self),
    {
        let text = match self {
            GitOperationError::NoChangesToCommit => "No changes to commit.",
            GitOperationError::NotOnABranch => "Failed to determine the current branch.",
            GitOperationError::FailedToFetchChanges => "Failed to fetch changes from origin.",
            GitOperationError::FailedToDiscardChanges => "Failed to discard local changes.",
            GitOperationError::FailedToCheckoutBranch => "Failed to checkout the new branch.",
            GitOperationError::GitStatusError => "Failed to execute git status command.",
        };
        let mut buf: Vec<char> = Vec::new();
        push_str_chars(&mut buf, text);
        assert(buf@ =~= text@);
        string_of(&buf)
    }
}

/// Whether there is anything to commit, from what `git status --porcelain` wrote to
/// its standard output (`None` when git could not be started): an empty output means
/// no changes.
pub fn has_git_changes(status_stdout: Option<&Vec<u8>>) -> (r: Result<(), GitOperationError>)
    ensures
        status_stdout is None ==> r == Err::<(), GitOperationError>(GitOperationError::GitStatusError),
        status_stdout matches Some(out) ==> (out@.len() == 0 <==> r == Err::<(), GitOperationError>(
            GitOperationError::NoChangesToCommit,
        )) && (out@.len() > 0 <==> r is Ok),
{
    match status_stdout {
        Some(out) => {
            if out.len() == 0 {
                Err(GitOperationError::NoChangesToCommit)
            } else {
                Ok(())
            }
        },
        None => Err(GitOperationError::GitStatusError),
    }
}

} // verus!
