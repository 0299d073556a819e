use crate::text::{push_str_chars, string_of};
use vstd::prelude::*;

verus! {

/// What is missing for `pairs` to work in a directory.
#[derive(Debug, Clone, Copy, PartialEq, Eq, Structural)]
pub enum GitValidationError {
    GitNotAvailable,
    NotAGitRepository,
    UserNameNotSet,
    UserEmailNotSet,
    RemoteOriginNotSet,
}

/// The message shown for each validation error.
pub open spec fn validation_message(e: GitValidationError) -> Seq<char> {
    match e {
        GitValidationError::GitNotAvailable => "Git is not installed or not available in PATH."@,
        GitValidationError::NotAGitRepository => "Current directory is not a Git repository."@,
        GitValidationError::UserNameNotSet => "Git user.name is not set. Please configure it using `git config --global user.name \"Your Name\"`."@,
        GitValidationError::UserEmailNotSet => "Git user.email is not set. Please configure it using `git config --global user.email \"Your Email\"`."@,
        GitValidationError::RemoteOriginNotSet => "Git remote origin is not set. Please configure it using `git remote add origin <url>`."@,
    }
}

impl GitValidationError {
    /// The human-readable message of the error (what `Display` shows).
    pub fn message(&self) -> (m: String)
        ensures
            m@ == validation_message(*self),
    {
        let text = match self {
            GitValidationError::GitNotAvailable => "Git is not installed or not available in PATH.",
            GitValidationError::NotAGitRepository => "Current directory is not a Git repository.",
            GitValidationError::UserNameNotSet => "Git user.name is not set. Please configure it using `git config --global user.name \"Your Name\"`.",
            GitValidationError::UserEmailNotSet => "Git user.email is not set. Please configure it using `git config --global user.email \"Your Email\"`.",
            GitValidationError::RemoteOriginNotSet => "Git remote origin is not set. Please configure it using `git remote add origin <url>`.",
        };
        let mut buf: Vec<char> = Vec::new();
        push_str_chars(&mut buf, text);
        assert(buf@ =~= text@);
        string_of(&buf)
    }
}

/// A setup check, each made by running one git command.
#[derive(Debug, Clone, Copy, PartialEq, Eq, Structural)]
pub enum SetupCheck {
    /// `git --version`: git can be started.
    GitInstalled,
    /// `git rev-parse --git-dir`: the directory is inside a repository.
    GitRepository,
    /// `git config --get user.name`: a user name is set.
    UserName,
    /// `git config --get user.email`: a user email is set.
    UserEmail,
    /// `git config --get remote.origin.url`: the remote `origin` is set.
    RemoteOrigin,
}

/// The number of setup checks.
pub const SETUP_CHECKS: usize = 5;

/// The `i`-th setup check, in the order they are made.
pub open spec fn setup_check(i: int) -> SetupCheck {
    if i == 0 {
        SetupCheck::GitInstalled
    } else if i == 1 {
        SetupCheck::GitRepository
    } else if i == 2 {
        SetupCheck::UserName
    } else if i == 3 {
        SetupCheck::UserEmail
    } else {
        SetupCheck::RemoteOrigin
    }
}

/// What running a check's git command gave: `None` when it could not be started,
/// else whether it exited successfully and what it wrote to its standard output.
pub type CheckReport = Option<(bool, Vec<u8>)>;

/// Whether `report` passes `check`: git could be started; the repository query
/// succeeded; a configuration query printed a value.
pub open spec fn check_passes(check: SetupCheck, report: CheckReport) -> bool {
    match check {
        SetupCheck::GitInstalled => report is Some,
        SetupCheck::GitRepository => report matches Some((success, _)) && success,
        _ => report matches Some((_, stdout)) && stdout@.len() > 0,
    }
}

/// The error a failed `check` is reported with.
pub open spec fn check_error(check: SetupCheck) -> GitValidationError {
    match check {
        SetupCheck::GitInstalled => GitValidationError::GitNotAvailable,
        SetupCheck::GitRepository => GitValidationError::NotAGitRepository,
        SetupCheck::UserName => GitValidationError::UserNameNotSet,
        SetupCheck::UserEmail => GitValidationError::UserEmailNotSet,
        SetupCheck::RemoteOrigin => GitValidationError::RemoteOriginNotSet,
    }
}

/// The check made after `check` passes, if any.
pub open spec fn check_after(check: SetupCheck) -> Option<SetupCheck> {
    match check {
        SetupCheck::GitInstalled => Some(SetupCheck::GitRepository),
        SetupCheck::GitRepository => Some(SetupCheck::UserName),
        SetupCheck::UserName => Some(SetupCheck::UserEmail),
        SetupCheck::UserEmail => Some(SetupCheck::RemoteOrigin),
        SetupCheck::RemoteOrigin => None,
    }
}

/// What comes next while checking the setup: a check to make, or the verdict.
#[derive(Debug)]
pub enum SetupStep {
    Run(SetupCheck),
    Done(Result<(), GitValidationError>),
}

/// The step after the check `last` made gave its report (`None`: no check was made
/// yet): the first check; after a failing check, its error and no more checks;
/// after a passing one, the following check, or success after the last.
pub open spec fn setup_next(last: Option<(SetupCheck, CheckReport)>) -> SetupStep {
    match last {
        None => SetupStep::Run(SetupCheck::GitInstalled),
        Some((check, report)) => if !check_passes(check, report) {
            SetupStep::Done(Err(check_error(check)))
        } else {
            match check_after(check) {
                Some(following) => SetupStep::Run(following),
                None => SetupStep::Done(Ok(())),
            }
        },
    }
}

fn report_passes(check: SetupCheck, report: &CheckReport) -> (b: bool)
    ensures
        b == check_passes(check, *report),
{
    match check {
        SetupCheck::GitInstalled => report.is_some(),
        SetupCheck::GitRepository => match report {
            Some((success, _)) => *success,
            None => false,
        },
        _ => match report {
            Some((_, stdout)) => stdout.len() > 0,
            None => false,
        },
    }
}

fn error_of(check: SetupCheck) -> (e: GitValidationError)
    ensures
        e == check_error(check),
{
    match check {
        SetupCheck::GitInstalled => GitValidationError::GitNotAvailable,
        SetupCheck::GitRepository => GitValidationError::NotAGitRepository,
        SetupCheck::UserName => GitValidationError::UserNameNotSet,
        SetupCheck::UserEmail => GitValidationError::UserEmailNotSet,
        SetupCheck::RemoteOrigin => GitValidationError::RemoteOriginNotSet,
    }
}

/// One step of checking that git is set up for `pairs`. The checks are git
/// installed, inside a repository, user name set, user email set, remote `origin`
/// set, made in that order; `last` is the check made last with what its git command
/// reported (`None` before the first). The caller makes the check this returns and
/// calls again with its report, until the verdict comes: the error of the first
/// check that failed, after which no check is made, or success.
pub fn validate_git_setup(last: Option<(SetupCheck, CheckReport)>) -> (step: SetupStep)
    ensures
        step == setup_next(last),
{
    match last {
        None => SetupStep::Run(SetupCheck::GitInstalled),
        Some((check, report)) => {
            if !report_passes(check, &report) {
                return SetupStep::Done(Err(error_of(check)));
            }
            match check {
                SetupCheck::GitInstalled => SetupStep::Run(SetupCheck::GitRepository),
                SetupCheck::GitRepository => SetupStep::Run(SetupCheck::UserName),
                SetupCheck::UserName => SetupStep::Run(SetupCheck::UserEmail),
                SetupCheck::UserEmail => SetupStep::Run(SetupCheck::RemoteOrigin),
                SetupCheck::RemoteOrigin => SetupStep::Done(Ok(())),
            }
        },
    }
}

/// Law: the checks come in their order: the `i`-th check, when it passes, is
/// followed by the next one (the last by success); when it fails, by its error and
/// nothing more.
pub proof fn lemma_setup_checks_in_order(i: int, report: CheckReport)
    requires
        0 <= i < SETUP_CHECKS,
    ensures
        setup_next(None) == SetupStep::Run(setup_check(0)),
        !check_passes(setup_check(i), report) ==> setup_next(Some((setup_check(i), report)))
            == SetupStep::Done(Err(check_error(setup_check(i)))),
        check_passes(setup_check(i), report) && i + 1 < SETUP_CHECKS ==> setup_next(
            Some((setup_check(i), report)),
        ) == SetupStep::Run(setup_check(i + 1)),
        check_passes(setup_check(i), report) && i + 1 == SETUP_CHECKS ==> setup_next(
            Some((setup_check(i), report)),
        ) == SetupStep::Done(Ok(())),
{
}

} // verus!
