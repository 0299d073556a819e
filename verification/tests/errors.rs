use pairs::error::PairsError;
use pairs::git_operation::{has_git_changes, GitOperationError};
use pairs::git::setup_check_args;
use pairs::git_validation::{validate_git_setup, CheckReport, GitValidationError, SetupCheck, SetupStep};

#[test]
fn pairs_error_messages() {
    assert_eq!(PairsError::GitCommandFailed(String::from("x")).message(), "Git command failed: x");
    assert_eq!(PairsError::UnknownPin(999).message(), "Unknown pin: 999");
    assert_eq!(PairsError::InvalidPin(String::from("abc")).message(), "Invalid pin: abc, must be a number");
    assert_eq!(PairsError::NoPinsFound.message(), "No pins found.");
    assert_eq!(PairsError::NothingToStash.message(), "Working tree is clean, nothing to stash.");
    assert_eq!(PairsError::NotAGitRepository.message(), "Not within a git repository.");
    assert_eq!(PairsError::NoRemoteOrigin.message(), "No remote named 'origin' found.");
    assert_eq!(PairsError::NoCommitsYet.message(), "The repository has no commits yet.");
    assert_eq!(PairsError::UserAborted.message(), "Aborted by user.");
}

#[test]
fn io_error_message_carries_the_io_error() {
    let err = PairsError::from(std::io::Error::new(std::io::ErrorKind::Other, "disk gone"));
    assert!(matches!(err, PairsError::Io(_)));
    assert_eq!(err.message(), "IO error: disk gone");
}

#[test]
fn operation_error_messages() {
    assert_eq!(GitOperationError::NoChangesToCommit.message(), "No changes to commit.");
    assert_eq!(GitOperationError::NotOnABranch.message(), "Failed to determine the current branch.");
    assert_eq!(GitOperationError::FailedToFetchChanges.message(), "Failed to fetch changes from origin.");
    assert_eq!(GitOperationError::FailedToDiscardChanges.message(), "Failed to discard local changes.");
    assert_eq!(GitOperationError::FailedToCheckoutBranch.message(), "Failed to checkout the new branch.");
    assert_eq!(GitOperationError::GitStatusError.message(), "Failed to execute git status command.");
}

#[test]
fn git_changes_come_from_status_output() {
    assert_eq!(has_git_changes(None), Err(GitOperationError::GitStatusError));
    assert_eq!(has_git_changes(Some(&Vec::new())), Err(GitOperationError::NoChangesToCommit));
    assert_eq!(has_git_changes(Some(&b" M file\n".to_vec())), Ok(()));
}

#[test]
fn validation_error_messages() {
    assert_eq!(GitValidationError::GitNotAvailable.message(), "Git is not installed or not available in PATH.");
    assert_eq!(GitValidationError::NotAGitRepository.message(), "Current directory is not a Git repository.");
    assert_eq!(
        GitValidationError::UserNameNotSet.message(),
        "Git user.name is not set. Please configure it using `git config --global user.name \"Your Name\"`."
    );
    assert_eq!(
        GitValidationError::UserEmailNotSet.message(),
        "Git user.email is not set. Please configure it using `git config --global user.email \"Your Email\"`."
    );
    assert_eq!(
        GitValidationError::RemoteOriginNotSet.message(),
        "Git remote origin is not set. Please configure it using `git remote add origin <url>`."
    );
}

/// What a check's git command reports: it passes unless named in `failing`.
fn report(failing: &[SetupCheck], check: SetupCheck) -> CheckReport {
    let fails = failing.contains(&check);
    match check {
        SetupCheck::GitInstalled => if fails { None } else { Some((true, b"git version 2.43.0\n".to_vec())) },
        SetupCheck::GitRepository => Some((!fails, b".git\n".to_vec())),
        _ => Some((true, if fails { Vec::new() } else { b"value\n".to_vec() })),
    }
}

/// Checks the setup step by step with `run` making each check; the checks made are
/// recorded in `made`.
fn drive(
    run: impl Fn(SetupCheck) -> CheckReport,
    made: &mut Vec<SetupCheck>,
) -> Result<(), GitValidationError> {
    let mut last = None;
    loop {
        match validate_git_setup(last) {
            SetupStep::Run(check) => {
                made.push(check);
                last = Some((check, run(check)));
            }
            SetupStep::Done(verdict) => return verdict,
        }
    }
}

const ALL_CHECKS: [SetupCheck; 5] = [
    SetupCheck::GitInstalled,
    SetupCheck::GitRepository,
    SetupCheck::UserName,
    SetupCheck::UserEmail,
    SetupCheck::RemoteOrigin,
];

#[test]
fn git_setup_passes_when_every_check_passes() {
    let mut made = Vec::new();
    assert_eq!(drive(|c| report(&[], c), &mut made), Ok(()));
    assert_eq!(made, ALL_CHECKS.to_vec());
}

#[test]
fn git_setup_reports_the_first_failing_check() {
    let cases = [
        (vec![SetupCheck::GitInstalled, SetupCheck::UserName], GitValidationError::GitNotAvailable, 1),
        (vec![SetupCheck::GitRepository, SetupCheck::UserName], GitValidationError::NotAGitRepository, 2),
        (vec![SetupCheck::UserName, SetupCheck::UserEmail], GitValidationError::UserNameNotSet, 3),
        (vec![SetupCheck::UserEmail], GitValidationError::UserEmailNotSet, 4),
        (vec![SetupCheck::RemoteOrigin], GitValidationError::RemoteOriginNotSet, 5),
    ];
    for (failing, error, count) in cases {
        let mut made = Vec::new();
        assert_eq!(drive(|c| report(&failing, c), &mut made), Err(error));
        assert_eq!(made, ALL_CHECKS[..count].to_vec());
    }
}

#[test]
fn git_repository_check_fails_when_git_cannot_start_there() {
    let mut made = Vec::new();
    let result = drive(
        |check| match check {
            SetupCheck::GitInstalled => Some((true, Vec::new())),
            _ => None,
        },
        &mut made,
    );
    assert_eq!(result, Err(GitValidationError::NotAGitRepository));
    assert_eq!(made, ALL_CHECKS[..2].to_vec());
}

#[test]
fn setup_checks_run_the_expected_git_commands() {
    assert_eq!(setup_check_args(SetupCheck::GitInstalled), vec!["--version"]);
    assert_eq!(setup_check_args(SetupCheck::GitRepository), vec!["rev-parse", "--git-dir"]);
    assert_eq!(setup_check_args(SetupCheck::UserName), vec!["config", "--get", "user.name"]);
    assert_eq!(setup_check_args(SetupCheck::UserEmail), vec!["config", "--get", "user.email"]);
    assert_eq!(setup_check_args(SetupCheck::RemoteOrigin), vec!["config", "--get", "remote.origin.url"]);
}

#[test]
fn no_setup_check_follows_a_failing_one() {
    let failed = Some((SetupCheck::UserName, Some((true, Vec::new()))));
    assert!(matches!(validate_git_setup(failed), SetupStep::Done(Err(GitValidationError::UserNameNotSet))));
    assert!(matches!(validate_git_setup(None), SetupStep::Run(SetupCheck::GitInstalled)));
    let passed = Some((SetupCheck::RemoteOrigin, Some((true, b"url".to_vec()))));
    assert!(matches!(validate_git_setup(passed), SetupStep::Done(Ok(()))));
}
