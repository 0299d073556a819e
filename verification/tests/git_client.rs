use pairs::error::PairsError;
use pairs::git_client::{
    captured_outcome, commits_verdict, parse_stash_entries, pin_from_random, pin_search_attempt,
    pin_search_step, random_pin, remote_branch_listed, repository_verdict, streaming_outcome,
    working_tree_is_clean, GitClient, Pin, StashEntry,
};
use std::cell::RefCell;

fn args(list: &[&str]) -> Vec<String> {
    list.iter().map(|s| s.to_string()).collect()
}

#[test]
fn pin_names_its_branch() {
    let pin = Pin::new(123);
    assert_eq!(pin.branch_name(), "pairs/123");
    assert_eq!(pin.as_str(), "123");
    assert_eq!(pin.as_u16(), 123);
    assert_eq!(Pin::new(0).branch_name(), "pairs/0");
    assert_eq!(Pin::new(65535).branch_name(), "pairs/65535");
}

#[test]
fn distinct_pins_have_distinct_branches() {
    assert_ne!(Pin::new(12).branch_name(), Pin::new(120).branch_name());
    assert_ne!(Pin::new(1).branch_name(), Pin::new(11).branch_name());
}

#[test]
fn pin_from_random_maps_into_three_digits() {
    assert_eq!(pin_from_random(0).as_u16(), 100);
    assert_eq!(pin_from_random(899).as_u16(), 999);
    assert_eq!(pin_from_random(900).as_u16(), 100);
    assert_eq!(pin_from_random(65535).as_u16(), 835);
}

#[test]
fn random_pins_have_three_digits() {
    for _ in 0..200 {
        let pin = random_pin().unwrap().as_u16();
        assert!((100..=999).contains(&pin));
    }
}

#[test]
fn stash_entries_are_read_from_each_line() {
    let output = "origin/pairs/123\u{1d}Alice\u{1d}2 days ago\norigin/pairs/456\u{1d}Bob\u{1d}3 hours ago";
    let entries = parse_stash_entries(output);
    assert_eq!(entries.len(), 2);
    assert_eq!(entries[0].pin.as_u16(), 123);
    assert_eq!(entries[0].author, "Alice");
    assert_eq!(entries[0].created_at, "2 days ago");
    assert_eq!(entries[1].pin.as_u16(), 456);
    assert_eq!(entries[1].author, "Bob");
    assert_eq!(entries[1].created_at, "3 hours ago");
}

#[test]
fn stash_lines_without_a_pin_are_skipped() {
    let output = "origin/pairs/abc\u{1d}Alice\u{1d}now\nno separators here\norigin/pairs/7\u{1d}only one field\n\norigin/pairs/99999\u{1d}X\u{1d}Y\norigin/pairs/8\u{1d}Eve\u{1d}then";
    let entries = parse_stash_entries(output);
    assert_eq!(entries.len(), 1);
    assert_eq!(entries[0].pin.as_u16(), 8);
    assert_eq!(entries[0].author, "Eve");
    assert_eq!(entries[0].created_at, "then");
}

#[test]
fn stash_lines_follow_std_line_and_field_rules() {
    let output = "origin/pairs/origin/pairs/7\u{1d}A\u{1d}x\u{1d}y\r\n+5\u{1d}\u{1d}\r\norigin/pairs/9\u{1d}B\u{1d}last\r";
    let entries = parse_stash_entries(output);
    assert_eq!(entries.len(), 3);
    assert_eq!(entries[0].pin.as_u16(), 7);
    assert_eq!(entries[0].created_at, "x\u{1d}y");
    assert_eq!(entries[1].pin.as_u16(), 5);
    assert_eq!(entries[1].author, "");
    assert_eq!(entries[1].created_at, "");
    assert_eq!(entries[2].created_at, "last\r");
}

#[test]
fn empty_stash_list_has_no_entries() {
    assert!(parse_stash_entries("").is_empty());
    assert!(parse_stash_entries("\n\n").is_empty());
}

#[test]
fn printed_stash_line_reads_back() {
    for (pin, author, date) in [(0u16, "", ""), (123, "Ada Lovelace", "5 minutes ago"), (65535, "x", "\n")] {
        let line = format!("origin/pairs/{pin}\u{1d}{author}\u{1d}{date}");
        let entries = parse_stash_entries(&line);
        if date.contains('\n') {
            assert_eq!(entries.len(), 1);
            assert_eq!(entries[0].created_at, "");
        } else {
            assert_eq!(entries.len(), 1);
            assert_eq!(entries[0].pin.as_u16(), pin);
            assert_eq!(entries[0].author, author);
            assert_eq!(entries[0].created_at, date);
        }
    }
}

#[test]
fn captured_output_is_trimmed() {
    let result = captured_outcome(&args(&["status", "--porcelain"]), true, "  M file\n", "");
    assert_eq!(result.unwrap(), "M file");
}

#[test]
fn captured_failure_names_the_command() {
    let result = captured_outcome(&args(&["rev-parse", "HEAD"]), false, "", "fatal: bad\n");
    assert_eq!(result.unwrap_err().message(), "Git command failed: Command 'git rev-parse HEAD' failed: fatal: bad");
}

#[test]
fn streaming_failure_names_the_command_and_status() {
    assert!(streaming_outcome(&args(&["checkout", "main"]), true, "exit status: 0").is_ok());
    let result = streaming_outcome(&args(&["checkout", "main"]), false, "exit status: 1");
    assert_eq!(
        result.unwrap_err().message(),
        "Git command failed: Command 'git checkout main' exited with status exit status: 1"
    );
}

#[test]
fn remote_branch_is_listed_when_ls_remote_prints_something() {
    assert!(!remote_branch_listed(""));
    assert!(!remote_branch_listed("  \n"));
    assert!(remote_branch_listed("abc123\trefs/heads/pairs/1\n"));
}

#[test]
fn working_tree_is_clean_when_status_prints_nothing() {
    assert!(working_tree_is_clean(""));
    assert!(!working_tree_is_clean("M a.txt"));
}

#[test]
fn repository_verdict_checks_repository_then_origin() {
    assert!(matches!(repository_verdict(false, true), Err(PairsError::NotAGitRepository)));
    assert!(matches!(repository_verdict(false, false), Err(PairsError::NotAGitRepository)));
    assert!(matches!(repository_verdict(true, false), Err(PairsError::NoRemoteOrigin)));
    assert!(repository_verdict(true, true).is_ok());
}

#[test]
fn current_branch_needs_a_commit() {
    assert!(commits_verdict(true).is_ok());
    assert!(matches!(commits_verdict(false), Err(PairsError::NoCommitsYet)));
}

#[test]
fn pin_search_step_decides_on_the_remote_answer() {
    let pin = Pin::new(321);
    assert_eq!(pin_search_step(pin, Ok(false)).unwrap().map(|p| p.as_u16()), Some(321));
    assert!(pin_search_step(pin, Ok(true)).unwrap().is_none());
    assert!(matches!(
        pin_search_step(pin, Err(PairsError::NotAGitRepository)),
        Err(PairsError::NotAGitRepository)
    ));
}

/// A remote that answers whether a pin's branch exists with a fixed answer (`None`:
/// the question fails), and records the pins asked about.
struct Remote {
    answer: Option<bool>,
    asked: RefCell<Vec<u16>>,
}

impl GitClient for Remote {
    fn remote_branch_exists(&mut self, pin: &Pin) -> Result<bool, PairsError> {
        self.asked.borrow_mut().push(pin.as_u16());
        self.answer.ok_or_else(|| PairsError::GitCommandFailed("offline".to_string()))
    }
    fn is_working_tree_clean(&mut self) -> Result<bool, PairsError> {
        unreachable!()
    }
    fn has_commits(&mut self) -> Result<bool, PairsError> {
        unreachable!()
    }
    fn current_branch(&mut self) -> Result<String, PairsError> {
        unreachable!()
    }
    fn fetch_all(&mut self) -> Result<(), PairsError> {
        unreachable!()
    }
    fn generate_unique_pin(&mut self) -> Result<Pin, PairsError> {
        unreachable!()
    }
    fn checkout_new_branch(&mut self, _branch: &str) -> Result<(), PairsError> {
        unreachable!()
    }
    fn add_all(&mut self) -> Result<(), PairsError> {
        unreachable!()
    }
    fn commit_no_verify(&mut self, _message: &str) -> Result<(), PairsError> {
        unreachable!()
    }
    fn push_set_upstream(&mut self, _branch: &str) -> Result<(), PairsError> {
        unreachable!()
    }
    fn checkout(&mut self, _branch: &str) -> Result<(), PairsError> {
        unreachable!()
    }
    fn delete_branch_local(&mut self, _branch: &str) -> Result<(), PairsError> {
        unreachable!()
    }
    fn delete_branch_remote(&mut self, _branch: &str) -> Result<(), PairsError> {
        unreachable!()
    }
    fn reset_hard_head(&mut self) -> Result<(), PairsError> {
        unreachable!()
    }
    fn clean_fd(&mut self) -> Result<(), PairsError> {
        unreachable!()
    }
    fn merge_squash_no_commit(&mut self, _branch: &str) -> Result<(), PairsError> {
        unreachable!()
    }
    fn list_stash_entries(&mut self) -> Result<Vec<StashEntry>, PairsError> {
        unreachable!()
    }
    fn pull_rebase(&mut self) -> Result<(), PairsError> {
        unreachable!()
    }
    fn reset_mixed(&mut self) -> Result<(), PairsError> {
        unreachable!()
    }
    fn validate_repository(&mut self) -> Result<(), PairsError> {
        unreachable!()
    }
}

#[test]
fn pin_search_attempt_keeps_a_pin_the_remote_lacks() {
    let mut remote = Remote { answer: Some(false), asked: RefCell::new(Vec::new()) };
    let pin = pin_search_attempt(&mut remote).unwrap().unwrap().as_u16();
    assert!((100..=999).contains(&pin));
    assert_eq!(remote.asked.into_inner(), vec![pin]);
}

#[test]
fn pin_search_attempt_draws_again_for_a_listed_pin() {
    let mut remote = Remote { answer: Some(true), asked: RefCell::new(Vec::new()) };
    assert!(pin_search_attempt(&mut remote).unwrap().is_none());
    assert_eq!(remote.asked.into_inner().len(), 1);
}

#[test]
fn pin_search_attempt_passes_the_error_on() {
    let mut remote = Remote { answer: None, asked: RefCell::new(Vec::new()) };
    match pin_search_attempt(&mut remote) {
        Err(PairsError::GitCommandFailed(message)) => assert_eq!(message, "offline"),
        other => panic!("unexpected result: {other:?}"),
    }
}
