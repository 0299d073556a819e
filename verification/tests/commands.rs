use pairs::cli::{Cli, PairsCommand};
use pairs::commands::apply::ApplyCommand;
use pairs::commands::session::{Session, Step};
use pairs::commands::{advance, dispatch};
use pairs::commands::list::ListCommand;
use pairs::commands::pop::PopCommand;
use pairs::commands::stash::StashCommand;
use pairs::commands::ExecutableCommand;
use pairs::error::PairsError;
use pairs::git_client::{GitClient, Pin, StashEntry};
use pairs::prompter::Prompter;
use std::cell::RefCell;

type Handler<T> = Option<Box<dyn Fn(&str) -> Result<T, PairsError>>>;

/// A git client that answers from canned handlers and records every call.
/// A call without a handler fails the test.
#[derive(Default)]
struct MockGit {
    log: RefCell<Vec<String>>,
    validate_repository: Handler<()>,
    is_working_tree_clean: Handler<bool>,
    has_commits: Handler<bool>,
    current_branch: Handler<String>,
    fetch_all: Handler<()>,
    generate_unique_pin: Handler<Pin>,
    remote_branch_exists: Handler<bool>,
    checkout_new_branch: Handler<()>,
    add_all: Handler<()>,
    commit_no_verify: Handler<()>,
    push_set_upstream: Handler<()>,
    checkout: Handler<()>,
    delete_branch_local: Handler<()>,
    delete_branch_remote: Handler<()>,
    reset_hard_head: Handler<()>,
    clean_fd: Handler<()>,
    merge_squash_no_commit: Handler<()>,
    list_stash_entries: Handler<Vec<StashEntry>>,
    pull_rebase: Handler<()>,
    reset_mixed: Handler<()>,
}

impl MockGit {
    fn call<T>(&self, name: &str, handler: &Handler<T>, arg: &str) -> Result<T, PairsError> {
        self.log.borrow_mut().push(format!("{name}({arg})"));
        match handler {
            Some(f) => f(arg),
            None => panic!("unexpected call: {name}({arg})"),
        }
    }

    fn calls(&self) -> Vec<String> {
        self.log.borrow().clone()
    }
}

impl GitClient for MockGit {
    fn is_working_tree_clean(&mut self) -> Result<bool, PairsError> {
        self.call("is_working_tree_clean", &self.is_working_tree_clean, "")
    }
    fn has_commits(&mut self) -> Result<bool, PairsError> {
        self.call("has_commits", &self.has_commits, "")
    }
    fn current_branch(&mut self) -> Result<String, PairsError> {
        self.call("current_branch", &self.current_branch, "")
    }
    fn fetch_all(&mut self) -> Result<(), PairsError> {
        self.call("fetch_all", &self.fetch_all, "")
    }
    fn generate_unique_pin(&mut self) -> Result<Pin, PairsError> {
        self.call("generate_unique_pin", &self.generate_unique_pin, "")
    }
    fn remote_branch_exists(&mut self, pin: &Pin) -> Result<bool, PairsError> {
        self.call("remote_branch_exists", &self.remote_branch_exists, &pin.as_u16().to_string())
    }
    fn checkout_new_branch(&mut self, branch: &str) -> Result<(), PairsError> {
        self.call("checkout_new_branch", &self.checkout_new_branch, branch)
    }
    fn add_all(&mut self) -> Result<(), PairsError> {
        self.call("add_all", &self.add_all, "")
    }
    fn commit_no_verify(&mut self, message: &str) -> Result<(), PairsError> {
        self.call("commit_no_verify", &self.commit_no_verify, message)
    }
    fn push_set_upstream(&mut self, branch: &str) -> Result<(), PairsError> {
        self.call("push_set_upstream", &self.push_set_upstream, branch)
    }
    fn checkout(&mut self, branch: &str) -> Result<(), PairsError> {
        self.call("checkout", &self.checkout, branch)
    }
    fn delete_branch_local(&mut self, branch: &str) -> Result<(), PairsError> {
        self.call("delete_branch_local", &self.delete_branch_local, branch)
    }
    fn delete_branch_remote(&mut self, branch: &str) -> Result<(), PairsError> {
        self.call("delete_branch_remote", &self.delete_branch_remote, branch)
    }
    fn reset_hard_head(&mut self) -> Result<(), PairsError> {
        self.call("reset_hard_head", &self.reset_hard_head, "")
    }
    fn clean_fd(&mut self) -> Result<(), PairsError> {
        self.call("clean_fd", &self.clean_fd, "")
    }
    fn merge_squash_no_commit(&mut self, branch: &str) -> Result<(), PairsError> {
        self.call("merge_squash_no_commit", &self.merge_squash_no_commit, branch)
    }
    fn list_stash_entries(&mut self) -> Result<Vec<StashEntry>, PairsError> {
        self.call("list_stash_entries", &self.list_stash_entries, "")
    }
    fn pull_rebase(&mut self) -> Result<(), PairsError> {
        self.call("pull_rebase", &self.pull_rebase, "")
    }
    fn reset_mixed(&mut self) -> Result<(), PairsError> {
        self.call("reset_mixed", &self.reset_mixed, "")
    }
    fn validate_repository(&mut self) -> Result<(), PairsError> {
        self.call("validate_repository", &self.validate_repository, "")
    }
}

type ConfirmHandler = Option<Box<dyn Fn(&str, bool) -> Result<bool, PairsError>>>;
type SelectHandler = Option<Box<dyn Fn(&str, &[String], usize) -> Result<usize, PairsError>>>;

/// A prompter that answers from canned handlers; a question without a handler fails the test.
#[derive(Default)]
struct MockPrompter {
    confirm: ConfirmHandler,
    select: SelectHandler,
}

impl Prompter for MockPrompter {
    fn confirm(&mut self, prompt: &str, default: bool) -> Result<bool, PairsError> {
        match &self.confirm {
            Some(f) => f(prompt, default),
            None => panic!("unexpected confirm: {prompt}"),
        }
    }
    fn select(&mut self, prompt: &str, items: &[String], default: usize) -> Result<usize, PairsError> {
        match &self.select {
            Some(f) => f(prompt, items, default),
            None => panic!("unexpected select: {prompt}"),
        }
    }
}

fn ok() -> Handler<()> {
    Some(Box::new(|_| Ok(())))
}

fn flag(b: bool) -> Handler<bool> {
    Some(Box::new(move |_| Ok(b)))
}

fn branch(name: &'static str) -> Handler<String> {
    Some(Box::new(move |_| Ok(String::from(name))))
}

fn ok_with(expected: &'static str) -> Handler<()> {
    Some(Box::new(move |arg| {
        assert_eq!(arg, expected);
        Ok(())
    }))
}

fn entries(list: Vec<(u16, &'static str, &'static str)>) -> Handler<Vec<StashEntry>> {
    Some(Box::new(move |_| {
        Ok(list
            .iter()
            .map(|(pin, author, created_at)| StashEntry {
                pin: Pin::new(*pin),
                author: String::from(*author),
                created_at: String::from(*created_at),
            })
            .collect())
    }))
}

fn answer_confirm(answer: bool) -> ConfirmHandler {
    Some(Box::new(move |_, _| Ok(answer)))
}

fn apply_ready_git() -> MockGit {
    MockGit {
        validate_repository: ok(),
        pull_rebase: ok(),
        current_branch: branch("main"),
        fetch_all: ok(),
        remote_branch_exists: flag(true),
        checkout: ok(),
        merge_squash_no_commit: ok(),
        reset_mixed: ok(),
        ..Default::default()
    }
}

fn error_text(result: Result<(), PairsError>) -> String {
    result.unwrap_err().message()
}

// ----- apply -----

#[test]
fn merges_and_deletes_branch_on_existing_pin() {
    let apply_command = ApplyCommand::new(Pin::new(123));
    let mut mock_git_client = MockGit {
        delete_branch_local: ok_with("pairs/123"),
        delete_branch_remote: ok_with("pairs/123"),
        ..apply_ready_git()
    };
    let mut mock_prompter = MockPrompter { confirm: answer_confirm(true), ..Default::default() };
    let mut output: Vec<String> = Vec::new();

    let result = apply_command.execute(&mut mock_prompter, &mut mock_git_client, &mut output);

    assert!(result.is_ok());
    assert_eq!(
        mock_git_client.calls(),
        vec![
            "validate_repository()",
            "pull_rebase()",
            "current_branch()",
            "fetch_all()",
            "remote_branch_exists(123)",
            "checkout(pairs/123)",
            "pull_rebase()",
            "checkout(main)",
            "merge_squash_no_commit(pairs/123)",
            "reset_mixed()",
            "delete_branch_local(pairs/123)",
            "delete_branch_remote(pairs/123)",
        ]
    );
}

#[test]
fn merges_and_keeps_branch_on_existing_pin() {
    let apply_command = ApplyCommand::new(Pin::new(123));
    let mut mock_git_client = apply_ready_git();
    let mut mock_prompter = MockPrompter { confirm: answer_confirm(false), ..Default::default() };
    let mut output: Vec<String> = Vec::new();

    let result = apply_command.execute(&mut mock_prompter, &mut mock_git_client, &mut output);

    assert!(result.is_ok());
    let calls = mock_git_client.calls();
    assert!(!calls.iter().any(|c| c.starts_with("delete_branch")));
}

#[test]
fn returns_error_on_nonexistent_pin() {
    let apply_command = ApplyCommand::new(Pin::new(999));
    let mut mock_git_client = MockGit {
        validate_repository: ok(),
        pull_rebase: ok(),
        current_branch: branch("main"),
        fetch_all: ok(),
        remote_branch_exists: Some(Box::new(|pin| {
            assert_eq!(pin, "999");
            Ok(false)
        })),
        ..Default::default()
    };
    let mut mock_prompter = MockPrompter::default();
    let mut output: Vec<String> = Vec::new();

    let result = apply_command.execute(&mut mock_prompter, &mut mock_git_client, &mut output);

    assert!(result.is_err());
    let error_message = error_text(result);
    assert!(error_message.contains("Unknown pin: 999"));
}

#[test]
fn returns_error_on_failed_validation() {
    let apply_command = ApplyCommand::new(Pin::new(123));
    let mut mock_git_client = MockGit {
        validate_repository: Some(Box::new(|_| Err(PairsError::NotAGitRepository))),
        ..Default::default()
    };
    let mut mock_prompter = MockPrompter::default();
    let mut output: Vec<String> = Vec::new();

    let result = apply_command.execute(&mut mock_prompter, &mut mock_git_client, &mut output);

    assert!(result.is_err());
    let error_message = error_text(result);
    assert!(error_message.contains("Not within a git repository"));
}

// ----- list -----

fn list_git(list: Handler<Vec<StashEntry>>) -> MockGit {
    MockGit { validate_repository: ok(), fetch_all: ok(), list_stash_entries: list, ..Default::default() }
}

#[test]
fn no_stashes_returns_empty_list() {
    let mut mock_git_client = list_git(entries(vec![]));
    let mut mock_prompter = MockPrompter::default();
    let mut output: Vec<String> = Vec::new();

    let result = ListCommand.execute(&mut mock_prompter, &mut mock_git_client, &mut output);

    assert!(result.is_ok());
    assert_eq!(output, vec![String::from("No remote stashes found.")]);
}

#[test]
fn list_stashes_returns_entries() {
    let mut mock_git_client = list_git(entries(vec![
        (123, "Alice", "2024-01-01 12:00:00"),
        (456, "Bob", "2024-01-02 13:30:00"),
    ]));
    let mut mock_prompter = MockPrompter::default();
    let mut output: Vec<String> = Vec::new();

    let result = ListCommand.execute(&mut mock_prompter, &mut mock_git_client, &mut output);

    assert!(result.is_ok());
    assert_eq!(
        output,
        vec![
            String::from("PIN  AUTHOR  CREATED AT"),
            "-".repeat(29),
            String::from("123  Alice   2024-01-01 12:00:00"),
            String::from("456  Bob     2024-01-02 13:30:00"),
        ]
    );
}

#[test]
fn advancing_a_list_session_step_by_step() {
    let mut mock_git_client = list_git(entries(vec![(7, "Ann", "now")]));
    let mut mock_prompter = MockPrompter::default();
    let mut session = Session::list();
    let mut output: Vec<String> = Vec::new();
    let mut steps = 0;
    while !session.finished() {
        let step = advance(&mut session, &mut mock_prompter, &mut mock_git_client, &mut output);
        steps += 1;
        if let Step::Finish(result) = step {
            assert!(result.is_ok());
        }
    }
    assert_eq!(steps, 4);
    assert_eq!(
        mock_git_client.calls(),
        vec!["validate_repository()", "fetch_all()", "list_stash_entries()"]
    );
    assert_eq!(output, vec!["PIN  AUTHOR  CREATED AT", &"-".repeat(29), "7  Ann     now"]);
}

#[test]
fn list_returns_error_on_failed_validation() {
    let mut mock_git_client = MockGit {
        validate_repository: Some(Box::new(|_| Err(PairsError::NotAGitRepository))),
        ..Default::default()
    };
    let mut mock_prompter = MockPrompter::default();
    let mut output: Vec<String> = Vec::new();

    let result = ListCommand.execute(&mut mock_prompter, &mut mock_git_client, &mut output);

    assert!(result.is_err());
    let error_message = error_text(result);
    assert!(error_message.contains("Not within a git repository"));
}

#[test]
fn list_returns_error_on_failed_fetch() {
    let mut mock_git_client = MockGit {
        validate_repository: ok(),
        fetch_all: Some(Box::new(|_| Err(PairsError::GitCommandFailed(String::from("network error"))))),
        ..Default::default()
    };
    let mut mock_prompter = MockPrompter::default();
    let mut output: Vec<String> = Vec::new();

    let result = ListCommand.execute(&mut mock_prompter, &mut mock_git_client, &mut output);

    assert!(result.is_err());
    let error_message = error_text(result);
    assert!(error_message.contains("Git command failed: network error"));
}

// ----- dispatch -----

fn invalid_pin_is_refused(pin_value: &str) {
    let cli = Cli { command: None, pin: Some(pin_value.to_owned()) };
    let mut prompter = MockPrompter::default();
    let mut git_client = MockGit::default();
    let mut output: Vec<String> = Vec::new();

    let result = dispatch(cli, &mut prompter, &mut git_client, &mut output);

    assert!(result.is_err());
    let error_message = error_text(result);
    assert!(error_message.contains("Invalid pin"));
    assert!(error_message.contains(pin_value));
    assert!(git_client.calls().is_empty());
}

#[test]
fn should_fail_on_invalid_pin_value_non_numeric() {
    invalid_pin_is_refused("not-a-number");
}

#[test]
fn should_fail_on_invalid_pin_value_negative() {
    invalid_pin_is_refused("-5");
}

#[test]
fn should_fail_on_invalid_pin_value_empty() {
    invalid_pin_is_refused("");
}

#[test]
fn should_fail_on_invalid_pin_value_too_large() {
    invalid_pin_is_refused("99999");
}

#[test]
fn valid_pin_triggers_apply_command() {
    let cli = Cli { command: None, pin: Some(String::from("666")) };
    let mut mock_git_client = apply_ready_git();
    let mut mock_prompter = MockPrompter { confirm: answer_confirm(false), ..Default::default() };
    let mut output: Vec<String> = Vec::new();

    let result = dispatch(cli, &mut mock_prompter, &mut mock_git_client, &mut output);

    assert!(result.is_ok());
    assert!(mock_git_client.calls().contains(&String::from("remote_branch_exists(666)")));
}

#[test]
fn list_argument_triggers_list_command_execution() {
    let cli = Cli { command: Some(PairsCommand::List), pin: None };
    let mut mock_git_client = list_git(entries(vec![]));
    let mut mock_prompter = MockPrompter::default();
    let mut output: Vec<String> = Vec::new();

    let result = dispatch(cli, &mut mock_prompter, &mut mock_git_client, &mut output);

    assert!(result.is_ok());
}

#[test]
fn pop_fails_when_no_remote_stashes_exist() {
    let cli = Cli { command: Some(PairsCommand::Pop), pin: None };
    let mut mock_git_client = list_git(entries(vec![]));
    let mut mock_prompter = MockPrompter::default();
    let mut output: Vec<String> = Vec::new();

    let result = dispatch(cli, &mut mock_prompter, &mut mock_git_client, &mut output);

    assert!(result.is_err());
    let error_message = error_text(result);
    assert!(error_message.contains("No pins found"));
}

#[test]
fn pop_with_one_stash_entry_pops_it() {
    let cli = Cli { command: Some(PairsCommand::Pop), pin: None };
    let mut mock_git_client = MockGit {
        list_stash_entries: entries(vec![(123, "Alice", "2024-01-01 12:00:00")]),
        ..apply_ready_git()
    };
    let mut mock_prompter = MockPrompter { confirm: answer_confirm(false), ..Default::default() };
    let mut output: Vec<String> = Vec::new();

    let result = dispatch(cli, &mut mock_prompter, &mut mock_git_client, &mut output);

    assert!(result.is_ok());
}

#[test]
fn clean_tree_with_no_arguments_triggers_stash_command() {
    let cli = Cli { command: None, pin: None };
    let mut mock_git_client = MockGit {
        validate_repository: ok(),
        is_working_tree_clean: flag(true),
        ..Default::default()
    };
    let mut mock_prompter = MockPrompter::default();
    let mut output: Vec<String> = Vec::new();

    let result = dispatch(cli, &mut mock_prompter, &mut mock_git_client, &mut output);

    assert!(result.is_err());
    let error_message = error_text(result);
    assert!(error_message.contains("Working tree is clean"));
}

// ----- pop -----

#[test]
fn returns_no_pins_found_when_no_stashes_exist() {
    let mut mock_git_client = list_git(entries(vec![]));
    let mut mock_prompter = MockPrompter::default();
    let mut output: Vec<String> = Vec::new();

    let result = PopCommand.execute(&mut mock_prompter, &mut mock_git_client, &mut output);

    assert!(result.is_err());
    let error_message = error_text(result);
    assert!(error_message.contains("No pins found"));
}

#[test]
fn applies_pin_when_only_one_stash_exists() {
    let mut mock_git_client = MockGit {
        list_stash_entries: entries(vec![(123, "Alice", "2024-06-01 12:00:00")]),
        delete_branch_local: ok(),
        delete_branch_remote: ok(),
        ..apply_ready_git()
    };
    let mut mock_prompter = MockPrompter { confirm: answer_confirm(true), ..Default::default() };
    let mut output: Vec<String> = Vec::new();

    let result = PopCommand.execute(&mut mock_prompter, &mut mock_git_client, &mut output);

    assert!(result.is_ok());
    let output_str = output.join("\n");
    assert!(output_str.contains("Attempting to pop automatically..."));
    assert!(output_str.contains("Trying to pop '123'"));
}

#[test]
fn applies_selected_pin_when_multiple_stashes_exist() {
    let mut mock_git_client = MockGit {
        list_stash_entries: entries(vec![
            (123, "Alice", "2024-06-01 12:00:00"),
            (456, "Bob", "2024-06-02 12:00:00"),
        ]),
        delete_branch_local: ok_with("pairs/456"),
        delete_branch_remote: ok_with("pairs/456"),
        ..apply_ready_git()
    };
    let mut mock_prompter = MockPrompter {
        confirm: answer_confirm(true),
        select: Some(Box::new(|prompt, items, default| {
            assert_eq!(prompt, "Select a stash to pop");
            assert_eq!(default, 0);
            assert_eq!(
                items,
                &[
                    String::from("123       Alice                 2024-06-01 12:00:00"),
                    String::from("456       Bob                   2024-06-02 12:00:00"),
                ]
            );
            Ok(1)
        })),
    };
    let mut output: Vec<String> = Vec::new();

    let result = PopCommand.execute(&mut mock_prompter, &mut mock_git_client, &mut output);

    assert!(result.is_ok());
    let output_str = output.join("\n");
    assert!(output_str.contains("Attempting to pop automatically..."));
    assert!(output_str.contains("Trying to pop '456'"));
}

#[test]
fn pop_fails_on_failed_validation() {
    let mut mock_git_client = MockGit {
        validate_repository: Some(Box::new(|_| Err(PairsError::NoRemoteOrigin))),
        ..Default::default()
    };
    let mut mock_prompter = MockPrompter::default();
    let mut output: Vec<String> = Vec::new();

    let result = PopCommand.execute(&mut mock_prompter, &mut mock_git_client, &mut output);

    assert!(result.is_err());
    let error_message = error_text(result);
    assert!(error_message.contains("No remote named 'origin' found."));
}

#[test]
fn pop_aborts_on_selection_outside_the_list() {
    let mut mock_git_client = list_git(entries(vec![(123, "Alice", "a"), (456, "Bob", "b")]));
    let mut mock_prompter = MockPrompter { select: Some(Box::new(|_, _, _| Ok(2))), ..Default::default() };
    let mut output: Vec<String> = Vec::new();

    let result = PopCommand.execute(&mut mock_prompter, &mut mock_git_client, &mut output);

    assert!(matches!(result, Err(PairsError::UserAborted)));
}

// ----- stash -----

#[test]
fn cannot_stash_with_no_changes() {
    let mut mock_git_client = MockGit {
        validate_repository: ok(),
        is_working_tree_clean: flag(true),
        ..Default::default()
    };
    let mut mock_prompter = MockPrompter::default();
    let mut output: Vec<String> = Vec::new();

    let result = StashCommand.execute(&mut mock_prompter, &mut mock_git_client, &mut output);

    assert!(result.is_err());
    let error_message = error_text(result);
    assert!(error_message.contains("nothing to stash"));
}

#[test]
fn stash_fails_on_failed_validation() {
    let mut mock_git_client = MockGit {
        validate_repository: Some(Box::new(|_| Err(PairsError::NotAGitRepository))),
        ..Default::default()
    };
    let mut mock_prompter = MockPrompter::default();
    let mut output: Vec<String> = Vec::new();

    let result = StashCommand.execute(&mut mock_prompter, &mut mock_git_client, &mut output);

    assert!(result.is_err());
    let error_message = error_text(result);
    assert!(error_message.contains("Not within a git repository"));
}

fn stash_ready_git() -> MockGit {
    MockGit {
        validate_repository: ok(),
        is_working_tree_clean: flag(false),
        current_branch: branch("main"),
        fetch_all: ok(),
        generate_unique_pin: Some(Box::new(|_| Ok(Pin::new(123)))),
        checkout_new_branch: ok_with("pairs/123"),
        add_all: ok(),
        commit_no_verify: ok(),
        push_set_upstream: ok_with("pairs/123"),
        checkout: ok_with("main"),
        has_commits: flag(true),
        delete_branch_local: ok_with("pairs/123"),
        ..Default::default()
    }
}

#[test]
fn stashes_on_changes_and_discards_locally() {
    let mut mock_git_client = MockGit { reset_hard_head: ok(), clean_fd: ok(), ..stash_ready_git() };
    let mut mock_prompter = MockPrompter {
        confirm: Some(Box::new(|prompt, default| {
            assert!(prompt == "Discard changes locally?" && default);
            Ok(true)
        })),
        ..Default::default()
    };
    let mut output: Vec<String> = Vec::new();

    let result = StashCommand.execute(&mut mock_prompter, &mut mock_git_client, &mut output);

    assert!(result.is_ok());
    let output_str = output.join("\n");
    assert!(output_str.contains("pairs pin: 123"));
    assert_eq!(
        mock_git_client.calls(),
        vec![
            "validate_repository()",
            "is_working_tree_clean()",
            "current_branch()",
            "fetch_all()",
            "generate_unique_pin()",
            "checkout_new_branch(pairs/123)",
            "add_all()",
            "commit_no_verify(temporary pairs branch [ci-skip] [ci skip] [skip ci])",
            "push_set_upstream(pairs/123)",
            "checkout(main)",
            "has_commits()",
            "reset_hard_head()",
            "clean_fd()",
            "delete_branch_local(pairs/123)",
        ]
    );
}

#[test]
fn stashes_on_changes_and_keeps_locally() {
    let mut mock_git_client = MockGit { merge_squash_no_commit: ok_with("pairs/123"), ..stash_ready_git() };
    let mut mock_prompter = MockPrompter { confirm: answer_confirm(false), ..Default::default() };
    let mut output: Vec<String> = Vec::new();

    let result = StashCommand.execute(&mut mock_prompter, &mut mock_git_client, &mut output);

    assert!(result.is_ok());
    let output_str = output.join("\n");
    assert!(output_str.contains("pairs pin: 123"));
    assert!(!mock_git_client.calls().iter().any(|c| c == "reset_hard_head()" || c == "clean_fd()"));
}

#[test]
fn stash_without_commits_skips_reset() {
    let mut mock_git_client = MockGit { has_commits: flag(false), clean_fd: ok(), ..stash_ready_git() };
    let mut mock_prompter = MockPrompter { confirm: answer_confirm(true), ..Default::default() };
    let mut output: Vec<String> = Vec::new();

    let result = StashCommand.execute(&mut mock_prompter, &mut mock_git_client, &mut output);

    assert!(result.is_ok());
    assert_eq!(output, vec![String::new(), String::from("pairs pin: 123")]);
    assert!(!mock_git_client.calls().iter().any(|c| c == "reset_hard_head()"));
}

#[test]
fn stash_stops_at_the_first_failing_step() {
    let mut mock_git_client = MockGit {
        push_set_upstream: Some(Box::new(|_| Err(PairsError::GitCommandFailed(String::from("rejected"))))),
        ..stash_ready_git()
    };
    let mut mock_prompter = MockPrompter::default();
    let mut output: Vec<String> = Vec::new();

    let result = StashCommand.execute(&mut mock_prompter, &mut mock_git_client, &mut output);

    assert_eq!(error_text(result), "Git command failed: rejected");
    assert!(output.is_empty());
    assert_eq!(mock_git_client.calls().last().unwrap(), "push_set_upstream(pairs/123)");
}
