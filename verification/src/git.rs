//! The git command lines behind each repository operation. Running them is left
//! to the caller; these functions decide what is run.
use crate::git_client::branch_of;
use crate::git_validation::SetupCheck;
use crate::text::views;
use vstd::prelude::*;

pub use crate::git_client::Pin;

verus! {

/// Appends the argument `a` to the command line `args`.
fn push_arg(args: &mut Vec<String>, a: &str)
    ensures
        views(final(args)@) == views(old(args)@).push(a@),
{
    let ghost before = args@;
    args.push(a.to_owned());
    assert(views(args@) =~= views(before).push(a@));
}

/// A command line of the given arguments.
fn command1(a: &str) -> (args: Vec<String>)
    ensures
        views(args@) == seq![a@],
{
    let mut args: Vec<String> = Vec::new();
    push_arg(&mut args, a);
    assert(views(args@) =~= seq![a@]);
    args
}

/// A command line of the given arguments.
fn command2(a: &str, b: &str) -> (args: Vec<String>)
    ensures
        views(args@) == seq![a@, b@],
{
    let mut args = command1(a);
    push_arg(&mut args, b);
    assert(views(args@) =~= seq![a@, b@]);
    args
}

/// A command line of the given arguments.
fn command3(a: &str, b: &str, c: &str) -> (args: Vec<String>)
    ensures
        views(args@) == seq![a@, b@, c@],
{
    let mut args = command2(a, b);
    push_arg(&mut args, c);
    assert(views(args@) =~= seq![a@, b@, c@]);
    args
}

/// A command line of the given arguments.
fn command4(a: &str, b: &str, c: &str, d: &str) -> (args: Vec<String>)
    ensures
        views(args@) == seq![a@, b@, c@, d@],
{
    let mut args = command3(a, b, c);
    push_arg(&mut args, d);
    assert(views(args@) =~= seq![a@, b@, c@, d@]);
    args
}

/// `git status --porcelain`: lists uncommitted changes; the tree is clean when it prints nothing.
pub fn is_working_tree_clean() -> (args: Vec<String>)
    ensures
        views(args@) == seq!["status"@, "--porcelain"@],
{
    command2("status", "--porcelain")
}

/// `git rev-parse --verify HEAD`: succeeds when the repository has a commit.
pub fn has_commits() -> (args: Vec<String>)
    ensures
        views(args@) == seq!["rev-parse"@, "--verify"@, "HEAD"@],
{
    command3("rev-parse", "--verify", "HEAD")
}

/// `git rev-parse --abbrev-ref HEAD`: prints the current branch.
pub fn current_branch() -> (args: Vec<String>)
    ensures
        views(args@) == seq!["rev-parse"@, "--abbrev-ref"@, "HEAD"@],
{
    command3("rev-parse", "--abbrev-ref", "HEAD")
}

/// `git fetch -a`, then `git fetch -p`: fetches everything and prunes deleted branches.
pub fn fetch_all() -> (commands: Vec<Vec<String>>)
    ensures
        commands@.len() == 2,
        views(commands@[0]@) == seq!["fetch"@, "-a"@],
        views(commands@[1]@) == seq!["fetch"@, "-p"@],
{
    let mut commands: Vec<Vec<String>> = Vec::new();
    commands.push(command2("fetch", "-a"));
    commands.push(command2("fetch", "-p"));
    commands
}

/// `git ls-remote --heads origin pairs/<pin>`: prints the branch of `pin` if the remote has it.
pub fn remote_branch_exists(pin: &Pin) -> (args: Vec<String>)
    ensures
        views(args@) == seq!["ls-remote"@, "--heads"@, "origin"@, branch_of(pin@)],
{
    let branch = pin.branch_name();
    command4("ls-remote", "--heads", "origin", branch.as_str())
}

/// `git checkout -b <branch>`.
pub fn checkout_new_branch(branch: &str) -> (args: Vec<String>)
    ensures
        views(args@) == seq!["checkout"@, "-b"@, branch@],
{
    command3("checkout", "-b", branch)
}

/// `git add .`.
pub fn add_all() -> (args: Vec<String>)
    ensures
        views(args@) == seq!["add"@, "."@],
{
    command2("add", ".")
}

/// `git commit --no-verify -m <message>`.
pub fn commit_no_verify(message: &str) -> (args: Vec<String>)
    ensures
        views(args@) == seq!["commit"@, "--no-verify"@, "-m"@, message@],
{
    command4("commit", "--no-verify", "-m", message)
}

/// `git push -u origin <branch>`.
pub fn push_set_upstream(branch: &str) -> (args: Vec<String>)
    ensures
        views(args@) == seq!["push"@, "-u"@, "origin"@, branch@],
{
    command4("push", "-u", "origin", branch)
}

/// `git checkout <branch>`.
pub fn checkout(branch: &str) -> (args: Vec<String>)
    ensures
        views(args@) == seq!["checkout"@, branch@],
{
    command2("checkout", branch)
}

/// `git branch -D <branch>`.
pub fn delete_branch_local(branch: &str) -> (args: Vec<String>)
    ensures
        views(args@) == seq!["branch"@, "-D"@, branch@],
{
    command3("branch", "-D", branch)
}

/// `git push origin --delete <branch>`.
pub fn delete_branch_remote(branch: &str) -> (args: Vec<String>)
    ensures
        views(args@) == seq!["push"@, "origin"@, "--delete"@, branch@],
{
    command4("push", "origin", "--delete", branch)
}

/// `git reset --hard HEAD`.
pub fn reset_hard_head() -> (args: Vec<String>)
    ensures
        views(args@) == seq!["reset"@, "--hard"@, "HEAD"@],
{
    command3("reset", "--hard", "HEAD")
}

/// `git clean -fd`.
pub fn clean_fd() -> (args: Vec<String>)
    ensures
        views(args@) == seq!["clean"@, "-fd"@],
{
    command2("clean", "-fd")
}

/// `git merge --no-commit --squash <branch>`.
pub fn merge_squash_no_commit(branch: &str) -> (args: Vec<String>)
    ensures
        views(args@) == seq!["merge"@, "--no-commit"@, "--squash"@, branch@],
{
    command4("merge", "--no-commit", "--squash", branch)
}

/// `git pull -r`.
pub fn pull_rebase() -> (args: Vec<String>)
    ensures
        views(args@) == seq!["pull"@, "-r"@],
{
    command2("pull", "-r")
}

/// `git reset --mixed`.
pub fn reset_mixed() -> (args: Vec<String>)
    ensures
        views(args@) == seq!["reset"@, "--mixed"@],
{
    command2("reset", "--mixed")
}

/// `git for-each-ref --sort=committerdate refs/remotes/origin/pairs/* --format=...`:
/// one line per stash, `<ref>\x1d<author>\x1d<relative date>`, oldest first.
pub fn list_stash_entries() -> (args: Vec<String>)
    ensures
        views(args@) == seq![
            "for-each-ref"@,
            "--sort=committerdate"@,
            "refs/remotes/origin/pairs/*"@,
            "--format=%(refname:short)\u{1d}%(authorname)\u{1d}%(committerdate:relative)"@,
        ],
{
    command4(
        "for-each-ref",
        "--sort=committerdate",
        "refs/remotes/origin/pairs/*",
        "--format=%(refname:short)\u{1d}%(authorname)\u{1d}%(committerdate:relative)",
    )
}

/// `git rev-parse --is-inside-work-tree`: succeeds inside a work tree.
pub fn is_inside_git_repository() -> (args: Vec<String>)
    ensures
        views(args@) == seq!["rev-parse"@, "--is-inside-work-tree"@],
{
    command2("rev-parse", "--is-inside-work-tree")
}

/// `git remote get-url origin`: succeeds when a remote named `origin` exists.
pub fn has_remote_origin() -> (args: Vec<String>)
    ensures
        views(args@) == seq!["remote"@, "get-url"@, "origin"@],
{
    command3("remote", "get-url", "origin")
}

/// The git command line of a setup check.
pub open spec fn setup_check_command(check: SetupCheck) -> Seq<Seq<char>> {
    match check {
        SetupCheck::GitInstalled => seq!["--version"@],
        SetupCheck::GitRepository => seq!["rev-parse"@, "--git-dir"@],
        SetupCheck::UserName => seq!["config"@, "--get"@, "user.name"@],
        SetupCheck::UserEmail => seq!["config"@, "--get"@, "user.email"@],
        SetupCheck::RemoteOrigin => seq!["config"@, "--get"@, "remote.origin.url"@],
    }
}

/// The git command line that makes `check`: `git --version`, `git rev-parse
/// --git-dir`, or `git config --get` of `user.name`, `user.email` or
/// `remote.origin.url`.
pub fn setup_check_args(check: SetupCheck) -> (args: Vec<String>)
    ensures
        views(args@) == setup_check_command(check),
{
    match check {
        SetupCheck::GitInstalled => command1("--version"),
        SetupCheck::GitRepository => command2("rev-parse", "--git-dir"),
        SetupCheck::UserName => command3("config", "--get", "user.name"),
        SetupCheck::UserEmail => command3("config", "--get", "user.email"),
        SetupCheck::RemoteOrigin => command3("config", "--get", "remote.origin.url"),
    }
}

} // verus!
