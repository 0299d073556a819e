use pairs::git;
use pairs::git_client::Pin;

#[test]
fn git_command_lines() {
    assert_eq!(git::is_working_tree_clean(), ["status", "--porcelain"]);
    assert_eq!(git::has_commits(), ["rev-parse", "--verify", "HEAD"]);
    assert_eq!(git::current_branch(), ["rev-parse", "--abbrev-ref", "HEAD"]);
    assert_eq!(git::fetch_all(), vec![vec!["fetch", "-a"], vec!["fetch", "-p"]]);
    assert_eq!(git::remote_branch_exists(&Pin::new(321)), ["ls-remote", "--heads", "origin", "pairs/321"]);
    assert_eq!(git::checkout_new_branch("pairs/1"), ["checkout", "-b", "pairs/1"]);
    assert_eq!(git::add_all(), ["add", "."]);
    assert_eq!(git::commit_no_verify("msg"), ["commit", "--no-verify", "-m", "msg"]);
    assert_eq!(git::push_set_upstream("b"), ["push", "-u", "origin", "b"]);
    assert_eq!(git::checkout("main"), ["checkout", "main"]);
    assert_eq!(git::delete_branch_local("b"), ["branch", "-D", "b"]);
    assert_eq!(git::delete_branch_remote("b"), ["push", "origin", "--delete", "b"]);
    assert_eq!(git::reset_hard_head(), ["reset", "--hard", "HEAD"]);
    assert_eq!(git::clean_fd(), ["clean", "-fd"]);
    assert_eq!(git::merge_squash_no_commit("b"), ["merge", "--no-commit", "--squash", "b"]);
    assert_eq!(git::pull_rebase(), ["pull", "-r"]);
    assert_eq!(git::reset_mixed(), ["reset", "--mixed"]);
    assert_eq!(git::is_inside_git_repository(), ["rev-parse", "--is-inside-work-tree"]);
    assert_eq!(git::has_remote_origin(), ["remote", "get-url", "origin"]);
    assert_eq!(
        git::list_stash_entries(),
        [
            "for-each-ref",
            "--sort=committerdate",
            "refs/remotes/origin/pairs/*",
            "--format=%(refname:short)\u{1d}%(authorname)\u{1d}%(committerdate:relative)",
        ]
    );
}
