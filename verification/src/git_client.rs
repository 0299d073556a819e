use crate::commands::session::{
    entries_answer, flag_answer, pin_answer, text_answer, unit_answer, EffectView, Reply,
};
use crate::commands::log_grows;
use crate::error::PairsError;
use crate::text::{
    decimal, decimal_string, join_with, push_decimal, push_joined, push_str_chars, string_of, trim,
    trimmed, views, parse_u16_chars, parse_u16_spec, chars_of, lemma_parse_decimal_round_trip,
    lemma_decimal_digits, is_digit, lemma_decimal_injective,
};
use vstd::prelude::*;

verus! {

// ---------------------------------------------------------------------------
// Pins and stash entries
// ---------------------------------------------------------------------------

/// Identifies a stash entry; the branch that holds the stash is named after it.
#[derive(Debug, Clone, Copy)]
pub struct Pin(u16);

impl View for Pin {
    type V = u16;

    closed spec fn view(&self) -> u16 {
        self.0
    }
}

/// The name of the branch that holds the stash with pin `pin`: `pairs/<pin>`.
pub open spec fn branch_of(pin: u16) -> Seq<char> {
    "pairs/"@ + decimal(pin as nat)
}

impl Pin {
    /// A pin with the given numeric value.
    pub fn new(value: u16) -> (p: Self)
        ensures
            p@ == value,
    {
        Pin(value)
    }

    /// The branch name of the pin, `pairs/` followed by its number.
    pub fn branch_name(&self) -> (s: String)
        ensures
            s@ == branch_of(self@),
    {
        let mut buf: Vec<char> = Vec::new();
        push_str_chars(&mut buf, "pairs/");
        push_decimal(&mut buf, self.0);
        string_of(&buf)
    }

    /// The pin's number written in decimal.
    pub fn as_str(&self) -> (s: String)
        ensures
            s@ == decimal(self@ as nat),
    {
        decimal_string(self.0)
    }

    /// The pin's number.
    pub fn as_u16(&self) -> (v: u16)
        ensures
            v == self@,
    {
        self.0
    }
}

/// A stash found on the remote: its pin, the author of its commit and when it was made.
#[derive(Debug, Clone)]
pub struct StashEntry {
    pub pin: Pin,
    pub author: String,
    pub created_at: String,
}

/// The plain values of a stash entry: pin, author, creation time.
pub open spec fn entry_view(e: StashEntry) -> (u16, Seq<char>, Seq<char>) {
    (e.pin@, e.author@, e.created_at@)
}

/// The plain values of a list of stash entries.
pub open spec fn entries_view(es: Seq<StashEntry>) -> Seq<(u16, Seq<char>, Seq<char>)> {
    es.map_values(|e: StashEntry| entry_view(e))
}

// ---------------------------------------------------------------------------
// The git operations a command needs
// ---------------------------------------------------------------------------

/// The git operations that the commands are built from.
pub trait GitClient {
    /// The operations this client has performed, each with the answer it gave,
    /// oldest first; `None` for a client that keeps no such record, the default.
    open spec fn call_log(&self) -> Option<Seq<(EffectView, Reply)>> {
        None
    }

    /// Whether the working tree has no uncommitted changes.
    fn is_working_tree_clean(&mut self) -> (r: Result<bool, PairsError>)
        ensures
            log_grows(old(self).call_log(), final(self).call_log(), seq![(EffectView::IsWorkingTreeClean, flag_answer(r))]),
    ;

    /// Whether the repository has at least one commit.
    fn has_commits(&mut self) -> (r: Result<bool, PairsError>)
        ensures
            log_grows(old(self).call_log(), final(self).call_log(), seq![(EffectView::HasCommits, flag_answer(r))]),
    ;

    /// The name of the current branch.
    fn current_branch(&mut self) -> (r: Result<String, PairsError>)
        ensures
            log_grows(old(self).call_log(), final(self).call_log(), seq![(EffectView::CurrentBranch, text_answer(r))]),
    ;

    /// Fetches from the remote, pruning deleted branches.
    fn fetch_all(&mut self) -> (r: Result<(), PairsError>)
        ensures
            log_grows(old(self).call_log(), final(self).call_log(), seq![(EffectView::FetchAll, unit_answer(r))]),
    ;

    /// A pin that no remote branch uses yet.
    fn generate_unique_pin(&mut self) -> (r: Result<Pin, PairsError>)
        ensures
            log_grows(old(self).call_log(), final(self).call_log(), seq![(EffectView::GenerateUniquePin, pin_answer(r))]),
    ;

    /// Whether the remote has the branch of `pin`.
    fn remote_branch_exists(&mut self, pin: &Pin) -> (r: Result<bool, PairsError>)
        ensures
            log_grows(old(self).call_log(), final(self).call_log(), seq![(EffectView::RemoteBranchExists(pin@), flag_answer(r))]),
    ;

    /// Creates the branch `branch` and checks it out.
    fn checkout_new_branch(&mut self, branch: &str) -> (r: Result<(), PairsError>)
        ensures
            log_grows(old(self).call_log(), final(self).call_log(), seq![(EffectView::CheckoutNewBranch(branch@), unit_answer(r))]),
    ;

    /// Stages every change.
    fn add_all(&mut self) -> (r: Result<(), PairsError>)
        ensures
            log_grows(old(self).call_log(), final(self).call_log(), seq![(EffectView::AddAll, unit_answer(r))]),
    ;

    /// Commits the staged changes with `message`, skipping hooks.
    fn commit_no_verify(&mut self, message: &str) -> (r: Result<(), PairsError>)
        ensures
            log_grows(old(self).call_log(), final(self).call_log(), seq![(EffectView::CommitNoVerify(message@), unit_answer(r))]),
    ;

    /// Pushes `branch` to the remote and tracks it.
    fn push_set_upstream(&mut self, branch: &str) -> (r: Result<(), PairsError>)
        ensures
            log_grows(old(self).call_log(), final(self).call_log(), seq![(EffectView::PushSetUpstream(branch@), unit_answer(r))]),
    ;

    /// Checks out `branch`.
    fn checkout(&mut self, branch: &str) -> (r: Result<(), PairsError>)
        ensures
            log_grows(old(self).call_log(), final(self).call_log(), seq![(EffectView::Checkout(branch@), unit_answer(r))]),
    ;

    /// Deletes the local branch `branch`.
    fn delete_branch_local(&mut self, branch: &str) -> (r: Result<(), PairsError>)
        ensures
            log_grows(old(self).call_log(), final(self).call_log(), seq![(EffectView::DeleteBranchLocal(branch@), unit_answer(r))]),
    ;

    /// Deletes the branch `branch` on the remote.
    fn delete_branch_remote(&mut self, branch: &str) -> (r: Result<(), PairsError>)
        ensures
            log_grows(old(self).call_log(), final(self).call_log(), seq![(EffectView::DeleteBranchRemote(branch@), unit_answer(r))]),
    ;

    /// Discards uncommitted changes to tracked files.
    fn reset_hard_head(&mut self) -> (r: Result<(), PairsError>)
        ensures
            log_grows(old(self).call_log(), final(self).call_log(), seq![(EffectView::ResetHardHead, unit_answer(r))]),
    ;

    /// Removes untracked files and directories.
    fn clean_fd(&mut self) -> (r: Result<(), PairsError>)
        ensures
            log_grows(old(self).call_log(), final(self).call_log(), seq![(EffectView::CleanFd, unit_answer(r))]),
    ;

    /// Squash-merges `branch` into the current branch without committing.
    fn merge_squash_no_commit(&mut self, branch: &str) -> (r: Result<(), PairsError>)
        ensures
            log_grows(old(self).call_log(), final(self).call_log(), seq![(EffectView::MergeSquashNoCommit(branch@), unit_answer(r))]),
    ;

    /// The stashes on the remote, oldest first.
    fn list_stash_entries(&mut self) -> (r: Result<Vec<StashEntry>, PairsError>)
        ensures
            log_grows(old(self).call_log(), final(self).call_log(), seq![(EffectView::ListStashEntries, entries_answer(r))]),
    ;

    /// Pulls the current branch, rebasing local commits.
    fn pull_rebase(&mut self) -> (r: Result<(), PairsError>)
        ensures
            log_grows(old(self).call_log(), final(self).call_log(), seq![(EffectView::PullRebase, unit_answer(r))]),
    ;

    /// Unstages everything, keeping the changes in the working tree.
    fn reset_mixed(&mut self) -> (r: Result<(), PairsError>)
        ensures
            log_grows(old(self).call_log(), final(self).call_log(), seq![(EffectView::ResetMixed, unit_answer(r))]),
    ;

    /// Checks that the directory is a git repository with a remote named `origin`.
    fn validate_repository(&mut self) -> (r: Result<(), PairsError>)
        ensures
            log_grows(old(self).call_log(), final(self).call_log(), seq![(EffectView::ValidateRepository, unit_answer(r))]),
    ;
}

// ---------------------------------------------------------------------------
// What the git client decides from what git reports
// ---------------------------------------------------------------------------

/// Sixteen random bits from the operating system's random source: rand's `OsRng`
/// through `RngCore::try_fill_bytes`, which reports a failure of the source as an
/// error instead of panicking; the error is turned into an `io::Error` by rand's own
/// conversion. Nothing is stated of the value: any `u16` may come back, two calls may
/// differ, and either may fail.
#[verifier::external_body]
fn random_u16() -> (r: Result<u16, std::io::Error>) {
    let mut bytes = [0u8; 2];
    match rand::RngCore::try_fill_bytes(&mut rand::rngs::OsRng, &mut bytes) {
        Ok(()) => Ok(u16::from_le_bytes(bytes)),
        Err(e) => Err(std::io::Error::from(e)),
    }
}

/// The pin made from the random number `r`: `100 + r % 900`.
pub fn pin_from_random(r: u16) -> (p: Pin)
    ensures
        p@ == 100 + r % 900,
{
    Pin(100 + r % 900)
}

/// Law: every pin from 100 to 999, and no other, is made from some random number, so
/// repeated draws can reach any of them.
pub proof fn lemma_every_pin_drawable(pin: u16)
    ensures
        (100 <= pin <= 999) <==> exists|r: u16| #[trigger] (100 + r % 900) == pin,
{
    if 100 <= pin <= 999 {
        let r: u16 = (pin - 100) as u16;
        assert(100 + r % 900 == pin);
    }
}

/// A pin drawn at random between 100 and 999, or the failure of the random source
/// as an I/O error. The pin is `pin_from_random` of the bits the source gave; those
/// bits depend on chance and have no name, so the contract states the range only.
pub fn random_pin() -> (r: Result<Pin, PairsError>)
    ensures
        r matches Ok(p) ==> 100 <= p@ <= 999,
        r matches Err(e) ==> e is Io,
{
    match random_u16() {
        Ok(bits) => Ok(pin_from_random(bits)),
        Err(e) => Err(PairsError::Io(e)),
    }
}

/// One step of the search for an unused pin: `pin` was drawn and the remote was
/// asked whether it has that pin's branch (`listed`). A pin the remote lacks is the
/// one found; a listed pin means drawing again; a failed question ends the search
/// with its error.
pub fn pin_search_step(pin: Pin, listed: Result<bool, PairsError>) -> (r: Result<Option<Pin>, PairsError>)
    ensures
        listed matches Ok(false) ==> r == Ok::<Option<Pin>, PairsError>(Some(pin)),
        listed matches Ok(true) ==> r == Ok::<Option<Pin>, PairsError>(None),
        listed matches Err(e) ==> r == Err::<Option<Pin>, PairsError>(e),
{
    match listed {
        Ok(false) => Ok(Some(pin)),
        Ok(true) => Ok(None),
        Err(e) => Err(e),
    }
}

/// One attempt at finding a pin between 100 and 999 that no remote branch uses:
/// draws a pin, asks `git` whether the remote has its branch, and returns the pin
/// when it has not, `None` when it has (draw again), or the error of the question.
/// When the random source fails, its error is returned and `git` is not asked.
pub fn pin_search_attempt<G: GitClient>(git: &mut G) -> (r: Result<Option<Pin>, PairsError>)
    ensures
        r matches Ok(Some(p)) ==> 100 <= p@ <= 999 && log_grows(
            old(git).call_log(),
            final(git).call_log(),
            seq![(EffectView::RemoteBranchExists(p@), Reply::Flag(false))],
        ),
        r matches Ok(None) ==> exists|p: u16|
            100 <= p <= 999 && #[trigger] log_grows(
                old(git).call_log(),
                final(git).call_log(),
                seq![(EffectView::RemoteBranchExists(p), Reply::Flag(true))],
            ),
        r matches Err(e) ==> (e is Io && *final(git) == *old(git)) || exists|p: u16|
            100 <= p <= 999 && #[trigger] log_grows(
                old(git).call_log(),
                final(git).call_log(),
                seq![(EffectView::RemoteBranchExists(p), Reply::Failed(e))],
            ),
{
    let pin = match random_pin() {
        Ok(p) => p,
        Err(e) => return Err(e),
    };
    let listed = git.remote_branch_exists(&pin);
    let ghost answer = listed;
    let r = pin_search_step(pin, listed);
    proof {
        match answer {
            Ok(true) => {
                assert(log_grows(
                    old(git).call_log(),
                    git.call_log(),
                    seq![(EffectView::RemoteBranchExists(pin@), Reply::Flag(true))],
                ));
            },
            Err(e) => {
                assert(log_grows(
                    old(git).call_log(),
                    git.call_log(),
                    seq![(EffectView::RemoteBranchExists(pin@), Reply::Failed(e))],
                ));
            },
            _ => {},
        }
    }
    r
}

/// Whether a working tree is clean, from the (trimmed) output of `git status --porcelain`.
pub fn working_tree_is_clean(status_output: &str) -> (clean: bool)
    ensures
        clean == (status_output@.len() == 0),
{
    status_output.is_empty()
}

/// Whether `git ls-remote --heads` listed the branch, from its raw output.
pub fn remote_branch_listed(ls_remote_output: &str) -> (listed: bool)
    ensures
        listed == (trimmed(ls_remote_output@).len() > 0),
{
    let t = trim(ls_remote_output);
    !t.as_str().is_empty()
}

/// The verdict on a repository: inside a work tree, then with a remote named `origin`.
pub fn repository_verdict(inside_work_tree: bool, has_origin: bool) -> (r: Result<(), PairsError>)
    ensures
        !inside_work_tree ==> r matches Err(PairsError::NotAGitRepository),
        inside_work_tree && !has_origin ==> r matches Err(PairsError::NoRemoteOrigin),
        inside_work_tree && has_origin ==> r is Ok,
{
    if !inside_work_tree {
        return Err(PairsError::NotAGitRepository);
    }
    if !has_origin {
        return Err(PairsError::NoRemoteOrigin);
    }
    Ok(())
}

/// The current branch can only be asked for once there is a commit.
pub fn commits_verdict(has_commits: bool) -> (r: Result<(), PairsError>)
    ensures
        has_commits ==> r is Ok,
        !has_commits ==> r matches Err(PairsError::NoCommitsYet),
{
    if has_commits {
        Ok(())
    } else {
        Err(PairsError::NoCommitsYet)
    }
}

/// The text `git <args>` writes for the arguments `args`, joined by spaces.
pub open spec fn command_text(args: Seq<Seq<char>>) -> Seq<char> {
    "git "@ + join_with(args, " "@)
}

/// The outcome of a git command whose output was captured: the trimmed standard
/// output on success, else a failure that names the command and its trimmed
/// standard error.
pub fn captured_outcome(args: &Vec<String>, success: bool, stdout: &str, stderr: &str) -> (r: Result<
    String,
    PairsError,
>)
    ensures
        success ==> (r matches Ok(out) && out@ == trimmed(stdout@)),
        !success ==> (r matches Err(PairsError::GitCommandFailed(m)) && m@ == "Command '"@
            + command_text(views(args@)) + "' failed: "@ + trimmed(stderr@)),
{
    if success {
        Ok(trim(stdout))
    } else {
        let mut buf: Vec<char> = Vec::new();
        push_str_chars(&mut buf, "Command 'git ");
        push_joined(&mut buf, args, " ");
        push_str_chars(&mut buf, "' failed: ");
        let err = trim(stderr);
        push_str_chars(&mut buf, err.as_str());
        proof {
            reveal_strlit("Command '");
            reveal_strlit("git ");
            reveal_strlit("Command 'git ");
            assert("Command 'git "@ =~= "Command '"@ + "git "@);
        }
        assert(buf@ =~= "Command '"@ + command_text(views(args@)) + "' failed: "@ + trimmed(stderr@));
        Err(PairsError::GitCommandFailed(string_of(&buf)))
    }
}

/// The outcome of a git command whose output went to the console: success, else a
/// failure that names the command and the exit status `status_text` it reported.
pub fn streaming_outcome(args: &Vec<String>, success: bool, status_text: &str) -> (r: Result<
    (),
    PairsError,
>)
    ensures
        success ==> r is Ok,
        !success ==> (r matches Err(PairsError::GitCommandFailed(m)) && m@ == "Command '"@
            + command_text(views(args@)) + "' exited with status "@ + status_text@),
{
    if success {
        Ok(())
    } else {
        let mut buf: Vec<char> = Vec::new();
        push_str_chars(&mut buf, "Command 'git ");
        push_joined(&mut buf, args, " ");
        push_str_chars(&mut buf, "' exited with status ");
        push_str_chars(&mut buf, status_text);
        proof {
            reveal_strlit("Command '");
            reveal_strlit("git ");
            reveal_strlit("Command 'git ");
            assert("Command 'git "@ =~= "Command '"@ + "git "@);
        }
        assert(buf@ =~= "Command '"@ + command_text(views(args@)) + "' exited with status "@
            + status_text@);
        Err(PairsError::GitCommandFailed(string_of(&buf)))
    }
}


// ---------------------------------------------------------------------------
// Reading the stash list that `git for-each-ref` prints
// ---------------------------------------------------------------------------

/// The first index at or after `from` where `s` holds `c`, or `s.len()` when there is none.
pub open spec fn find_char(s: Seq<char>, c: char, from: int) -> int
    decreases s.len() - from,
{
    if from < 0 || from >= s.len() {
        s.len() as int
    } else if s[from] == c {
        from
    } else {
        find_char(s, c, from + 1)
    }
}

/// `find_char` lands on `c` or at the end, and skips no earlier `c`.
pub proof fn lemma_find_char(s: Seq<char>, c: char, from: int)
    requires
        0 <= from,
    ensures
        from <= find_char(s, c, from) <= s.len() || (from > s.len() && find_char(s, c, from)
            == s.len()),
        find_char(s, c, from) < s.len() ==> s[find_char(s, c, from)] == c,
        forall|k: int| from <= k < find_char(s, c, from) ==> s[k] != c,
    decreases s.len() - from,
{
    if from < s.len() && s[from] != c {
        lemma_find_char(s, c, from + 1);
    }
}

/// A line without the carriage return that ends it, if any.
pub open spec fn strip_cr(line: Seq<char>) -> Seq<char> {
    if line.len() > 0 && line.last() == '\r' {
        line.drop_last()
    } else {
        line
    }
}

/// The lines of `s` from index `start` on, as std's `str::lines` gives them:
/// split at `\n`, a `\r` before the `\n` dropped, no empty line after a final `\n`.
pub open spec fn lines_from(s: Seq<char>, start: int) -> Seq<Seq<char>>
    decreases s.len() - start,
{
    if start < 0 || start >= s.len() {
        Seq::empty()
    } else {
        let end = find_char(s, '\n', start);
        if end >= s.len() {
            seq![s.subrange(start, s.len() as int)]
        } else {
            proof {
                lemma_find_char(s, '\n', start);
            }
            seq![strip_cr(s.subrange(start, end))] + lines_from(s, end + 1)
        }
    }
}

/// The lines of `s`, as std's `str::lines` gives them.
pub open spec fn text_lines(s: Seq<char>) -> Seq<Seq<char>> {
    lines_from(s, 0)
}

/// `s` with every leading copy of `prefix` removed, as std's `str::trim_start_matches` does.
pub open spec fn strip_prefix_repeatedly(s: Seq<char>, prefix: Seq<char>) -> Seq<char>
    decreases s.len(),
{
    if prefix.len() > 0 && prefix.len() <= s.len() && s.take(prefix.len() as int) == prefix {
        strip_prefix_repeatedly(s.skip(prefix.len() as int), prefix)
    } else {
        s
    }
}

/// The separator between the fields of one line of the stash list.
pub open spec fn field_separator() -> char {
    '\u{1d}'
}

/// The stash entry on one line `<ref>\x1d<author>\x1d<date>`: the line must have at
/// least two separators, and the ref, stripped of leading `origin/pairs/`, must be a
/// `u16`; the date is everything after the second separator.
pub open spec fn line_entry(line: Seq<char>) -> Option<(u16, Seq<char>, Seq<char>)> {
    let g1 = find_char(line, field_separator(), 0);
    let g2 = find_char(line, field_separator(), g1 + 1);
    if g1 < line.len() && g2 < line.len() {
        match parse_u16_spec(strip_prefix_repeatedly(line.take(g1), "origin/pairs/"@)) {
            Some(pin) => Some((pin, line.subrange(g1 + 1, g2), line.subrange(g2 + 1, line.len() as int))),
            None => None,
        }
    } else {
        None
    }
}

/// The stash entries of the lines that hold one, in order.
pub open spec fn entries_of_lines(lines: Seq<Seq<char>>) -> Seq<(u16, Seq<char>, Seq<char>)>
    decreases lines.len(),
{
    if lines.len() == 0 {
        Seq::empty()
    } else {
        let rest = entries_of_lines(lines.drop_first());
        match line_entry(lines[0]) {
            Some(e) => seq![e] + rest,
            None => rest,
        }
    }
}

/// The stash entries listed in the output of `git for-each-ref`.
pub open spec fn stash_entries_in(output: Seq<char>) -> Seq<(u16, Seq<char>, Seq<char>)> {
    entries_of_lines(text_lines(output))
}

/// The first index at or after `from` where `cs` holds `c`, or its length.
fn find_from(cs: &Vec<char>, c: char, from: usize) -> (k: usize)
    requires
        from <= cs@.len(),
    ensures
        k == find_char(cs@, c, from as int),
{
    let n = cs.len();
    let mut k = from;
    while k < n && cs[k] != c
        invariant
            n == cs@.len(),
            from <= k <= n,
            find_char(cs@, c, from as int) == find_char(cs@, c, k as int),
        decreases n - k,
    {
        k = k + 1;
    }
    k
}

/// The characters of `cs` from `a` up to `b`.
fn sub_chars(cs: &Vec<char>, a: usize, b: usize) -> (v: Vec<char>)
    requires
        a <= b <= cs@.len(),
    ensures
        v@ == cs@.subrange(a as int, b as int),
{
    let mut v: Vec<char> = Vec::new();
    let mut k = a;
    while k < b
        invariant
            a <= k <= b <= cs@.len(),
            v@ == cs@.subrange(a as int, k as int),
        decreases b - k,
    {
        v.push(cs[k]);
        assert(cs@.subrange(a as int, k + 1) =~= cs@.subrange(a as int, k as int).push(cs@[k as int]));
        k = k + 1;
    }
    v
}

/// Whether `cs` holds `prefix` at index `at`.
fn has_prefix_at(cs: &Vec<char>, prefix: &Vec<char>, at: usize) -> (b: bool)
    requires
        at <= cs@.len(),
    ensures
        b == (prefix@.len() <= cs@.len() - at && cs@.skip(at as int).take(prefix@.len() as int)
            == prefix@),
{
    let n = cs.len();
    let m = prefix.len();
    if m > n - at {
        return false;
    }
    let mut k: usize = 0;
    while k < m
        invariant
            n == cs@.len(),
            m == prefix@.len(),
            at <= n,
            m <= n - at,
            k <= m,
            forall|j: int| 0 <= j < k ==> cs@[at + j] == prefix@[j],
        decreases m - k,
    {
        if cs[at + k] != prefix[k] {
            assert(cs@.skip(at as int).take(m as int)[k as int] != prefix@[k as int]);
            return false;
        }
        k = k + 1;
    }
    assert(cs@.skip(at as int).take(m as int) =~= prefix@);
    true
}

/// `cs` with every leading copy of `prefix` removed.
fn strip_prefix_chars(cs: &Vec<char>, prefix: &Vec<char>) -> (v: Vec<char>)
    ensures
        v@ == strip_prefix_repeatedly(cs@, prefix@),
{
    let n = cs.len();
    let m = prefix.len();
    let mut at: usize = 0;
    assert(cs@.skip(0) =~= cs@);
    while m > 0 && has_prefix_at(cs, prefix, at)
        invariant
            n == cs@.len(),
            m == prefix@.len(),
            at <= n,
            strip_prefix_repeatedly(cs@, prefix@) == strip_prefix_repeatedly(cs@.skip(at as int), prefix@),
        decreases n - at,
    {
        assert(cs@.skip(at as int).skip(m as int) =~= cs@.skip(at + m));
        at = at + m;
    }
    assert(cs@.skip(at as int) =~= cs@.subrange(at as int, n as int));
    sub_chars(cs, at, n)
}

/// The stash entry on one line of the stash list, if the line holds one.
fn parse_stash_line(line: &Vec<char>) -> (r: Option<StashEntry>)
    ensures
        match r {
            Some(e) => line_entry(line@) == Some(entry_view(e)),
            None => line_entry(line@) is None,
        },
{
    let n = line.len();
    let g1 = find_from(line, '\u{1d}', 0);
    if g1 >= n {
        return None;
    }
    let g2 = find_from(line, '\u{1d}', g1 + 1);
    if g2 >= n {
        return None;
    }
    proof {
        lemma_find_char(line@, field_separator(), 0);
        lemma_find_char(line@, field_separator(), g1 + 1);
    }
    let reference = sub_chars(line, 0, g1);
    assert(reference@ =~= line@.take(g1 as int));
    let prefix = chars_of("origin/pairs/");
    let pin_text = strip_prefix_chars(&reference, &prefix);
    match parse_u16_chars(&pin_text) {
        Some(pin) => {
            let author = string_of(&sub_chars(line, g1 + 1, g2));
            let created_at = string_of(&sub_chars(line, g2 + 1, n));
            Some(StashEntry { pin: Pin(pin), author, created_at })
        },
        None => None,
    }
}

/// The stash entries listed in the output of `git for-each-ref` (in the format
/// `%(refname:short)\x1d%(authorname)\x1d%(committerdate:relative)`), skipping
/// lines that hold none.
pub fn parse_stash_entries(output: &str) -> (es: Vec<StashEntry>)
    ensures
        entries_view(es@) == stash_entries_in(output@),
{
    let mut es: Vec<StashEntry> = Vec::new();
    if output.is_empty() {
        assert(entries_view(es@) =~= stash_entries_in(output@));
        return es;
    }
    let cs = chars_of(output);
    let n = cs.len();
    let mut start: usize = 0;
    while start < n
        invariant
            n == cs@.len(),
            cs@ == output@,
            start <= n,
            entries_view(es@) + entries_of_lines(lines_from(cs@, start as int)) == stash_entries_in(
                output@,
            ),
        decreases n - start,
    {
        let end = find_from(&cs, '\n', start);
        proof {
            lemma_find_char(cs@, '\n', start as int);
        }
        let line = if end < n {
            let raw = sub_chars(&cs, start, end);
            if end > start && cs[end - 1] == '\r' {
                let stripped = sub_chars(&cs, start, end - 1);
                assert(stripped@ =~= strip_cr(raw@));
                stripped
            } else {
                raw
            }
        } else {
            sub_chars(&cs, start, n)
        };
        let next = if end < n { end + 1 } else { n };
        let ghost lines = lines_from(cs@, start as int);
        let ghost rest = lines_from(cs@, next as int);
        assert(lines =~= seq![line@] + rest);
        assert(lines.drop_first() =~= rest);
        let ghost before = entries_view(es@);
        match parse_stash_line(&line) {
            Some(e) => {
                es.push(e);
                assert(entries_view(es@) =~= before.push(entry_view(e)));
                assert(entries_view(es@) + entries_of_lines(rest) =~= before + entries_of_lines(
                    lines,
                ));
            },
            None => {},
        }
        start = next;
    }
    assert(entries_view(es@) =~= stash_entries_in(output@));
    es
}


/// Law: distinct pins name distinct branches.
pub proof fn lemma_branch_names_distinct(a: u16, b: u16)
    requires
        a != b,
    ensures
        branch_of(a) != branch_of(b),
{
    if branch_of(a) == branch_of(b) {
        assert(decimal(a as nat) =~= branch_of(a).skip("pairs/"@.len() as int));
        assert(decimal(b as nat) =~= branch_of(b).skip("pairs/"@.len() as int));
        lemma_decimal_injective(a, b);
    }
}

/// The line git prints for a stash: `origin/pairs/<pin>\x1d<author>\x1d<date>`.
pub open spec fn stash_line(pin: u16, author: Seq<char>, date: Seq<char>) -> Seq<char> {
    "origin/pairs/"@ + decimal(pin as nat) + seq![field_separator()] + author + seq![
        field_separator(),
    ] + date
}

/// `find_char` passes over a stretch without `c` and stops at the `c` after it.
proof fn lemma_find_char_at(s: Seq<char>, c: char, from: int, at: int)
    requires
        0 <= from <= at < s.len(),
        s[at] == c,
        forall|k: int| from <= k < at ==> s[k] != c,
    ensures
        find_char(s, c, from) == at,
    decreases at - from,
{
    if from < at {
        lemma_find_char_at(s, c, from + 1, at);
    }
}

/// Law: the stash list reader gives back the pin, author and date of a line that git
/// printed for a stash, as long as the author holds no field separator.
pub proof fn lemma_stash_line_read_back(pin: u16, author: Seq<char>, date: Seq<char>)
    requires
        forall|k: int| 0 <= k < author.len() ==> author[k] != field_separator(),
    ensures
        line_entry(stash_line(pin, author, date)) == Some((pin, author, date)),
{
    let p = "origin/pairs/"@;
    let d = decimal(pin as nat);
    let line = stash_line(pin, author, date);
    reveal_strlit("origin/pairs/");
    lemma_decimal_digits(pin as nat);
    let g1: int = (p.len() + d.len()) as int;
    let g2: int = g1 + 1 + author.len();
    assert forall|k: int| 0 <= k < g1 implies line[k] != field_separator() by {
        if k < p.len() {
            assert(line[k] == p[k]);
        } else {
            assert(line[k] == d[k - p.len()]);
            assert(is_digit(d[k - p.len()]));
        }
    }
    assert(line[g1] == field_separator());
    lemma_find_char_at(line, field_separator(), 0, g1);
    assert forall|k: int| g1 + 1 <= k < g2 implies line[k] != field_separator() by {
        assert(line[k] == author[k - g1 - 1]);
    }
    assert(line[g2] == field_separator());
    lemma_find_char_at(line, field_separator(), g1 + 1, g2);
    let reference = line.take(g1);
    assert(reference =~= p + d);
    assert(reference.take(p.len() as int) =~= p);
    assert(reference.skip(p.len() as int) =~= d);
    assert(is_digit(d[0]));
    assert(!(p.len() <= d.len() && d.take(p.len() as int) == p)) by {
        if p.len() <= d.len() {
            assert(d.take(p.len() as int)[0] == d[0]);
            assert(p[0] == 'o');
            assert(!is_digit('o'));
        }
    }
    assert(strip_prefix_repeatedly(d, p) == d);
    assert(strip_prefix_repeatedly(reference, p) == d);
    lemma_parse_decimal_round_trip(pin);
    assert(line.subrange(g1 + 1, g2) =~= author);
    assert(line.subrange(g2 + 1, line.len() as int) =~= date);
}

/// `find_char` from `start + i` in `s` is `find_char` from `i` in `s` without its
/// first `start` characters, moved by `start`.
proof fn lemma_find_char_skip(s: Seq<char>, c: char, start: int, i: int)
    requires
        0 <= start <= s.len(),
        0 <= i,
    ensures
        find_char(s, c, start + i) == start + find_char(s.skip(start), c, i),
    decreases s.len() - start - i,
{
    let t = s.skip(start);
    if start + i < s.len() {
        assert(s[start + i] == t[i]);
        if s[start + i] != c {
            lemma_find_char_skip(s, c, start, i + 1);
        }
    }
}

/// The lines of `s` from `start` on are the lines of `s` without its first `start`
/// characters.
proof fn lemma_lines_from_skip(s: Seq<char>, start: int)
    requires
        0 <= start <= s.len(),
    ensures
        lines_from(s, start) == text_lines(s.skip(start)),
    decreases s.len() - start,
{
    let t = s.skip(start);
    if start < s.len() {
        lemma_find_char_skip(s, '\n', start, 0);
        let end = find_char(s, '\n', start);
        let tend = find_char(t, '\n', 0);
        assert(end == start + tend);
        lemma_find_char(s, '\n', start);
        if end >= s.len() {
            assert(s.subrange(start, s.len() as int) =~= t.subrange(0, t.len() as int));
        } else {
            assert(s.subrange(start, end) =~= t.subrange(0, tend));
            lemma_lines_from_skip(s, end + 1);
            lemma_lines_from_skip(t, tend + 1);
            assert(s.skip(end + 1) =~= t.skip(tend + 1));
        }
    } else {
        assert(t =~= Seq::<char>::empty());
    }
}

/// Whether `author` can stand in a stash line: no field separator, line break or
/// carriage return.
pub open spec fn listable_author(author: Seq<char>) -> bool {
    forall|k: int|
        0 <= k < author.len() ==> author[k] != field_separator() && author[k] != '\n' && author[k] != '\r'
}

/// Whether `date` can end a stash line: no line break or carriage return.
pub open spec fn listable_date(date: Seq<char>) -> bool {
    forall|k: int| 0 <= k < date.len() ==> date[k] != '\n' && date[k] != '\r'
}

/// Whether git can print the stashes `es` one per line so that each reads back.
pub open spec fn listable(es: Seq<(u16, Seq<char>, Seq<char>)>) -> bool {
    forall|i: int| 0 <= i < es.len() ==> listable_author(#[trigger] es[i].1) && listable_date(es[i].2)
}

/// A stash line of a listable author and date holds no line break, does not end in
/// a carriage return, and reads back as its entry.
proof fn lemma_stash_line_plain(pin: u16, author: Seq<char>, date: Seq<char>)
    requires
        listable_author(author),
        listable_date(date),
    ensures
        forall|k: int| 0 <= k < stash_line(pin, author, date).len() ==> stash_line(pin, author, date)[k] != '\n',
        strip_cr(stash_line(pin, author, date)) == stash_line(pin, author, date),
        line_entry(stash_line(pin, author, date)) == Some((pin, author, date)),
{
    let line = stash_line(pin, author, date);
    let p = "origin/pairs/"@;
    let d = decimal(pin as nat);
    reveal_strlit("origin/pairs/");
    lemma_decimal_digits(pin as nat);
    assert forall|k: int| 0 <= k < line.len() implies line[k] != '\n' && (k == line.len() - 1
        ==> line[k] != '\r') by {
        let g1 = p.len() + d.len();
        let g2 = g1 + 1 + author.len();
        if k < p.len() {
            assert(line[k] == p[k]);
        } else if k < g1 {
            assert(line[k] == d[k - p.len()]);
            assert(is_digit(d[k - p.len()]));
        } else if k == g1 {
            assert(line[k] == field_separator());
        } else if k < g2 {
            assert(line[k] == author[k - g1 - 1]);
        } else if k == g2 {
            assert(line[k] == field_separator());
        } else {
            assert(line[k] == date[k - g2 - 1]);
        }
    }
    lemma_stash_line_read_back(pin, author, date);
    assert(line[line.len() - 1] != '\r');
}

/// What `git for-each-ref` prints for the stashes `es`: the line of each, in order,
/// each ended by a line break.
pub open spec fn stash_listing(es: Seq<(u16, Seq<char>, Seq<char>)>) -> Seq<char>
    decreases es.len(),
{
    if es.len() == 0 {
        Seq::empty()
    } else {
        stash_line(es[0].0, es[0].1, es[0].2) + seq!['\n'] + stash_listing(es.drop_first())
    }
}

/// Law: reading the stash list gives back every stash git listed, in order, however
/// many there are: the entries read from the lines printed for `es` are `es`.
pub proof fn lemma_stash_listing_read_back(es: Seq<(u16, Seq<char>, Seq<char>)>)
    requires
        listable(es),
    ensures
        stash_entries_in(stash_listing(es)) == es,
    decreases es.len(),
{
    let out = stash_listing(es);
    if es.len() == 0 {
        assert(text_lines(out) =~= Seq::<Seq<char>>::empty());
    } else {
        let (pin, author, date) = es[0];
        let rest = es.drop_first();
        assert(listable(rest)) by {
            assert forall|i: int| 0 <= i < rest.len() implies listable_author(#[trigger] rest[i].1)
                && listable_date(rest[i].2) by {
                assert(rest[i] == es[i + 1]);
            }
        }
        assert(listable_author(es[0].1) && listable_date(es[0].2));
        lemma_stash_listing_read_back(rest);
        let line = stash_line(pin, author, date);
        lemma_stash_line_plain(pin, author, date);
        assert(out =~= line + seq!['\n'] + stash_listing(rest));
        assert(out[line.len() as int] == '\n');
        lemma_find_char_at(out, '\n', 0, line.len() as int);
        assert(out.subrange(0, line.len() as int) =~= line);
        assert(strip_cr(line) == line);
        let after: int = line.len() as int + 1;
        lemma_lines_from_skip(out, after);
        assert(out.skip(after) =~= stash_listing(rest));
        let lines = text_lines(out);
        assert(lines =~= seq![line] + text_lines(stash_listing(rest)));
        assert(lines.drop_first() =~= text_lines(stash_listing(rest)));
        assert(stash_entries_in(out) =~= seq![(pin, author, date)] + rest);
        assert(es =~= seq![(pin, author, date)] + rest);
    }
}

/// Law: the stash list reads back the same when its last line has no line break
/// after it: the entries read from the lines printed for `es`, without the final line
/// break, are `es`.
pub proof fn lemma_stash_listing_read_back_unterminated(es: Seq<(u16, Seq<char>, Seq<char>)>)
    requires
        listable(es),
        es.len() > 0,
    ensures
        stash_entries_in(stash_listing(es).drop_last()) == es,
    decreases es.len(),
{
    let out = stash_listing(es).drop_last();
    let (pin, author, date) = es[0];
    let rest = es.drop_first();
    assert(listable(rest)) by {
        assert forall|i: int| 0 <= i < rest.len() implies listable_author(#[trigger] rest[i].1)
            && listable_date(rest[i].2) by {
            assert(rest[i] == es[i + 1]);
        }
    }
    assert(listable_author(es[0].1) && listable_date(es[0].2));
    let line = stash_line(pin, author, date);
    lemma_stash_line_plain(pin, author, date);
    if rest.len() == 0 {
        assert(stash_listing(rest) =~= Seq::<char>::empty());
        assert(out =~= line);
        lemma_find_char(out, '\n', 0);
        assert(find_char(out, '\n', 0) == out.len());
        assert(out.subrange(0, out.len() as int) =~= line);
        assert(text_lines(out) =~= seq![line]);
        assert(text_lines(out).drop_first() =~= Seq::<Seq<char>>::empty());
        assert(entries_of_lines(Seq::<Seq<char>>::empty()) =~= Seq::<(u16, Seq<char>, Seq<char>)>::empty());
        assert(es =~= seq![(pin, author, date)]);
        assert(stash_entries_in(out) =~= es);
    } else {
        lemma_stash_listing_read_back_unterminated(rest);
        assert(stash_listing(es) =~= line + seq!['\n'] + stash_listing(rest));
        assert(out =~= line + seq!['\n'] + stash_listing(rest).drop_last());
        assert(out[line.len() as int] == '\n');
        lemma_find_char_at(out, '\n', 0, line.len() as int);
        assert(out.subrange(0, line.len() as int) =~= line);
        let after: int = line.len() as int + 1;
        lemma_lines_from_skip(out, after);
        assert(out.skip(after) =~= stash_listing(rest).drop_last());
        let lines = text_lines(out);
        assert(lines =~= seq![line] + text_lines(stash_listing(rest).drop_last()));
        assert(lines.drop_first() =~= text_lines(stash_listing(rest).drop_last()));
        assert(stash_entries_in(out) =~= seq![(pin, author, date)] + rest);
        assert(es =~= seq![(pin, author, date)] + rest);
    }
}

/// The lines of `a + b`, where `a` is empty or ends with a line break, are the lines
/// of `a` followed by the lines of `b`.
proof fn lemma_text_lines_concat(a: Seq<char>, b: Seq<char>)
    requires
        a.len() == 0 || a.last() == '\n',
    ensures
        text_lines(a + b) == text_lines(a) + text_lines(b),
    decreases a.len(),
{
    let ab = a + b;
    if a.len() == 0 {
        assert(ab =~= b);
        assert(text_lines(a) =~= Seq::<Seq<char>>::empty());
        assert(text_lines(a) + text_lines(b) =~= text_lines(b));
    } else {
        lemma_find_char(a, '\n', 0);
        assert(a[a.len() - 1] == '\n');
        let e = find_char(a, '\n', 0);
        assert(e < a.len());
        assert forall|k: int| 0 <= k < e implies ab[k] != '\n' by {
            assert(ab[k] == a[k]);
        }
        assert(ab[e] == '\n');
        lemma_find_char_at(ab, '\n', 0, e);
        assert(ab.subrange(0, e) =~= a.subrange(0, e));
        let tail = a.skip(e + 1);
        lemma_lines_from_skip(a, e + 1);
        lemma_lines_from_skip(ab, e + 1);
        assert(ab.skip(e + 1) =~= tail + b);
        if tail.len() > 0 {
            assert(tail.last() == a.last());
        }
        lemma_text_lines_concat(tail, b);
        let first = seq![strip_cr(a.subrange(0, e))];
        assert(text_lines(a) == first + text_lines(tail));
        assert(text_lines(ab) == first + text_lines(tail + b));
        assert(first + (text_lines(tail) + text_lines(b)) =~= (first + text_lines(tail)) + text_lines(b));
    }
}

/// The entries of two runs of lines are the entries of each, in order.
proof fn lemma_entries_of_lines_concat(x: Seq<Seq<char>>, y: Seq<Seq<char>>)
    ensures
        entries_of_lines(x + y) == entries_of_lines(x) + entries_of_lines(y),
    decreases x.len(),
{
    if x.len() == 0 {
        assert(x + y =~= y);
        assert(entries_of_lines(x) + entries_of_lines(y) =~= entries_of_lines(y));
    } else {
        lemma_entries_of_lines_concat(x.drop_first(), y);
        assert((x + y).drop_first() =~= x.drop_first() + y);
        assert((x + y)[0] == x[0]);
        match line_entry(x[0]) {
            Some(e) => {
                assert(seq![e] + (entries_of_lines(x.drop_first()) + entries_of_lines(y)) =~= (seq![e]
                    + entries_of_lines(x.drop_first())) + entries_of_lines(y));
            },
            None => {},
        }
    }
}

/// Law: the reader goes line by line: the entries of an output made of a part that
/// ends with a line break (or is empty) followed by the rest are the entries of that
/// part followed by those of the rest. No entry is lost or added at the seam, and the
/// number of entries read is not bounded.
pub proof fn lemma_stash_entries_concat(a: Seq<char>, b: Seq<char>)
    requires
        a.len() == 0 || a.last() == '\n',
    ensures
        stash_entries_in(a + b) == stash_entries_in(a) + stash_entries_in(b),
{
    lemma_text_lines_concat(a, b);
    lemma_entries_of_lines_concat(text_lines(a), text_lines(b));
}

/// Law: one line, ended by a line break, gives the entry it holds (a carriage return
/// before the break is not part of the line), or nothing when it holds none.
pub proof fn lemma_stash_entries_one_line(line: Seq<char>)
    requires
        forall|k: int| 0 <= k < line.len() ==> line[k] != '\n',
    ensures
        stash_entries_in(line + seq!['\n']) == (match line_entry(strip_cr(line)) {
            Some(e) => seq![e],
            None => Seq::<(u16, Seq<char>, Seq<char>)>::empty(),
        }),
{
    let out = line + seq!['\n'];
    assert forall|k: int| 0 <= k < line.len() implies out[k] != '\n' by {
        assert(out[k] == line[k]);
    }
    lemma_find_char_at(out, '\n', 0, line.len() as int);
    assert(out.subrange(0, line.len() as int) =~= line);
    assert(lines_from(out, line.len() as int + 1) =~= Seq::<Seq<char>>::empty());
    assert(text_lines(out) =~= seq![strip_cr(line)]);
    assert(text_lines(out).drop_first() =~= Seq::<Seq<char>>::empty());
    assert(entries_of_lines(Seq::<Seq<char>>::empty()) =~= Seq::<(u16, Seq<char>, Seq<char>)>::empty());
    match line_entry(strip_cr(line)) {
        Some(e) => {
            assert(seq![e] + Seq::<(u16, Seq<char>, Seq<char>)>::empty() =~= seq![e]);
        },
        None => {},
    }
}

} // verus!
