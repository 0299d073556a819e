//! What whole command runs do when the answers the git client and the prompter
//! give are known: `answers` relates each operation to the answers it may get.
use crate::commands::list::list_output;
use crate::commands::pop::pop_choices;
use crate::commands::session::{
    fits,
    delete_prompt, discard_prompt, next, pending, select_prompt, stash_announcement,
    stash_commit_message, trying_line, EffectView, Reply, Session, StepView,
};
use crate::commands::{
    answered_run, git_part, lemma_parts_push, lemma_record_entry, is_git_operation, is_question, lemma_failed_validation_aborts, log_grows,
    performed, printed_by, prompt_part, replay, run_record, runs_to, well_answered,
};
use crate::error::PairsError;
use crate::git_client::{branch_of, entries_view, Pin, StashEntry};
use vstd::prelude::*;

verus! {

/// The `k`-th operation of a finished answered run that had not finished after `k`
/// answers: there is a `k`-th answer, what was pending was so answered, and where
/// that answer led.
proof fn lemma_run_step(
    start: Session,
    answers: spec_fn(EffectView, Reply) -> bool,
    replies: Seq<Reply>,
    k: int,
)
    requires
        answered_run(start, replies, answers),
        replay(start, replies).1 is Finish,
        0 <= k <= replies.len(),
        replay(start, replies.take(k)).1 is Perform,
    ensures
        k < replies.len(),
        fits(replay(start, replies.take(k)).1->Perform_0, replies[k]),
        answers(replay(start, replies.take(k)).1->Perform_0, replies[k]),
        replay(start, replies.take(k + 1)) == ({
            let prev = replay(start, replies.take(k));
            let (t, step) = next(prev.0, replies[k]);
            (t, step, prev.2 + printed_by(prev.1->Perform_0))
        }),
{
    if k == replies.len() {
        assert(replies.take(k) =~= replies);
    }
    assert(replies.take(k + 1).drop_last() =~= replies.take(k));
    assert(replies.take(k + 1).last() == replies[k]);
}

/// An answered run that has finished after `k` answers holds no more than those.
proof fn lemma_run_ends(
    start: Session,
    answers: spec_fn(EffectView, Reply) -> bool,
    replies: Seq<Reply>,
    k: int,
)
    requires
        answered_run(start, replies, answers),
        0 <= k <= replies.len(),
        replay(start, replies.take(k)).1 is Finish,
    ensures
        replies.len() == k,
        replies.take(k) == replies,
{
    if k < replies.len() {
        assert(replay(start, replies.take(k)).1 is Perform);
    }
    assert(replies.take(k) =~= replies);
}

/// Before its first answer a run performs the operation its session waits on.
proof fn lemma_run_start(start: Session, replies: Seq<Reply>)
    ensures
        replies.take(0) == Seq::<Reply>::empty(),
        replay(start, replies.take(0)) == (start, StepView::Perform(pending(start)), Seq::<Seq<char>>::empty()),
{
    assert(replies.take(0) =~= Seq::<Reply>::empty());
}

/// Law: stashing where the git client finds a valid repository with a clean working
/// tree checks nothing more, creates no branch, prints nothing and fails with
/// `NothingToStash`.
pub proof fn lemma_clean_tree_stash_run(
    s: Session,
    answers: spec_fn(EffectView, Reply) -> bool,
    replies: Seq<Reply>,
    result: Result<(), PairsError>,
    printed: Seq<Seq<char>>,
)
    requires
        s.stage is StashValidate,
        forall|r: Reply| #[trigger] answers(EffectView::ValidateRepository, r) ==> r == Reply::Done,
        forall|r: Reply| #[trigger] answers(EffectView::IsWorkingTreeClean, r) ==> r == Reply::Flag(true),
        answered_run(s, replies, answers),
        replay(s, replies).1 == StepView::Finish(result),
        replay(s, replies).2 == printed,
    ensures
        performed(s, replies) == seq![EffectView::ValidateRepository, EffectView::IsWorkingTreeClean],
        replies == seq![Reply::Done, Reply::Flag(true)],
        result == Err::<(), PairsError>(PairsError::NothingToStash),
        printed == Seq::<Seq<char>>::empty(),
{
    lemma_run_start(s, replies);
    lemma_run_step(s, answers, replies, 0);
    lemma_run_step(s, answers, replies, 1);
    lemma_run_ends(s, answers, replies, 2);
    assert(replies =~= seq![Reply::Done, Reply::Flag(true)]);
    assert(performed(s, replies) =~= seq![EffectView::ValidateRepository, EffectView::IsWorkingTreeClean]);
    assert(replay(s, replies).2 =~= Seq::<Seq<char>>::empty());
}

/// Law: listing where the git client finds a valid repository, fetches, and reads
/// the stashes `es` performs only those reads and the printing, prints the stash
/// table of `es` (or the note that there is none), and succeeds.
pub proof fn lemma_list_run(
    s: Session,
    answers: spec_fn(EffectView, Reply) -> bool,
    es: Vec<StashEntry>,
    replies: Seq<Reply>,
    result: Result<(), PairsError>,
    printed: Seq<Seq<char>>,
)
    requires
        s.stage is ListValidate,
        forall|r: Reply| #[trigger] answers(EffectView::ValidateRepository, r) ==> r == Reply::Done,
        forall|r: Reply| #[trigger] answers(EffectView::FetchAll, r) ==> r == Reply::Done,
        forall|r: Reply| #[trigger] answers(EffectView::ListStashEntries, r) ==> r == Reply::Entries(es),
        answered_run(s, replies, answers),
        replay(s, replies).1 == StepView::Finish(result),
        replay(s, replies).2 == printed,
    ensures
        performed(s, replies) == seq![
            EffectView::ValidateRepository,
            EffectView::FetchAll,
            EffectView::ListStashEntries,
            EffectView::Print(list_output(entries_view(es@))),
        ],
        replies == seq![Reply::Done, Reply::Done, Reply::Entries(es), Reply::Done],
        result == Ok::<(), PairsError>(()),
        printed == list_output(entries_view(es@)),
{
    lemma_run_start(s, replies);
    lemma_run_step(s, answers, replies, 0);
    lemma_run_step(s, answers, replies, 1);
    lemma_run_step(s, answers, replies, 2);
    lemma_run_step(s, answers, replies, 3);
    lemma_run_ends(s, answers, replies, 4);
    assert(performed(s, replies) =~= seq![
        EffectView::ValidateRepository,
        EffectView::FetchAll,
        EffectView::ListStashEntries,
        EffectView::Print(list_output(entries_view(es@))),
    ]);
    assert(printed =~= list_output(entries_view(es@)));
    assert(replies =~= seq![Reply::Done, Reply::Done, Reply::Entries(es), Reply::Done]);
}

/// Law: popping where the git client finds a valid repository and no stash on the
/// remote announces the attempt, fetches, reads the empty list, and fails with
/// `NoPinsFound`, asking nothing.
pub proof fn lemma_pop_nothing_run(
    s: Session,
    answers: spec_fn(EffectView, Reply) -> bool,
    replies: Seq<Reply>,
    result: Result<(), PairsError>,
    printed: Seq<Seq<char>>,
)
    requires
        s.stage is PopValidate,
        forall|r: Reply| #[trigger] answers(EffectView::ValidateRepository, r) ==> r == Reply::Done,
        forall|r: Reply| #[trigger] answers(EffectView::FetchAll, r) ==> r == Reply::Done,
        forall|r: Reply| #[trigger]
            answers(EffectView::ListStashEntries, r) ==> (r matches Reply::Entries(es) && es@.len() == 0),
        answered_run(s, replies, answers),
        replay(s, replies).1 == StepView::Finish(result),
        replay(s, replies).2 == printed,
    ensures
        performed(s, replies) == seq![
            EffectView::ValidateRepository,
            EffectView::Print(seq!["Attempting to pop automatically..."@]),
            EffectView::FetchAll,
            EffectView::ListStashEntries,
        ],
        replies == seq![Reply::Done, Reply::Done, Reply::Done, replies[3]],
        replies[3] matches Reply::Entries(es) && es@.len() == 0,
        result == Err::<(), PairsError>(PairsError::NoPinsFound),
        printed == seq!["Attempting to pop automatically..."@],
{
    lemma_run_start(s, replies);
    lemma_run_step(s, answers, replies, 0);
    lemma_run_step(s, answers, replies, 1);
    lemma_run_step(s, answers, replies, 2);
    lemma_run_step(s, answers, replies, 3);
    lemma_run_ends(s, answers, replies, 4);
    assert(performed(s, replies) =~= seq![
        EffectView::ValidateRepository,
        EffectView::Print(seq!["Attempting to pop automatically..."@]),
        EffectView::FetchAll,
        EffectView::ListStashEntries,
    ]);
    assert(printed =~= seq!["Attempting to pop automatically..."@]);
    assert(replies =~= seq![Reply::Done, Reply::Done, Reply::Done, replies[3]]);
}

/// Law: applying a pin whose branch the remote lacks (the git client finds a valid
/// repository, pulls, reads the current branch and fetches) fails with
/// `UnknownPin` of that pin before it checks out, merges or deletes anything.
pub proof fn lemma_unknown_pin_apply_run(
    s: Session,
    answers: spec_fn(EffectView, Reply) -> bool,
    replies: Seq<Reply>,
    result: Result<(), PairsError>,
    printed: Seq<Seq<char>>,
)
    requires
        s.stage is ApplyValidate,
        forall|r: Reply| #[trigger] answers(EffectView::ValidateRepository, r) ==> r == Reply::Done,
        forall|r: Reply| #[trigger] answers(EffectView::PullRebase, r) ==> r == Reply::Done,
        forall|r: Reply| #[trigger] answers(EffectView::CurrentBranch, r) ==> r is Text,
        forall|r: Reply| #[trigger] answers(EffectView::FetchAll, r) ==> r == Reply::Done,
        forall|r: Reply| #[trigger] answers(EffectView::RemoteBranchExists(s.pin@), r) ==> r == Reply::Flag(false),
        answered_run(s, replies, answers),
        replay(s, replies).1 == StepView::Finish(result),
        replay(s, replies).2 == printed,
    ensures
        performed(s, replies) == seq![
            EffectView::ValidateRepository,
            EffectView::PullRebase,
            EffectView::CurrentBranch,
            EffectView::FetchAll,
            EffectView::RemoteBranchExists(s.pin@),
        ],
        replies == seq![Reply::Done, Reply::Done, replies[2], Reply::Done, Reply::Flag(false)],
        replies[2] is Text,
        result == Err::<(), PairsError>(PairsError::UnknownPin(s.pin@)),
        printed == Seq::<Seq<char>>::empty(),
{
    lemma_run_start(s, replies);
    lemma_run_step(s, answers, replies, 0);
    lemma_run_step(s, answers, replies, 1);
    lemma_run_step(s, answers, replies, 2);
    lemma_run_step(s, answers, replies, 3);
    lemma_run_step(s, answers, replies, 4);
    lemma_run_ends(s, answers, replies, 5);
    assert(performed(s, replies) =~= seq![
        EffectView::ValidateRepository,
        EffectView::PullRebase,
        EffectView::CurrentBranch,
        EffectView::FetchAll,
        EffectView::RemoteBranchExists(s.pin@),
    ]);
    assert(printed =~= Seq::<Seq<char>>::empty());
    assert(replies =~= seq![Reply::Done, Reply::Done, replies[2], Reply::Done, Reply::Flag(false)]);
}

/// Whether `answers` lets no git operation fail.
pub open spec fn never_fails(answers: spec_fn(EffectView, Reply) -> bool) -> bool {
    forall|e: EffectView, r: Reply| #[trigger] answers(e, r) && is_git_operation(e) ==> !(r is Failed)
}

/// The operations of a stash of pin `pin` made from branch `branch`: validate, check
/// the tree, read the branch, fetch, draw the pin, create, commit and push its
/// branch, go back, announce the pin, ask whether to discard; then discard (reset
/// when there are commits, clean) after a yes, or squash-merge the stash back after
/// a no; and delete the local stash branch.
pub open spec fn stash_operations(pin: u16, branch: Seq<char>, discard: bool, has_commits: bool) -> Seq<EffectView> {
    seq![
        EffectView::ValidateRepository,
        EffectView::IsWorkingTreeClean,
        EffectView::CurrentBranch,
        EffectView::FetchAll,
        EffectView::GenerateUniquePin,
        EffectView::CheckoutNewBranch(branch_of(pin)),
        EffectView::AddAll,
        EffectView::CommitNoVerify(stash_commit_message()),
        EffectView::PushSetUpstream(branch_of(pin)),
        EffectView::Checkout(branch),
        EffectView::Print(stash_announcement(pin)),
        EffectView::Confirm(discard_prompt(), true),
    ] + (if discard {
        if has_commits {
            seq![EffectView::HasCommits, EffectView::ResetHardHead, EffectView::CleanFd]
        } else {
            seq![EffectView::HasCommits, EffectView::CleanFd]
        }
    } else {
        seq![EffectView::MergeSquashNoCommit(branch_of(pin))]
    }) + seq![EffectView::DeleteBranchLocal(branch_of(pin))]
}

/// The answers in a stash from branch `branch` where nothing fails, the pin drawn is
/// `pin`, the user answers `discard`, and the repository has commits or not.
pub open spec fn stash_replies(branch: String, pin: Pin, discard: bool, has_commits: bool) -> Seq<Reply> {
    seq![
        Reply::Done,
        Reply::Flag(false),
        Reply::Text(branch),
        Reply::Done,
        Reply::NewPin(pin),
        Reply::Done,
        Reply::Done,
        Reply::Done,
        Reply::Done,
        Reply::Done,
        Reply::Done,
        Reply::Flag(discard),
    ] + (if discard {
        if has_commits {
            seq![Reply::Flag(true), Reply::Done, Reply::Done]
        } else {
            seq![Reply::Flag(false), Reply::Done]
        }
    } else {
        seq![Reply::Done]
    }) + seq![Reply::Done]
}

/// Law: stashing changes made on branch `branch`, where no git operation fails, the
/// pin drawn is `pin`, and the user answers `discard` to the discard question,
/// performs exactly the stash operations of that pin and answer, prints the pin,
/// and succeeds.
#[verifier::rlimit(40)]
pub proof fn lemma_stash_run(
    s: Session,
    answers: spec_fn(EffectView, Reply) -> bool,
    branch: String,
    pin: Pin,
    discard: bool,
    has_commits: bool,
    replies: Seq<Reply>,
    result: Result<(), PairsError>,
    printed: Seq<Seq<char>>,
)
    requires
        s.stage is StashValidate,
        never_fails(answers),
        forall|r: Reply| #[trigger] answers(EffectView::IsWorkingTreeClean, r) ==> r == Reply::Flag(false),
        forall|r: Reply| #[trigger] answers(EffectView::CurrentBranch, r) ==> r == Reply::Text(branch),
        forall|r: Reply| #[trigger] answers(EffectView::GenerateUniquePin, r) ==> r == Reply::NewPin(pin),
        forall|r: Reply| #[trigger] answers(EffectView::HasCommits, r) ==> r == Reply::Flag(has_commits),
        forall|r: Reply| #[trigger]
            answers(EffectView::Confirm(discard_prompt(), true), r) ==> r == Reply::Flag(discard),
        answered_run(s, replies, answers),
        replay(s, replies).1 == StepView::Finish(result),
        replay(s, replies).2 == printed,
    ensures
        performed(s, replies) == stash_operations(pin@, branch@, discard, has_commits),
        replies == stash_replies(branch, pin, discard, has_commits),
        result == Ok::<(), PairsError>(()),
        printed == stash_announcement(pin@),
{
    lemma_run_start(s, replies);
    lemma_run_step(s, answers, replies, 0);
    lemma_run_step(s, answers, replies, 1);
    lemma_run_step(s, answers, replies, 2);
    lemma_run_step(s, answers, replies, 3);
    lemma_run_step(s, answers, replies, 4);
    lemma_run_step(s, answers, replies, 5);
    lemma_run_step(s, answers, replies, 6);
    lemma_run_step(s, answers, replies, 7);
    lemma_run_step(s, answers, replies, 8);
    lemma_run_step(s, answers, replies, 9);
    lemma_run_step(s, answers, replies, 10);
    lemma_run_step(s, answers, replies, 11);
    lemma_run_step(s, answers, replies, 12);
    let ops = stash_operations(pin@, branch@, discard, has_commits);
    if discard {
        lemma_run_step(s, answers, replies, 13);
        if has_commits {
            lemma_run_step(s, answers, replies, 14);
            lemma_run_step(s, answers, replies, 15);
            lemma_run_ends(s, answers, replies, 16);
        } else {
            lemma_run_step(s, answers, replies, 14);
            lemma_run_ends(s, answers, replies, 15);
        }
    } else {
        lemma_run_step(s, answers, replies, 13);
        lemma_run_ends(s, answers, replies, 14);
    }
    assert(performed(s, replies) =~= ops);
    assert(replies =~= stash_replies(branch, pin, discard, has_commits));
    assert(printed =~= stash_announcement(pin@));
}

/// The operations of applying the stash of pin `pin` from branch `branch`:
/// validate, pull, read the branch, fetch, ask the remote for the stash branch,
/// check it out and pull it, go back, squash-merge the stash, unstage it, ask
/// whether to delete the stash branch, and after a yes delete it locally and on the
/// remote.
pub open spec fn apply_operations(pin: u16, branch: Seq<char>, delete: bool) -> Seq<EffectView> {
    seq![
        EffectView::ValidateRepository,
        EffectView::PullRebase,
        EffectView::CurrentBranch,
        EffectView::FetchAll,
        EffectView::RemoteBranchExists(pin),
        EffectView::Checkout(branch_of(pin)),
        EffectView::PullRebase,
        EffectView::Checkout(branch),
        EffectView::MergeSquashNoCommit(branch_of(pin)),
        EffectView::ResetMixed,
        EffectView::Confirm(delete_prompt(), true),
    ] + (if delete {
        seq![EffectView::DeleteBranchLocal(branch_of(pin)), EffectView::DeleteBranchRemote(branch_of(pin))]
    } else {
        Seq::empty()
    })
}

/// The answers in applying a stash from branch `branch` where nothing fails, the
/// remote has the stash branch, and the user answers `delete`.
pub open spec fn apply_replies(branch: String, delete: bool) -> Seq<Reply> {
    seq![
        Reply::Done,
        Reply::Done,
        Reply::Text(branch),
        Reply::Done,
        Reply::Flag(true),
        Reply::Done,
        Reply::Done,
        Reply::Done,
        Reply::Done,
        Reply::Done,
        Reply::Flag(delete),
    ] + (if delete {
        seq![Reply::Done, Reply::Done]
    } else {
        Seq::empty()
    })
}

/// Law: applying the stash of the session's pin from branch `branch`, where no git
/// operation fails, the remote has the stash branch and the user answers `delete`
/// to the delete question, performs exactly the apply operations of that pin and
/// answer, prints nothing, and succeeds.
#[verifier::rlimit(40)]
pub proof fn lemma_apply_run(
    s: Session,
    answers: spec_fn(EffectView, Reply) -> bool,
    branch: String,
    delete: bool,
    replies: Seq<Reply>,
    result: Result<(), PairsError>,
    printed: Seq<Seq<char>>,
)
    requires
        s.stage is ApplyValidate,
        never_fails(answers),
        forall|r: Reply| #[trigger] answers(EffectView::CurrentBranch, r) ==> r == Reply::Text(branch),
        forall|r: Reply| #[trigger] answers(EffectView::RemoteBranchExists(s.pin@), r) ==> r == Reply::Flag(true),
        forall|r: Reply| #[trigger]
            answers(EffectView::Confirm(delete_prompt(), true), r) ==> r == Reply::Flag(delete),
        answered_run(s, replies, answers),
        replay(s, replies).1 == StepView::Finish(result),
        replay(s, replies).2 == printed,
    ensures
        performed(s, replies) == apply_operations(s.pin@, branch@, delete),
        replies == apply_replies(branch, delete),
        result == Ok::<(), PairsError>(()),
        printed == Seq::<Seq<char>>::empty(),
{
    lemma_run_start(s, replies);
    lemma_run_step(s, answers, replies, 0);
    lemma_run_step(s, answers, replies, 1);
    lemma_run_step(s, answers, replies, 2);
    lemma_run_step(s, answers, replies, 3);
    lemma_run_step(s, answers, replies, 4);
    lemma_run_step(s, answers, replies, 5);
    lemma_run_step(s, answers, replies, 6);
    lemma_run_step(s, answers, replies, 7);
    lemma_run_step(s, answers, replies, 8);
    lemma_run_step(s, answers, replies, 9);
    lemma_run_step(s, answers, replies, 10);
    if delete {
        lemma_run_step(s, answers, replies, 11);
        lemma_run_step(s, answers, replies, 12);
        lemma_run_ends(s, answers, replies, 13);
    } else {
        lemma_run_ends(s, answers, replies, 11);
    }
    assert(performed(s, replies) =~= apply_operations(s.pin@, branch@, delete));
    assert(replies =~= apply_replies(branch, delete));
    assert(printed =~= Seq::<Seq<char>>::empty());
}

/// The operations with which popping begins when the remote has the stashes `es`:
/// validate, announce the attempt, fetch, read the stashes, and, when there are
/// several, ask the user to pick one.
pub open spec fn pop_opening(es: Seq<(u16, Seq<char>, Seq<char>)>) -> Seq<EffectView> {
    seq![
        EffectView::ValidateRepository,
        EffectView::Print(seq!["Attempting to pop automatically..."@]),
        EffectView::FetchAll,
        EffectView::ListStashEntries,
    ] + (if es.len() > 1 {
        seq![EffectView::Select(select_prompt(), pop_choices(es), 0)]
    } else {
        Seq::empty()
    })
}

/// The answers in popping from branch `branch` where nothing fails, the remote has
/// the stashes `es`, the user picks `choice` when asked, and answers `delete`.
pub open spec fn pop_replies(es: Vec<StashEntry>, choice: usize, branch: String, delete: bool) -> Seq<Reply> {
    seq![Reply::Done, Reply::Done, Reply::Done, Reply::Entries(es)] + (if es@.len() > 1 {
        seq![Reply::Choice(choice)]
    } else {
        Seq::empty()
    }) + seq![Reply::Done] + apply_replies(branch, delete)
}

/// Law: popping from branch `branch`, where no git operation fails, the remote has
/// the stashes `es` (at least one), the user picks the one at `choice` when there
/// are several (the only one is taken without asking), and answers `delete` to the
/// delete question, announces and applies exactly that stash, and succeeds.
#[verifier::rlimit(100)]
pub proof fn lemma_pop_run(
    s: Session,
    answers: spec_fn(EffectView, Reply) -> bool,
    es: Vec<StashEntry>,
    choice: usize,
    branch: String,
    delete: bool,
    replies: Seq<Reply>,
    result: Result<(), PairsError>,
    printed: Seq<Seq<char>>,
)
    requires
        s.stage is PopValidate,
        es@.len() == 1 ==> choice == 0,
        choice < es@.len(),
        never_fails(answers),
        forall|r: Reply| #[trigger] answers(EffectView::ListStashEntries, r) ==> r == Reply::Entries(es),
        forall|r: Reply| #[trigger] answers(EffectView::CurrentBranch, r) ==> r == Reply::Text(branch),
        forall|r: Reply| #[trigger]
            answers(EffectView::RemoteBranchExists(es@[choice as int].pin@), r) ==> r == Reply::Flag(true),
        forall|r: Reply| #[trigger]
            answers(EffectView::Select(select_prompt(), pop_choices(entries_view(es@)), 0), r) ==> r
                == Reply::Choice(choice),
        forall|r: Reply| #[trigger]
            answers(EffectView::Confirm(delete_prompt(), true), r) ==> r == Reply::Flag(delete),
        answered_run(s, replies, answers),
        replay(s, replies).1 == StepView::Finish(result),
        replay(s, replies).2 == printed,
    ensures
        ({
            let pin = es@[choice as int].pin@;
            &&& performed(s, replies) == pop_opening(entries_view(es@)) + seq![
                EffectView::Print(seq![trying_line(pin)]),
            ] + apply_operations(pin, branch@, delete)
            &&& printed == seq!["Attempting to pop automatically..."@, trying_line(pin)]
        }),
        replies == pop_replies(es, choice, branch, delete),
        result == Ok::<(), PairsError>(()),
{
    let pin = es@[choice as int].pin@;
    lemma_run_start(s, replies);
    lemma_run_step(s, answers, replies, 0);
    lemma_run_step(s, answers, replies, 1);
    lemma_run_step(s, answers, replies, 2);
    lemma_run_step(s, answers, replies, 3);
    let m: int = if es@.len() > 1 { 5 } else { 4 };
    if es@.len() > 1 {
        lemma_run_step(s, answers, replies, 4);
    }
    lemma_run_step(s, answers, replies, m);
    lemma_run_step(s, answers, replies, m + 1);
    lemma_run_step(s, answers, replies, m + 2);
    lemma_run_step(s, answers, replies, m + 3);
    lemma_run_step(s, answers, replies, m + 4);
    lemma_run_step(s, answers, replies, m + 5);
    lemma_run_step(s, answers, replies, m + 6);
    lemma_run_step(s, answers, replies, m + 7);
    lemma_run_step(s, answers, replies, m + 8);
    lemma_run_step(s, answers, replies, m + 9);
    lemma_run_step(s, answers, replies, m + 10);
    lemma_run_step(s, answers, replies, m + 11);
    if delete {
        lemma_run_step(s, answers, replies, m + 12);
        lemma_run_step(s, answers, replies, m + 13);
        lemma_run_ends(s, answers, replies, m + 14);
    } else {
        lemma_run_ends(s, answers, replies, m + 12);
    }
    assert(performed(s, replies) =~= pop_opening(entries_view(es@)) + seq![
        EffectView::Print(seq![trying_line(pin)]),
    ] + apply_operations(pin, branch@, delete));
    assert(printed =~= seq!["Attempting to pop automatically..."@, trying_line(pin)]);
    assert(replies =~= pop_replies(es, choice, branch, delete));
}

/// Law: popping where the remote has several stashes `es` and the user's pick
/// `choice` is none of them (the selection was cancelled) fails with `UserAborted`
/// right after the question, having applied nothing.
pub proof fn lemma_pop_abort_run(
    s: Session,
    answers: spec_fn(EffectView, Reply) -> bool,
    es: Vec<StashEntry>,
    choice: usize,
    replies: Seq<Reply>,
    result: Result<(), PairsError>,
    printed: Seq<Seq<char>>,
)
    requires
        s.stage is PopValidate,
        es@.len() > 1,
        choice >= es@.len(),
        never_fails(answers),
        forall|r: Reply| #[trigger] answers(EffectView::ListStashEntries, r) ==> r == Reply::Entries(es),
        forall|r: Reply| #[trigger]
            answers(EffectView::Select(select_prompt(), pop_choices(entries_view(es@)), 0), r) ==> r
                == Reply::Choice(choice),
        answered_run(s, replies, answers),
        replay(s, replies).1 == StepView::Finish(result),
        replay(s, replies).2 == printed,
    ensures
        performed(s, replies) == pop_opening(entries_view(es@)),
        replies == seq![Reply::Done, Reply::Done, Reply::Done, Reply::Entries(es), Reply::Choice(choice)],
        result == Err::<(), PairsError>(PairsError::UserAborted),
        printed == seq!["Attempting to pop automatically..."@],
{
    lemma_run_start(s, replies);
    lemma_run_step(s, answers, replies, 0);
    lemma_run_step(s, answers, replies, 1);
    lemma_run_step(s, answers, replies, 2);
    lemma_run_step(s, answers, replies, 3);
    lemma_run_step(s, answers, replies, 4);
    lemma_run_ends(s, answers, replies, 5);
    assert(performed(s, replies) =~= pop_opening(entries_view(es@)));
    assert(replies =~= seq![Reply::Done, Reply::Done, Reply::Done, Reply::Entries(es), Reply::Choice(choice)]);
    assert(printed =~= seq!["Attempting to pop automatically..."@]);
}

/// Law: in a finished run, an operation that fails is the last one performed, and
/// the command ends with its error.
pub proof fn lemma_failure_is_last(
    s: Session,
    answers: spec_fn(EffectView, Reply) -> bool,
    replies: Seq<Reply>,
    k: int,
    e: PairsError,
)
    requires
        answered_run(s, replies, answers),
        replay(s, replies).1 is Finish,
        0 <= k < replies.len(),
        replies[k] == Reply::Failed(e),
    ensures
        k == replies.len() - 1,
        replay(s, replies).1 == StepView::Finish(Err(e)),
{
    assert(replay(s, replies.take(k)).1 is Perform);
    lemma_run_step(s, answers, replies, k);
    lemma_run_ends(s, answers, replies, k + 1);
}

/// Whether `answers` allows at most one answer to each operation.
pub open spec fn answers_uniquely(answers: spec_fn(EffectView, Reply) -> bool) -> bool {
    forall|e: EffectView, r1: Reply, r2: Reply|
        #![trigger answers(e, r1), answers(e, r2)]
        answers(e, r1) && answers(e, r2) ==> r1 == r2
}

/// Two runs answered by a prompter and a git client that answer uniquely agree on
/// their first `n` answers.
proof fn lemma_runs_agree(
    start: Session,
    answers: spec_fn(EffectView, Reply) -> bool,
    rs1: Seq<Reply>,
    rs2: Seq<Reply>,
    n: int,
)
    requires
        answers_uniquely(answers),
        answered_run(start, rs1, answers),
        answered_run(start, rs2, answers),
        0 <= n <= rs1.len(),
        n <= rs2.len(),
    ensures
        rs1.take(n) == rs2.take(n),
    decreases n,
{
    if n > 0 {
        let k = n - 1;
        lemma_runs_agree(start, answers, rs1, rs2, k);
        assert(replay(start, rs1.take(k)).1 is Perform);
        assert(replay(start, rs2.take(k)).1 is Perform);
        let e = replay(start, rs1.take(k)).1->Perform_0;
        assert(answers(e, rs1[k]) && answers(e, rs2[k]));
        assert(rs1.take(n) =~= rs1.take(k).push(rs1[k]));
        assert(rs2.take(n) =~= rs2.take(k).push(rs2[k]));
    } else {
        assert(rs1.take(0) =~= rs2.take(0));
    }
}

/// Two finished runs answered by a prompter and a git client that answer uniquely
/// are the same run.
proof fn lemma_finished_runs_equal(
    start: Session,
    answers: spec_fn(EffectView, Reply) -> bool,
    rs1: Seq<Reply>,
    rs2: Seq<Reply>,
)
    requires
        answers_uniquely(answers),
        answered_run(start, rs1, answers),
        answered_run(start, rs2, answers),
        replay(start, rs1).1 is Finish,
        replay(start, rs2).1 is Finish,
    ensures
        rs1 == rs2,
{
    if rs1.len() <= rs2.len() {
        lemma_runs_agree(start, answers, rs1, rs2, rs1.len() as int);
        assert(rs1.take(rs1.len() as int) =~= rs1);
        if rs1.len() < rs2.len() {
            assert(replay(start, rs2.take(rs1.len() as int)).1 is Perform);
        }
        assert(rs2.take(rs2.len() as int) =~= rs2);
    } else {
        lemma_runs_agree(start, answers, rs2, rs1, rs2.len() as int);
        assert(rs2.take(rs2.len() as int) =~= rs2);
        assert(replay(start, rs1.take(rs2.len() as int)).1 is Perform);
    }
}

/// Law: when each operation can get only one answer, a session ends in one way
/// only: the same answers, so the same operations, result and output.
pub proof fn lemma_run_determined(
    start: Session,
    answers: spec_fn(EffectView, Reply) -> bool,
    rs1: Seq<Reply>,
    rs2: Seq<Reply>,
)
    requires
        answers_uniquely(answers),
        answered_run(start, rs1, answers),
        answered_run(start, rs2, answers),
        replay(start, rs1).1 is Finish,
        replay(start, rs2).1 is Finish,
    ensures
        rs1 == rs2,
        performed(start, rs1) == performed(start, rs2),
        replay(start, rs1) == replay(start, rs2),
{
    lemma_finished_runs_equal(start, answers, rs1, rs2);
}

/// Whether `s` is a command's first stage, where it validates the repository.
pub open spec fn validating(s: Session) -> bool {
    s.stage is StashValidate || s.stage is ApplyValidate || s.stage is ListValidate
        || s.stage is PopValidate
}

/// Law: a command whose repository the git client refuses (its every answer to the
/// validation is the error `e`) performs nothing after the validation, prints
/// nothing and ends with `e`.
pub proof fn lemma_refused_repository_run(
    s: Session,
    answers: spec_fn(EffectView, Reply) -> bool,
    e: PairsError,
    replies: Seq<Reply>,
)
    requires
        validating(s),
        forall|r: Reply| #[trigger] answers(EffectView::ValidateRepository, r) ==> r == Reply::Failed(e),
        answered_run(s, replies, answers),
        replay(s, replies).1 is Finish,
    ensures
        replies == seq![Reply::Failed(e)],
        performed(s, replies) == seq![EffectView::ValidateRepository],
        replay(s, replies).1 == StepView::Finish(Err(e)),
        replay(s, replies).2 == Seq::<Seq<char>>::empty(),
{
    assert(replay(s, Seq::<Reply>::empty()).1 == StepView::Perform(pending(s)));
    if replies.len() == 0 {
        assert(replies =~= Seq::<Reply>::empty());
    }
    assert(replies.take(0) =~= Seq::<Reply>::empty());
    assert(replay(s, replies.take(0)).1 is Perform);
    assert(answers(EffectView::ValidateRepository, replies[0]));
    assert(replies.take(1) =~= seq![Reply::Failed(e)]);
    lemma_failed_validation_aborts(s, e);
    if replies.len() > 1 {
        assert(replay(s, replies.take(1)).1 is Perform);
    }
    assert(replies =~= seq![Reply::Failed(e)]);
    assert(performed(s, replies) =~= seq![EffectView::ValidateRepository]);
}

/// Law: a client's part of a run's record holds exactly the record's entries for
/// that client's operations: the git client's part the git operations, the
/// prompter's part the questions.
pub proof fn lemma_parts_members(record: Seq<(EffectView, Reply)>)
    ensures
        forall|c: (EffectView, Reply)|
            #[trigger] git_part(record).contains(c) <==> (record.contains(c) && is_git_operation(c.0)),
        forall|c: (EffectView, Reply)|
            #[trigger] prompt_part(record).contains(c) <==> (record.contains(c) && is_question(c.0)),
    decreases record.len(),
{
    if record.len() > 0 {
        let front = record.drop_last();
        let last = record.last();
        lemma_parts_members(front);
        assert(record =~= front.push(last));
        assert forall|c: (EffectView, Reply)| #[trigger] record.contains(c) <==> (front.contains(c) || c == last) by {
            if record.contains(c) {
                let i = choose|i: int| 0 <= i < record.len() && record[i] == c;
                if i < front.len() {
                    assert(front[i] == c);
                }
            }
            if front.contains(c) {
                let i = choose|i: int| 0 <= i < front.len() && front[i] == c;
                assert(record[i] == c);
            }
            if c == last {
                assert(record[record.len() - 1] == c);
            }
        }
        let gf = git_part(front);
        let pf = prompt_part(front);
        assert forall|c: (EffectView, Reply)| #[trigger] gf.push(last).contains(c) <==> (gf.contains(c) || c == last) by {
            if gf.push(last).contains(c) {
                let i = choose|i: int| 0 <= i < gf.push(last).len() && gf.push(last)[i] == c;
                if i < gf.len() {
                    assert(gf[i] == c);
                }
            }
            if gf.contains(c) {
                let i = choose|i: int| 0 <= i < gf.len() && gf[i] == c;
                assert(gf.push(last)[i] == c);
            }
            if c == last {
                assert(gf.push(last)[gf.len() as int] == c);
            }
        }
        assert forall|c: (EffectView, Reply)| #[trigger] pf.push(last).contains(c) <==> (pf.contains(c) || c == last) by {
            if pf.push(last).contains(c) {
                let i = choose|i: int| 0 <= i < pf.push(last).len() && pf.push(last)[i] == c;
                if i < pf.len() {
                    assert(pf[i] == c);
                }
            }
            if pf.contains(c) {
                let i = choose|i: int| 0 <= i < pf.len() && pf[i] == c;
                assert(pf.push(last)[i] == c);
            }
            if c == last {
                assert(pf.push(last)[pf.len() as int] == c);
            }
        }
    }
}

/// Law: the answers a run got are the ones the clients logged. When both clients
/// keep a log and every operation of its own that the run added to either log got
/// an answer allowed by `answers`,
/// the run is answered by `answers` (a print by `Done`).
pub proof fn lemma_run_answers_logged(
    s: Session,
    replies: Seq<Reply>,
    answers: spec_fn(EffectView, Reply) -> bool,
    git_before: Seq<(EffectView, Reply)>,
    git_after: Seq<(EffectView, Reply)>,
    prompt_before: Seq<(EffectView, Reply)>,
    prompt_after: Seq<(EffectView, Reply)>,
)
    requires
        well_answered(s, replies),
        log_grows(Some(git_before), Some(git_after), git_part(run_record(s, replies))),
        log_grows(Some(prompt_before), Some(prompt_after), prompt_part(run_record(s, replies))),
        forall|i: int|
            git_before.len() <= i < git_after.len() && is_git_operation(git_after[i].0) ==> answers(
                git_after[i].0,
                git_after[i].1,
            ),
        forall|i: int|
            prompt_before.len() <= i < prompt_after.len() && is_question(prompt_after[i].0) ==> answers(
                prompt_after[i].0,
                prompt_after[i].1,
            ),
    ensures
        answered_run(s, replies, |e: EffectView, r: Reply| e is Print || answers(e, r)),
{
    let record = run_record(s, replies);
    lemma_parts_members(record);
    assert forall|i: int| 0 <= i < replies.len() implies ({
        let e = (#[trigger] replay(s, replies.take(i))).1->Perform_0;
        e is Print || answers(e, replies[i])
    }) by {
        let e = replay(s, replies.take(i)).1->Perform_0;
        let c = (e, replies[i]);
        assert(record[i] == c);
        assert(record.contains(c));
        if is_git_operation(e) {
            assert(git_part(record).contains(c));
            let j = choose|j: int| 0 <= j < git_part(record).len() && git_part(record)[j] == c;
            assert(git_after == git_before + git_part(record));
            assert(git_after[git_before.len() + j] == c);
        } else if is_question(e) {
            assert(prompt_part(record).contains(c));
            let j = choose|j: int| 0 <= j < prompt_part(record).len() && prompt_part(record)[j] == c;
            assert(prompt_after == prompt_before + prompt_part(record));
            assert(prompt_after[prompt_before.len() + j] == c);
        }
    }
}

/// Law: an operation a run did not perform is in neither client's part of its
/// record: no client was asked for it.
pub proof fn lemma_unperformed_not_logged(s: Session, replies: Seq<Reply>, e: EffectView)
    requires
        !performed(s, replies).contains(e),
    ensures
        forall|r: Reply| !(#[trigger] git_part(run_record(s, replies)).contains((e, r))),
        forall|r: Reply| !(#[trigger] prompt_part(run_record(s, replies)).contains((e, r))),
{
    let record = run_record(s, replies);
    lemma_parts_members(record);
    assert forall|r: Reply| !(#[trigger] record.contains((e, r))) by {
        if record.contains((e, r)) {
            let k = choose|k: int| 0 <= k < record.len() && record[k] == (e, r);
            assert(performed(s, replies)[k] == e);
        }
    }
}

/// Law: listing with a git client and a prompter that keep logs, where the git
/// client's logged answers are a valid repository, a fetch, and the stashes `es`,
/// asks the git client for exactly those three reads in order, asks the prompter
/// nothing, prints the stash table of `es` (or the note that there is none), and
/// succeeds.
pub proof fn lemma_list_command_calls(
    s: Session,
    es: Vec<StashEntry>,
    result: Result<(), PairsError>,
    printed: Seq<Seq<char>>,
    git_before: Seq<(EffectView, Reply)>,
    git_after: Seq<(EffectView, Reply)>,
    prompt_before: Seq<(EffectView, Reply)>,
    prompt_after: Seq<(EffectView, Reply)>,
)
    requires
        s.stage is ListValidate,
        runs_to(s, result, printed, Some(git_before), Some(git_after), Some(prompt_before), Some(prompt_after)),
        forall|i: int|
            git_before.len() <= i < git_after.len() ==> list_answer(git_after[i].0, git_after[i].1, es),
    ensures
        git_after == git_before + seq![
            (EffectView::ValidateRepository, Reply::Done),
            (EffectView::FetchAll, Reply::Done),
            (EffectView::ListStashEntries, Reply::Entries(es)),
        ],
        prompt_after == prompt_before,
        result == Ok::<(), PairsError>(()),
        printed == list_output(entries_view(es@)),
{
    let replies = choose|replies: Seq<Reply>|
        {
            &&& well_answered(s, replies)
            &&& #[trigger] replay(s, replies).1 == StepView::Finish(result)
            &&& replay(s, replies).2 == printed
            &&& log_grows(Some(git_before), Some(git_after), git_part(run_record(s, replies)))
            &&& log_grows(Some(prompt_before), Some(prompt_after), prompt_part(run_record(s, replies)))
        };
    let answers = |e: EffectView, r: Reply| list_answer(e, r, es);
    lemma_run_answers_logged(s, replies, answers, git_before, git_after, prompt_before, prompt_after);
    let rel = |e: EffectView, r: Reply| e is Print || answers(e, r);
    lemma_list_run(s, rel, es, replies, result, printed);
    let a = (EffectView::ValidateRepository, Reply::Done);
    let b = (EffectView::FetchAll, Reply::Done);
    let c = (EffectView::ListStashEntries, Reply::Entries(es));
    let d = (EffectView::Print(list_output(entries_view(es@))), Reply::Done);
    let record = run_record(s, replies);
    assert(record =~= seq![a, b, c, d]);
    lemma_parts_push(seq![a], b);
    lemma_parts_push(seq![a, b], c);
    lemma_parts_push(seq![a, b, c], d);
    assert(seq![a].push(b) =~= seq![a, b]);
    assert(seq![a, b].push(c) =~= seq![a, b, c]);
    assert(seq![a, b, c].push(d) =~= seq![a, b, c, d]);
    lemma_record_entry(a.0, a.1);
    lemma_record_entry(b.0, b.1);
    lemma_record_entry(c.0, c.1);
    lemma_record_entry(d.0, d.1);
    assert(git_part(record) =~= seq![a, b, c]);
    assert(prompt_part(record) =~= Seq::<(EffectView, Reply)>::empty());
    assert(prompt_before + Seq::<(EffectView, Reply)>::empty() =~= prompt_before);
}

/// The answers a git client gives when listing: a valid repository, a fetch, and
/// the stashes `es`.
pub open spec fn list_answer(e: EffectView, r: Reply, es: Vec<StashEntry>) -> bool {
    match e {
        EffectView::ValidateRepository | EffectView::FetchAll => r == Reply::Done,
        EffectView::ListStashEntries => r == Reply::Entries(es),
        _ => true,
    }
}

/// The run behind a command that reached `result` and `printed` with clients that
/// keep logs: its answers, which are the logged ones, and what it added to each log.
proof fn lemma_logged_run(
    s: Session,
    answers: spec_fn(EffectView, Reply) -> bool,
    result: Result<(), PairsError>,
    printed: Seq<Seq<char>>,
    git_before: Seq<(EffectView, Reply)>,
    git_after: Seq<(EffectView, Reply)>,
    prompt_before: Seq<(EffectView, Reply)>,
    prompt_after: Seq<(EffectView, Reply)>,
) -> (replies: Seq<Reply>)
    requires
        runs_to(s, result, printed, Some(git_before), Some(git_after), Some(prompt_before), Some(prompt_after)),
        forall|i: int|
            git_before.len() <= i < git_after.len() && is_git_operation(git_after[i].0) ==> answers(
                git_after[i].0,
                git_after[i].1,
            ),
        forall|i: int|
            prompt_before.len() <= i < prompt_after.len() && is_question(prompt_after[i].0) ==> answers(
                prompt_after[i].0,
                prompt_after[i].1,
            ),
    ensures
        answered_run(s, replies, |e: EffectView, r: Reply| e is Print || answers(e, r)),
        replay(s, replies).1 == StepView::Finish(result),
        replay(s, replies).2 == printed,
        git_after == git_before + git_part(run_record(s, replies)),
        prompt_after == prompt_before + prompt_part(run_record(s, replies)),
{
    let replies = choose|replies: Seq<Reply>|
        {
            &&& well_answered(s, replies)
            &&& #[trigger] replay(s, replies).1 == StepView::Finish(result)
            &&& replay(s, replies).2 == printed
            &&& log_grows(Some(git_before), Some(git_after), git_part(run_record(s, replies)))
            &&& log_grows(Some(prompt_before), Some(prompt_after), prompt_part(run_record(s, replies)))
        };
    lemma_run_answers_logged(s, replies, answers, git_before, git_after, prompt_before, prompt_after);
    replies
}

/// The record of a run that performed `ops` with the answers `replies`.
pub open spec fn record_of(ops: Seq<EffectView>, replies: Seq<Reply>) -> Seq<(EffectView, Reply)> {
    Seq::new(ops.len(), |k: int| (ops[k], replies[k]))
}

/// The answers a git client gives when stashing from branch `branch`: changes to
/// stash, the branch, the pin `pin`, whether there are commits, and no failure.
pub open spec fn stash_git_answer(e: EffectView, r: Reply, branch: String, pin: Pin, has_commits: bool) -> bool {
    match e {
        EffectView::IsWorkingTreeClean => r == Reply::Flag(false),
        EffectView::CurrentBranch => r == Reply::Text(branch),
        EffectView::GenerateUniquePin => r == Reply::NewPin(pin),
        EffectView::HasCommits => r == Reply::Flag(has_commits),
        _ => !(r is Failed),
    }
}

/// Law: stashing with a git client and a prompter that keep logs, where the git
/// client's logged answers are those of `stash_git_answer` and the user answers
/// `discard` to the discard question, adds to the logs exactly the stash operations
/// of that pin and answer with their answers: in particular the changes are
/// discarded (reset only with commits, clean) only after a yes and merged back only
/// after a no. It prints the pin and succeeds.
#[verifier::rlimit(40)]
pub proof fn lemma_stash_command_calls(
    s: Session,
    branch: String,
    pin: Pin,
    discard: bool,
    has_commits: bool,
    result: Result<(), PairsError>,
    printed: Seq<Seq<char>>,
    git_before: Seq<(EffectView, Reply)>,
    git_after: Seq<(EffectView, Reply)>,
    prompt_before: Seq<(EffectView, Reply)>,
    prompt_after: Seq<(EffectView, Reply)>,
)
    requires
        s.stage is StashValidate,
        runs_to(s, result, printed, Some(git_before), Some(git_after), Some(prompt_before), Some(prompt_after)),
        forall|i: int|
            git_before.len() <= i < git_after.len() && is_git_operation(git_after[i].0) ==> stash_git_answer(
                git_after[i].0,
                git_after[i].1,
                branch,
                pin,
                has_commits,
            ),
        forall|i: int|
            prompt_before.len() <= i < prompt_after.len() && prompt_after[i].0 == EffectView::Confirm(
                discard_prompt(),
                true,
            ) ==> prompt_after[i].1 == Reply::Flag(discard),
    ensures
        ({
            let record = record_of(
                stash_operations(pin@, branch@, discard, has_commits),
                stash_replies(branch, pin, discard, has_commits),
            );
            &&& git_after == git_before + git_part(record)
            &&& prompt_after == prompt_before + prompt_part(record)
        }),
        stash_operations(pin@, branch@, discard, has_commits).contains(EffectView::ResetHardHead) <==> discard
            && has_commits,
        stash_operations(pin@, branch@, discard, has_commits).contains(EffectView::CleanFd) <==> discard,
        stash_operations(pin@, branch@, discard, has_commits).contains(
            EffectView::MergeSquashNoCommit(branch_of(pin@)),
        ) <==> !discard,
        result == Ok::<(), PairsError>(()),
        printed == stash_announcement(pin@),
{
    let answers = |e: EffectView, r: Reply|
        if is_question(e) {
            e == EffectView::Confirm(discard_prompt(), true) ==> r == Reply::Flag(discard)
        } else {
            stash_git_answer(e, r, branch, pin, has_commits)
        };
    let replies = lemma_logged_run(
        s,
        answers,
        result,
        printed,
        git_before,
        git_after,
        prompt_before,
        prompt_after,
    );
    let rel = |e: EffectView, r: Reply| e is Print || answers(e, r);
    lemma_stash_run(s, rel, branch, pin, discard, has_commits, replies, result, printed);
    let ops = stash_operations(pin@, branch@, discard, has_commits);
    assert(run_record(s, replies) =~= record_of(ops, stash_replies(branch, pin, discard, has_commits)));
    if discard && has_commits {
        assert(ops[13] == EffectView::ResetHardHead);
    } else {
        assert forall|k: int| 0 <= k < ops.len() implies ops[k] != EffectView::ResetHardHead by {}
    }
    if discard {
        assert(ops[ops.len() - 2] == EffectView::CleanFd);
    } else {
        assert forall|k: int| 0 <= k < ops.len() implies ops[k] != EffectView::CleanFd by {}
        assert(ops[12] == EffectView::MergeSquashNoCommit(branch_of(pin@)));
    }
    if discard {
        assert forall|k: int| 0 <= k < ops.len() implies ops[k] != EffectView::MergeSquashNoCommit(
            branch_of(pin@),
        ) by {}
    }
}

/// The answers a git client gives when applying the stash of `pin` from branch
/// `branch`: the branch, that the remote has the stash branch, and no failure.
pub open spec fn apply_git_answer(e: EffectView, r: Reply, branch: String, pin: u16) -> bool {
    match e {
        EffectView::CurrentBranch => r == Reply::Text(branch),
        EffectView::RemoteBranchExists(p) => (p == pin ==> r == Reply::Flag(true)) && !(r is Failed),
        _ => !(r is Failed),
    }
}

/// Law: applying the session's pin with a git client and a prompter that keep logs,
/// where the git client's logged answers are those of `apply_git_answer` and the
/// user answers `delete` to the delete question, adds to the logs exactly the apply
/// operations of that pin and answer with their answers: in particular the stash
/// branch is deleted, locally and on the remote, only after a yes. It prints nothing
/// and succeeds.
#[verifier::rlimit(40)]
pub proof fn lemma_apply_command_calls(
    s: Session,
    branch: String,
    delete: bool,
    result: Result<(), PairsError>,
    printed: Seq<Seq<char>>,
    git_before: Seq<(EffectView, Reply)>,
    git_after: Seq<(EffectView, Reply)>,
    prompt_before: Seq<(EffectView, Reply)>,
    prompt_after: Seq<(EffectView, Reply)>,
)
    requires
        s.stage is ApplyValidate,
        runs_to(s, result, printed, Some(git_before), Some(git_after), Some(prompt_before), Some(prompt_after)),
        forall|i: int|
            git_before.len() <= i < git_after.len() && is_git_operation(git_after[i].0) ==> apply_git_answer(
                git_after[i].0,
                git_after[i].1,
                branch,
                s.pin@,
            ),
        forall|i: int|
            prompt_before.len() <= i < prompt_after.len() && prompt_after[i].0 == EffectView::Confirm(
                delete_prompt(),
                true,
            ) ==> prompt_after[i].1 == Reply::Flag(delete),
    ensures
        ({
            let record = record_of(apply_operations(s.pin@, branch@, delete), apply_replies(branch, delete));
            &&& git_after == git_before + git_part(record)
            &&& prompt_after == prompt_before + prompt_part(record)
        }),
        apply_operations(s.pin@, branch@, delete).contains(EffectView::DeleteBranchLocal(branch_of(s.pin@)))
            <==> delete,
        apply_operations(s.pin@, branch@, delete).contains(EffectView::DeleteBranchRemote(branch_of(s.pin@)))
            <==> delete,
        result == Ok::<(), PairsError>(()),
        printed == Seq::<Seq<char>>::empty(),
{
    let answers = |e: EffectView, r: Reply|
        if is_question(e) {
            e == EffectView::Confirm(delete_prompt(), true) ==> r == Reply::Flag(delete)
        } else {
            apply_git_answer(e, r, branch, s.pin@)
        };
    let replies = lemma_logged_run(
        s,
        answers,
        result,
        printed,
        git_before,
        git_after,
        prompt_before,
        prompt_after,
    );
    let rel = |e: EffectView, r: Reply| e is Print || answers(e, r);
    lemma_apply_run(s, rel, branch, delete, replies, result, printed);
    let ops = apply_operations(s.pin@, branch@, delete);
    assert(run_record(s, replies) =~= record_of(ops, apply_replies(branch, delete)));
    if delete {
        assert(ops[11] == EffectView::DeleteBranchLocal(branch_of(s.pin@)));
        assert(ops[12] == EffectView::DeleteBranchRemote(branch_of(s.pin@)));
    } else {
        assert forall|k: int| 0 <= k < ops.len() implies ops[k] != EffectView::DeleteBranchLocal(
            branch_of(s.pin@),
        ) && ops[k] != EffectView::DeleteBranchRemote(branch_of(s.pin@)) by {}
    }
}

/// The operations of popping the stash at `choice` of `es` from branch `branch`,
/// with the answer `delete` to the delete question.
pub open spec fn pop_operations(es: Vec<StashEntry>, choice: usize, branch: Seq<char>, delete: bool) -> Seq<
    EffectView,
> {
    let pin = es@[choice as int].pin@;
    pop_opening(entries_view(es@)) + seq![EffectView::Print(seq![trying_line(pin)])] + apply_operations(
        pin,
        branch,
        delete,
    )
}

/// The answers a git client gives when popping from branch `branch`: the stashes
/// `es`, that the remote has the branch of `pin`, and no failure.
pub open spec fn pop_git_answer(e: EffectView, r: Reply, es: Vec<StashEntry>, branch: String, pin: u16) -> bool {
    match e {
        EffectView::ListStashEntries => r == Reply::Entries(es),
        EffectView::CurrentBranch => r == Reply::Text(branch),
        EffectView::RemoteBranchExists(p) => (p == pin ==> r == Reply::Flag(true)) && !(r is Failed),
        _ => !(r is Failed),
    }
}

/// Law: popping with a git client and a prompter that keep logs, where the git
/// client's logged answers are those of `pop_git_answer` for the stashes `es` and the
/// pin at `choice`, the user picks `choice` when asked to select and answers `delete`
/// to the delete question, adds to the logs exactly the pop operations with their
/// answers: the only stash is applied without a question, of several the picked one
/// is applied. It announces the attempt and the pin, and succeeds.
pub proof fn lemma_pop_command_calls(
    s: Session,
    es: Vec<StashEntry>,
    choice: usize,
    branch: String,
    delete: bool,
    result: Result<(), PairsError>,
    printed: Seq<Seq<char>>,
    git_before: Seq<(EffectView, Reply)>,
    git_after: Seq<(EffectView, Reply)>,
    prompt_before: Seq<(EffectView, Reply)>,
    prompt_after: Seq<(EffectView, Reply)>,
)
    requires
        s.stage is PopValidate,
        es@.len() == 1 ==> choice == 0,
        choice < es@.len(),
        runs_to(s, result, printed, Some(git_before), Some(git_after), Some(prompt_before), Some(prompt_after)),
        forall|i: int|
            git_before.len() <= i < git_after.len() && is_git_operation(git_after[i].0) ==> pop_git_answer(
                git_after[i].0,
                git_after[i].1,
                es,
                branch,
                es@[choice as int].pin@,
            ),
        forall|i: int|
            prompt_before.len() <= i < prompt_after.len() && prompt_after[i].0 == EffectView::Select(
                select_prompt(),
                pop_choices(entries_view(es@)),
                0,
            ) ==> prompt_after[i].1 == Reply::Choice(choice),
        forall|i: int|
            prompt_before.len() <= i < prompt_after.len() && prompt_after[i].0 == EffectView::Confirm(
                delete_prompt(),
                true,
            ) ==> prompt_after[i].1 == Reply::Flag(delete),
    ensures
        ({
            let record = record_of(
                pop_operations(es, choice, branch@, delete),
                pop_replies(es, choice, branch, delete),
            );
            &&& git_after == git_before + git_part(record)
            &&& prompt_after == prompt_before + prompt_part(record)
        }),
        es@.len() == 1 ==> forall|k: int|
            0 <= k < pop_operations(es, choice, branch@, delete).len() ==> !(#[trigger] pop_operations(
                es,
                choice,
                branch@,
                delete,
            )[k] is Select),
        result == Ok::<(), PairsError>(()),
        printed == seq!["Attempting to pop automatically..."@, trying_line(es@[choice as int].pin@)],
{
    let pin = es@[choice as int].pin@;
    let answers = |e: EffectView, r: Reply|
        if is_question(e) {
            &&& e == EffectView::Select(select_prompt(), pop_choices(entries_view(es@)), 0) ==> r
                == Reply::Choice(choice)
            &&& e == EffectView::Confirm(delete_prompt(), true) ==> r == Reply::Flag(delete)
        } else {
            pop_git_answer(e, r, es, branch, pin)
        };
    let replies = lemma_logged_run(
        s,
        answers,
        result,
        printed,
        git_before,
        git_after,
        prompt_before,
        prompt_after,
    );
    let rel = |e: EffectView, r: Reply| e is Print || answers(e, r);
    lemma_pop_run(s, rel, es, choice, branch, delete, replies, result, printed);
    let ops = pop_operations(es, choice, branch@, delete);
    assert(run_record(s, replies) =~= record_of(ops, pop_replies(es, choice, branch, delete)));
}

} // verus!
