//! Each command as a session: from its state and the answer to the last git or
//! prompt operation, the next state and the next operation (or the result).
use crate::commands::list::{list_output, stash_table};
use crate::commands::pop::{choice_lines, pop_choices};
use crate::error::PairsError;
use crate::git_client::{branch_of, entries_view, Pin, StashEntry};
use crate::text::{decimal, push_decimal, push_str_chars, string_of, views};
use vstd::prelude::*;

verus! {

/// An operation a command asks to have performed: a git operation, a question to
/// the user, or lines to print.
pub enum Effect {
    ValidateRepository,
    IsWorkingTreeClean,
    HasCommits,
    CurrentBranch,
    FetchAll,
    GenerateUniquePin,
    RemoteBranchExists(Pin),
    CheckoutNewBranch(String),
    AddAll,
    CommitNoVerify(String),
    PushSetUpstream(String),
    Checkout(String),
    DeleteBranchLocal(String),
    DeleteBranchRemote(String),
    ResetHardHead,
    CleanFd,
    MergeSquashNoCommit(String),
    ListStashEntries,
    PullRebase,
    ResetMixed,
    Confirm(String, bool),
    Select(String, Vec<String>, usize),
    Print(Vec<String>),
}

/// An operation with its strings as character sequences.
pub enum EffectView {
    ValidateRepository,
    IsWorkingTreeClean,
    HasCommits,
    CurrentBranch,
    FetchAll,
    GenerateUniquePin,
    RemoteBranchExists(u16),
    CheckoutNewBranch(Seq<char>),
    AddAll,
    CommitNoVerify(Seq<char>),
    PushSetUpstream(Seq<char>),
    Checkout(Seq<char>),
    DeleteBranchLocal(Seq<char>),
    DeleteBranchRemote(Seq<char>),
    ResetHardHead,
    CleanFd,
    MergeSquashNoCommit(Seq<char>),
    ListStashEntries,
    PullRebase,
    ResetMixed,
    Confirm(Seq<char>, bool),
    Select(Seq<char>, Seq<Seq<char>>, usize),
    Print(Seq<Seq<char>>),
}

impl View for Effect {
    type V = EffectView;

    open spec fn view(&self) -> EffectView {
        match self {
            Effect::ValidateRepository => EffectView::ValidateRepository,
            Effect::IsWorkingTreeClean => EffectView::IsWorkingTreeClean,
            Effect::HasCommits => EffectView::HasCommits,
            Effect::CurrentBranch => EffectView::CurrentBranch,
            Effect::FetchAll => EffectView::FetchAll,
            Effect::GenerateUniquePin => EffectView::GenerateUniquePin,
            Effect::RemoteBranchExists(p) => EffectView::RemoteBranchExists(p@),
            Effect::CheckoutNewBranch(b) => EffectView::CheckoutNewBranch(b@),
            Effect::AddAll => EffectView::AddAll,
            Effect::CommitNoVerify(m) => EffectView::CommitNoVerify(m@),
            Effect::PushSetUpstream(b) => EffectView::PushSetUpstream(b@),
            Effect::Checkout(b) => EffectView::Checkout(b@),
            Effect::DeleteBranchLocal(b) => EffectView::DeleteBranchLocal(b@),
            Effect::DeleteBranchRemote(b) => EffectView::DeleteBranchRemote(b@),
            Effect::ResetHardHead => EffectView::ResetHardHead,
            Effect::CleanFd => EffectView::CleanFd,
            Effect::MergeSquashNoCommit(b) => EffectView::MergeSquashNoCommit(b@),
            Effect::ListStashEntries => EffectView::ListStashEntries,
            Effect::PullRebase => EffectView::PullRebase,
            Effect::ResetMixed => EffectView::ResetMixed,
            Effect::Confirm(p, d) => EffectView::Confirm(p@, *d),
            Effect::Select(p, items, d) => EffectView::Select(p@, views(items@), *d),
            Effect::Print(lines) => EffectView::Print(views(lines@)),
        }
    }
}

/// The answer to an operation: success without a value, a yes/no, a text, a pin,
/// the stash list, the index the user chose, or the error the operation failed with.
pub enum Reply {
    Done,
    Flag(bool),
    Text(String),
    NewPin(Pin),
    Entries(Vec<StashEntry>),
    Choice(usize),
    Failed(PairsError),
}

/// What a session asks for next: an operation, or the end with the command's result.
pub enum Step {
    Perform(Effect),
    Finish(Result<(), PairsError>),
}

/// A step with the operation's strings as character sequences.
pub enum StepView {
    Perform(EffectView),
    Finish(Result<(), PairsError>),
}

impl View for Step {
    type V = StepView;

    open spec fn view(&self) -> StepView {
        match self {
            Step::Perform(e) => StepView::Perform(e@),
            Step::Finish(r) => StepView::Finish(*r),
        }
    }
}

/// Where a session stands: which operation's answer it waits for.
#[derive(Clone, Copy)]
pub enum Stage {
    StashValidate,
    StashCleanCheck,
    StashBranch,
    StashFetch,
    StashPin,
    StashNewBranch,
    StashAdd,
    StashCommit,
    StashPush,
    StashReturn,
    StashAnnounce,
    StashDiscardPrompt,
    StashHasCommits,
    StashReset,
    StashClean,
    StashMerge,
    StashDeleteLocal,
    ApplyValidate,
    ApplyPull,
    ApplyBranch,
    ApplyFetch,
    ApplyExists,
    ApplyCheckoutStash,
    ApplyPullStash,
    ApplyReturn,
    ApplyMerge,
    ApplyResetMixed,
    ApplyDeletePrompt,
    ApplyDeleteLocal,
    ApplyDeleteRemote,
    ListValidate,
    ListFetch,
    ListEntries,
    ListPrint,
    PopValidate,
    PopAnnounce,
    PopFetch,
    PopEntries,
    PopSelect,
    PopTrying,
    Finished,
}

/// The state of a running command: its stage, the pin it works on, the branch it
/// started from, and the stash list it read.
pub struct Session {
    pub stage: Stage,
    pub pin: Pin,
    pub current_branch: String,
    pub entries: Vec<StashEntry>,
}

/// The message of the commit that holds a stash.
pub open spec fn stash_commit_message() -> Seq<char> {
    "temporary pairs branch [ci-skip] [ci skip] [skip ci]"@
}

/// The question asked after stashing.
pub open spec fn discard_prompt() -> Seq<char> {
    "Discard changes locally?"@
}

/// The question asked after applying a stash.
pub open spec fn delete_prompt() -> Seq<char> {
    "Delete temporary pairs branch locally and remotely?"@
}

/// The question asked when several stashes could be popped.
pub open spec fn select_prompt() -> Seq<char> {
    "Select a stash to pop"@
}

/// The lines printed once a stash is pushed.
pub open spec fn stash_announcement(pin: u16) -> Seq<Seq<char>> {
    seq![""@, "pairs pin: "@ + decimal(pin as nat)]
}

/// The line printed before popping the stash with pin `pin`.
pub open spec fn trying_line(pin: u16) -> Seq<char> {
    "Trying to pop '"@ + decimal(pin as nat) + "'"@
}

/// The operation a session waits on at its stage.
pub open spec fn pending(s: Session) -> EffectView {
    let branch = branch_of(s.pin@);
    match s.stage {
        Stage::StashValidate => EffectView::ValidateRepository,
        Stage::StashCleanCheck => EffectView::IsWorkingTreeClean,
        Stage::StashBranch => EffectView::CurrentBranch,
        Stage::StashFetch => EffectView::FetchAll,
        Stage::StashPin => EffectView::GenerateUniquePin,
        Stage::StashNewBranch => EffectView::CheckoutNewBranch(branch),
        Stage::StashAdd => EffectView::AddAll,
        Stage::StashCommit => EffectView::CommitNoVerify(stash_commit_message()),
        Stage::StashPush => EffectView::PushSetUpstream(branch),
        Stage::StashReturn => EffectView::Checkout(s.current_branch@),
        Stage::StashAnnounce => EffectView::Print(stash_announcement(s.pin@)),
        Stage::StashDiscardPrompt => EffectView::Confirm(discard_prompt(), true),
        Stage::StashHasCommits => EffectView::HasCommits,
        Stage::StashReset => EffectView::ResetHardHead,
        Stage::StashClean => EffectView::CleanFd,
        Stage::StashMerge => EffectView::MergeSquashNoCommit(branch),
        Stage::StashDeleteLocal => EffectView::DeleteBranchLocal(branch),
        Stage::ApplyValidate => EffectView::ValidateRepository,
        Stage::ApplyPull => EffectView::PullRebase,
        Stage::ApplyBranch => EffectView::CurrentBranch,
        Stage::ApplyFetch => EffectView::FetchAll,
        Stage::ApplyExists => EffectView::RemoteBranchExists(s.pin@),
        Stage::ApplyCheckoutStash => EffectView::Checkout(branch),
        Stage::ApplyPullStash => EffectView::PullRebase,
        Stage::ApplyReturn => EffectView::Checkout(s.current_branch@),
        Stage::ApplyMerge => EffectView::MergeSquashNoCommit(branch),
        Stage::ApplyResetMixed => EffectView::ResetMixed,
        Stage::ApplyDeletePrompt => EffectView::Confirm(delete_prompt(), true),
        Stage::ApplyDeleteLocal => EffectView::DeleteBranchLocal(branch),
        Stage::ApplyDeleteRemote => EffectView::DeleteBranchRemote(branch),
        Stage::ListValidate => EffectView::ValidateRepository,
        Stage::ListFetch => EffectView::FetchAll,
        Stage::ListEntries => EffectView::ListStashEntries,
        Stage::ListPrint => EffectView::Print(list_output(entries_view(s.entries@))),
        Stage::PopValidate => EffectView::ValidateRepository,
        Stage::PopAnnounce => EffectView::Print(seq!["Attempting to pop automatically..."@]),
        Stage::PopFetch => EffectView::FetchAll,
        Stage::PopEntries => EffectView::ListStashEntries,
        Stage::PopSelect => EffectView::Select(select_prompt(), pop_choices(entries_view(s.entries@)), 0),
        Stage::PopTrying => EffectView::Print(seq![trying_line(s.pin@)]),
        Stage::Finished => EffectView::ValidateRepository,
    }
}

/// The answer an operation without a value gives: `Done`, or its error.
pub open spec fn unit_answer(r: Result<(), PairsError>) -> Reply {
    match r {
        Ok(()) => Reply::Done,
        Err(e) => Reply::Failed(e),
    }
}

/// The answer a yes/no operation gives.
pub open spec fn flag_answer(r: Result<bool, PairsError>) -> Reply {
    match r {
        Ok(b) => Reply::Flag(b),
        Err(e) => Reply::Failed(e),
    }
}

/// The answer an operation that reads a text gives.
pub open spec fn text_answer(r: Result<String, PairsError>) -> Reply {
    match r {
        Ok(t) => Reply::Text(t),
        Err(e) => Reply::Failed(e),
    }
}

/// The answer an operation that draws a pin gives.
pub open spec fn pin_answer(r: Result<Pin, PairsError>) -> Reply {
    match r {
        Ok(p) => Reply::NewPin(p),
        Err(e) => Reply::Failed(e),
    }
}

/// The answer an operation that reads the stash list gives.
pub open spec fn entries_answer(r: Result<Vec<StashEntry>, PairsError>) -> Reply {
    match r {
        Ok(es) => Reply::Entries(es),
        Err(e) => Reply::Failed(e),
    }
}

/// The answer a choice among items gives.
pub open spec fn choice_answer(r: Result<usize, PairsError>) -> Reply {
    match r {
        Ok(i) => Reply::Choice(i),
        Err(e) => Reply::Failed(e),
    }
}

/// Whether `r` is an answer of the kind the operation `e` gives.
pub open spec fn fits(e: EffectView, r: Reply) -> bool {
    match e {
        EffectView::Print(_) => r is Done,
        EffectView::IsWorkingTreeClean | EffectView::HasCommits | EffectView::RemoteBranchExists(
            _,
        ) | EffectView::Confirm(_, _) => r is Flag || r is Failed,
        EffectView::CurrentBranch => r is Text || r is Failed,
        EffectView::GenerateUniquePin => r is NewPin || r is Failed,
        EffectView::ListStashEntries => r is Entries || r is Failed,
        EffectView::Select(_, _, _) => r is Choice || r is Failed,
        _ => r is Done || r is Failed,
    }
}

/// The session moved to `stage`, asking for that stage's operation.
pub open spec fn go(s: Session, stage: Stage) -> (Session, StepView) {
    let t = Session { stage, ..s };
    (t, StepView::Perform(pending(t)))
}

/// The session ended with `result`.
pub open spec fn finish(s: Session, result: Result<(), PairsError>) -> (Session, StepView) {
    (Session { stage: Stage::Finished, ..s }, StepView::Finish(result))
}

/// The session and the step that follow the answer `r` at session `s`. A failed
/// operation ends the session with its error; an answer of the wrong kind leaves
/// the session where it was, asking again.
pub open spec fn next(s: Session, r: Reply) -> (Session, StepView) {
    match (r, s.stage) {
        (Reply::Failed(e), _) => finish(s, Err(e)),
        // stash
        (Reply::Done, Stage::StashValidate) => go(s, Stage::StashCleanCheck),
        (Reply::Flag(clean), Stage::StashCleanCheck) => if clean {
            finish(s, Err(PairsError::NothingToStash))
        } else {
            go(s, Stage::StashBranch)
        },
        (Reply::Text(b), Stage::StashBranch) => go(Session { current_branch: b, ..s }, Stage::StashFetch),
        (Reply::Done, Stage::StashFetch) => go(s, Stage::StashPin),
        (Reply::NewPin(p), Stage::StashPin) => go(Session { pin: p, ..s }, Stage::StashNewBranch),
        (Reply::Done, Stage::StashNewBranch) => go(s, Stage::StashAdd),
        (Reply::Done, Stage::StashAdd) => go(s, Stage::StashCommit),
        (Reply::Done, Stage::StashCommit) => go(s, Stage::StashPush),
        (Reply::Done, Stage::StashPush) => go(s, Stage::StashReturn),
        (Reply::Done, Stage::StashReturn) => go(s, Stage::StashAnnounce),
        (Reply::Done, Stage::StashAnnounce) => go(s, Stage::StashDiscardPrompt),
        (Reply::Flag(discard), Stage::StashDiscardPrompt) => if discard {
            go(s, Stage::StashHasCommits)
        } else {
            go(s, Stage::StashMerge)
        },
        (Reply::Flag(has), Stage::StashHasCommits) => if has {
            go(s, Stage::StashReset)
        } else {
            go(s, Stage::StashClean)
        },
        (Reply::Done, Stage::StashReset) => go(s, Stage::StashClean),
        (Reply::Done, Stage::StashClean) => go(s, Stage::StashDeleteLocal),
        (Reply::Done, Stage::StashMerge) => go(s, Stage::StashDeleteLocal),
        (Reply::Done, Stage::StashDeleteLocal) => finish(s, Ok(())),
        // apply
        (Reply::Done, Stage::ApplyValidate) => go(s, Stage::ApplyPull),
        (Reply::Done, Stage::ApplyPull) => go(s, Stage::ApplyBranch),
        (Reply::Text(b), Stage::ApplyBranch) => go(Session { current_branch: b, ..s }, Stage::ApplyFetch),
        (Reply::Done, Stage::ApplyFetch) => go(s, Stage::ApplyExists),
        (Reply::Flag(exists), Stage::ApplyExists) => if exists {
            go(s, Stage::ApplyCheckoutStash)
        } else {
            finish(s, Err(PairsError::UnknownPin(s.pin@)))
        },
        (Reply::Done, Stage::ApplyCheckoutStash) => go(s, Stage::ApplyPullStash),
        (Reply::Done, Stage::ApplyPullStash) => go(s, Stage::ApplyReturn),
        (Reply::Done, Stage::ApplyReturn) => go(s, Stage::ApplyMerge),
        (Reply::Done, Stage::ApplyMerge) => go(s, Stage::ApplyResetMixed),
        (Reply::Done, Stage::ApplyResetMixed) => go(s, Stage::ApplyDeletePrompt),
        (Reply::Flag(delete), Stage::ApplyDeletePrompt) => if delete {
            go(s, Stage::ApplyDeleteLocal)
        } else {
            finish(s, Ok(()))
        },
        (Reply::Done, Stage::ApplyDeleteLocal) => go(s, Stage::ApplyDeleteRemote),
        (Reply::Done, Stage::ApplyDeleteRemote) => finish(s, Ok(())),
        // list
        (Reply::Done, Stage::ListValidate) => go(s, Stage::ListFetch),
        (Reply::Done, Stage::ListFetch) => go(s, Stage::ListEntries),
        (Reply::Entries(es), Stage::ListEntries) => go(Session { entries: es, ..s }, Stage::ListPrint),
        (Reply::Done, Stage::ListPrint) => finish(s, Ok(())),
        // pop
        (Reply::Done, Stage::PopValidate) => go(s, Stage::PopAnnounce),
        (Reply::Done, Stage::PopAnnounce) => go(s, Stage::PopFetch),
        (Reply::Done, Stage::PopFetch) => go(s, Stage::PopEntries),
        (Reply::Entries(es), Stage::PopEntries) => if es.len() == 0 {
            finish(s, Err(PairsError::NoPinsFound))
        } else if es.len() == 1 {
            go(Session { pin: es[0].pin, entries: es, ..s }, Stage::PopTrying)
        } else {
            go(Session { entries: es, ..s }, Stage::PopSelect)
        },
        (Reply::Choice(i), Stage::PopSelect) => if i < s.entries@.len() {
            go(Session { pin: s.entries@[i as int].pin, ..s }, Stage::PopTrying)
        } else {
            finish(s, Err(PairsError::UserAborted))
        },
        (Reply::Done, Stage::PopTrying) => go(s, Stage::ApplyValidate),
        _ => (s, StepView::Perform(pending(s))),
    }
}

/// How far a stage is from the end of its command; every answer of the right kind
/// either ends the session or moves it to a stage of lower rank.
pub open spec fn rank(stage: Stage) -> nat {
    match stage {
        Stage::Finished => 0,
        Stage::StashDeleteLocal => 1,
        Stage::StashMerge => 2,
        Stage::StashClean => 2,
        Stage::StashReset => 3,
        Stage::StashHasCommits => 4,
        Stage::StashDiscardPrompt => 5,
        Stage::StashAnnounce => 6,
        Stage::StashReturn => 7,
        Stage::StashPush => 8,
        Stage::StashCommit => 9,
        Stage::StashAdd => 10,
        Stage::StashNewBranch => 11,
        Stage::StashPin => 12,
        Stage::StashFetch => 13,
        Stage::StashBranch => 14,
        Stage::StashCleanCheck => 15,
        Stage::StashValidate => 16,
        Stage::ApplyDeleteRemote => 1,
        Stage::ApplyDeleteLocal => 2,
        Stage::ApplyDeletePrompt => 3,
        Stage::ApplyResetMixed => 4,
        Stage::ApplyMerge => 5,
        Stage::ApplyReturn => 6,
        Stage::ApplyPullStash => 7,
        Stage::ApplyCheckoutStash => 8,
        Stage::ApplyExists => 9,
        Stage::ApplyFetch => 10,
        Stage::ApplyBranch => 11,
        Stage::ApplyPull => 12,
        Stage::ApplyValidate => 13,
        Stage::PopTrying => 14,
        Stage::PopSelect => 15,
        Stage::PopEntries => 16,
        Stage::PopFetch => 17,
        Stage::PopAnnounce => 18,
        Stage::PopValidate => 19,
        Stage::ListPrint => 1,
        Stage::ListEntries => 2,
        Stage::ListFetch => 3,
        Stage::ListValidate => 4,
    }
}

/// Whether the session has ended.
pub open spec fn is_finished(s: Session) -> bool {
    s.stage matches Stage::Finished
}

/// Every answer of the kind the pending operation gives ends the session or brings
/// it closer to its end.
pub proof fn lemma_progress(s: Session, r: Reply)
    requires
        !is_finished(s),
        fits(pending(s), r),
    ensures
        next(s, r).1 is Finish ==> is_finished(next(s, r).0),
        next(s, r).1 is Perform ==> rank(next(s, r).0.stage) < rank(s.stage) && !is_finished(next(s, r).0),
{
}

/// Law: every command begins by validating the repository.
pub proof fn lemma_commands_validate_first(s: Session)
    requires
        s.stage is StashValidate || s.stage is ApplyValidate || s.stage is ListValidate
            || s.stage is PopValidate,
    ensures
        pending(s) == EffectView::ValidateRepository,
{
}

/// Law: when an operation fails, the command ends at once with that same error.
pub proof fn lemma_failure_ends_session(s: Session, e: PairsError)
    ensures
        next(s, Reply::Failed(e)) == finish(s, Err(e)),
{
}

/// Law: stashing a clean working tree fails with `NothingToStash`.
pub proof fn lemma_clean_tree_is_not_stashed(s: Session)
    requires
        s.stage is StashCleanCheck,
    ensures
        next(s, Reply::Flag(true)) == finish(s, Err(PairsError::NothingToStash)),
{
}

/// Law: applying a pin whose branch the remote lacks fails with `UnknownPin` of that pin.
pub proof fn lemma_unknown_pin_is_refused(s: Session)
    requires
        s.stage is ApplyExists,
    ensures
        next(s, Reply::Flag(false)) == finish(s, Err(PairsError::UnknownPin(s.pin@))),
{
}

/// Law: the stash session discards local changes (reset, clean) only after the user
/// answered yes to the discard question, and squash-merges them back only after a no.
pub proof fn lemma_discard_only_when_confirmed(s: Session, r: Reply)
    ensures
        ({
            let t = next(s, r).0;
            &&& (t.stage is StashHasCommits || t.stage is StashReset || t.stage is StashClean)
                && !(s.stage is StashHasCommits || s.stage is StashReset || s.stage is StashClean)
                ==> s.stage is StashDiscardPrompt && r == Reply::Flag(true)
            &&& t.stage is StashMerge && !(s.stage is StashMerge) ==> s.stage is StashDiscardPrompt
                && r == Reply::Flag(false)
        }),
{
}

/// Law: the apply session deletes the stash branch only after the user answered yes
/// to the delete question; the remote branch is deleted right after the local one.
pub proof fn lemma_delete_only_when_confirmed(s: Session, r: Reply)
    ensures
        ({
            let t = next(s, r).0;
            &&& t.stage is ApplyDeleteLocal && !(s.stage is ApplyDeleteLocal) ==> s.stage is ApplyDeletePrompt
                && r == Reply::Flag(true)
            &&& t.stage is ApplyDeleteRemote && !(s.stage is ApplyDeleteRemote) ==> s.stage is ApplyDeleteLocal
                && r is Done
        }),
{
}

/// Law: a session's pin changes only when a stash pin is generated or a stash is
/// chosen to pop; so the branch a command creates, pushes, checks out, merges or
/// deletes, and the pin it prints, all belong to that one pin.
pub proof fn lemma_pin_fixed(s: Session, r: Reply)
    requires
        !(s.stage is StashPin || s.stage is PopEntries || s.stage is PopSelect),
    ensures
        next(s, r).0.pin == s.pin,
{
}

/// Law: the branch a command started from is recorded once, when it is read, and
/// is the branch the command checks out again afterwards.
pub proof fn lemma_start_branch_kept(s: Session, r: Reply)
    requires
        !(s.stage is StashBranch || s.stage is ApplyBranch),
    ensures
        next(s, r).0.current_branch == s.current_branch,
{
}

/// Law: popping with no stash fails with `NoPinsFound`; with one stash it applies that
/// stash without asking; with several it asks the user to pick one of them.
pub proof fn lemma_pop_picks_stash(s: Session, es: Vec<StashEntry>)
    requires
        s.stage is PopEntries,
    ensures
        es@.len() == 0 ==> next(s, Reply::Entries(es)) == finish(s, Err(PairsError::NoPinsFound)),
        es@.len() == 1 ==> next(s, Reply::Entries(es)).0.pin == es@[0].pin && next(
            s,
            Reply::Entries(es),
        ).1 == StepView::Perform(EffectView::Print(seq![trying_line(es@[0].pin@)])),
        es@.len() > 1 ==> next(s, Reply::Entries(es)).1 == StepView::Perform(
            EffectView::Select(select_prompt(), pop_choices(entries_view(es@)), 0),
        ),
{
}

/// Law: the stash the user picks is the one popped; a pick outside the list aborts.
pub proof fn lemma_pop_uses_choice(s: Session, i: usize)
    requires
        s.stage is PopSelect,
    ensures
        i < s.entries@.len() ==> next(s, Reply::Choice(i)).0.pin == s.entries@[i as int].pin
            && next(s, Reply::Choice(i)).0.stage is PopTrying,
        i >= s.entries@.len() ==> next(s, Reply::Choice(i)) == finish(s, Err(PairsError::UserAborted)),
{
}

impl Session {
    fn with_stage(stage: Stage) -> (s: Session)
        ensures
            s.stage == stage,
    {
        Session { stage, pin: Pin::new(0), current_branch: String::new(), entries: Vec::new() }
    }

    /// A stash session, about to validate the repository.
    pub fn stash() -> (s: Session)
        ensures
            s.stage == Stage::StashValidate,
    {
        Session::with_stage(Stage::StashValidate)
    }

    /// A session that applies the stash with pin `pin`, about to validate the repository.
    pub fn apply(pin: Pin) -> (s: Session)
        ensures
            s.stage == Stage::ApplyValidate,
            s.pin == pin,
    {
        let mut s = Session::with_stage(Stage::ApplyValidate);
        s.pin = pin;
        s
    }

    /// A session that lists the stashes, about to validate the repository.
    pub fn list() -> (s: Session)
        ensures
            s.stage == Stage::ListValidate,
    {
        Session::with_stage(Stage::ListValidate)
    }

    /// A session that pops a stash, about to validate the repository.
    pub fn pop() -> (s: Session)
        ensures
            s.stage == Stage::PopValidate,
    {
        Session::with_stage(Stage::PopValidate)
    }

    /// Whether the session has ended.
    pub fn finished(&self) -> (b: bool)
        ensures
            b == is_finished(*self),
    {
        match self.stage {
            Stage::Finished => true,
            _ => false,
        }
    }

    /// The operation the session waits on.
    pub fn pending_effect(&self) -> (e: Effect)
        ensures
            e@ == pending(*self),
    {
        match self.stage {
            Stage::StashValidate => Effect::ValidateRepository,
            Stage::StashCleanCheck => Effect::IsWorkingTreeClean,
            Stage::StashBranch => Effect::CurrentBranch,
            Stage::StashFetch => Effect::FetchAll,
            Stage::StashPin => Effect::GenerateUniquePin,
            Stage::StashNewBranch => Effect::CheckoutNewBranch(self.pin.branch_name()),
            Stage::StashAdd => Effect::AddAll,
            Stage::StashCommit => Effect::CommitNoVerify(
                "temporary pairs branch [ci-skip] [ci skip] [skip ci]".to_owned(),
            ),
            Stage::StashPush => Effect::PushSetUpstream(self.pin.branch_name()),
            Stage::StashReturn => Effect::Checkout(self.current_branch.clone()),
            Stage::StashAnnounce => {
                let mut lines: Vec<String> = Vec::new();
                lines.push(String::new());
                let mut buf: Vec<char> = Vec::new();
                push_str_chars(&mut buf, "pairs pin: ");
                push_decimal(&mut buf, self.pin.as_u16());
                assert(buf@ =~= "pairs pin: "@ + decimal(self.pin@ as nat));
                lines.push(string_of(&buf));
                assert(lines@[0]@ == Seq::<char>::empty());
                proof {
                    reveal_strlit("");
                    assert(""@ =~= Seq::<char>::empty());
                }
                assert(views(lines@) =~= stash_announcement(self.pin@));
                Effect::Print(lines)
            },
            Stage::StashDiscardPrompt => Effect::Confirm("Discard changes locally?".to_owned(), true),
            Stage::StashHasCommits => Effect::HasCommits,
            Stage::StashReset => Effect::ResetHardHead,
            Stage::StashClean => Effect::CleanFd,
            Stage::StashMerge => Effect::MergeSquashNoCommit(self.pin.branch_name()),
            Stage::StashDeleteLocal => Effect::DeleteBranchLocal(self.pin.branch_name()),
            Stage::ApplyValidate => Effect::ValidateRepository,
            Stage::ApplyPull => Effect::PullRebase,
            Stage::ApplyBranch => Effect::CurrentBranch,
            Stage::ApplyFetch => Effect::FetchAll,
            Stage::ApplyExists => Effect::RemoteBranchExists(self.pin),
            Stage::ApplyCheckoutStash => Effect::Checkout(self.pin.branch_name()),
            Stage::ApplyPullStash => Effect::PullRebase,
            Stage::ApplyReturn => Effect::Checkout(self.current_branch.clone()),
            Stage::ApplyMerge => Effect::MergeSquashNoCommit(self.pin.branch_name()),
            Stage::ApplyResetMixed => Effect::ResetMixed,
            Stage::ApplyDeletePrompt => Effect::Confirm(
                "Delete temporary pairs branch locally and remotely?".to_owned(),
                true,
            ),
            Stage::ApplyDeleteLocal => Effect::DeleteBranchLocal(self.pin.branch_name()),
            Stage::ApplyDeleteRemote => Effect::DeleteBranchRemote(self.pin.branch_name()),
            Stage::ListValidate => Effect::ValidateRepository,
            Stage::ListFetch => Effect::FetchAll,
            Stage::ListEntries => Effect::ListStashEntries,
            Stage::ListPrint => Effect::Print(stash_table(&self.entries)),
            Stage::PopValidate => Effect::ValidateRepository,
            Stage::PopAnnounce => {
                let mut lines: Vec<String> = Vec::new();
                lines.push("Attempting to pop automatically...".to_owned());
                assert(views(lines@) =~= seq!["Attempting to pop automatically..."@]);
                Effect::Print(lines)
            },
            Stage::PopFetch => Effect::FetchAll,
            Stage::PopEntries => Effect::ListStashEntries,
            Stage::PopSelect => Effect::Select(
                "Select a stash to pop".to_owned(),
                choice_lines(&self.entries),
                0,
            ),
            Stage::PopTrying => {
                let mut buf: Vec<char> = Vec::new();
                push_str_chars(&mut buf, "Trying to pop '");
                push_decimal(&mut buf, self.pin.as_u16());
                push_str_chars(&mut buf, "'");
                let mut lines: Vec<String> = Vec::new();
                lines.push(string_of(&buf));
                assert(views(lines@) =~= seq![trying_line(self.pin@)]);
                Effect::Print(lines)
            },
            Stage::Finished => Effect::ValidateRepository,
        }
    }

    /// Moves the session on with the answer `reply` to its pending operation.
    pub fn resume(&mut self, reply: Reply) -> (step: Step)
        ensures
            (*final(self), step@) == next(*old(self), reply),
    {
        let ghost s = *self;
        let stage = self.stage;
        match reply {
            Reply::Failed(e) => {
                self.stage = Stage::Finished;
                return Step::Finish(Err(e));
            },
            Reply::Done => {
                let to = match stage {
                    Stage::StashValidate => Stage::StashCleanCheck,
                    Stage::StashFetch => Stage::StashPin,
                    Stage::StashNewBranch => Stage::StashAdd,
                    Stage::StashAdd => Stage::StashCommit,
                    Stage::StashCommit => Stage::StashPush,
                    Stage::StashPush => Stage::StashReturn,
                    Stage::StashReturn => Stage::StashAnnounce,
                    Stage::StashAnnounce => Stage::StashDiscardPrompt,
                    Stage::StashReset => Stage::StashClean,
                    Stage::StashClean => Stage::StashDeleteLocal,
                    Stage::StashMerge => Stage::StashDeleteLocal,
                    Stage::ApplyValidate => Stage::ApplyPull,
                    Stage::ApplyPull => Stage::ApplyBranch,
                    Stage::ApplyFetch => Stage::ApplyExists,
                    Stage::ApplyCheckoutStash => Stage::ApplyPullStash,
                    Stage::ApplyPullStash => Stage::ApplyReturn,
                    Stage::ApplyReturn => Stage::ApplyMerge,
                    Stage::ApplyMerge => Stage::ApplyResetMixed,
                    Stage::ApplyResetMixed => Stage::ApplyDeletePrompt,
                    Stage::ApplyDeleteLocal => Stage::ApplyDeleteRemote,
                    Stage::ListValidate => Stage::ListFetch,
                    Stage::ListFetch => Stage::ListEntries,
                    Stage::PopValidate => Stage::PopAnnounce,
                    Stage::PopAnnounce => Stage::PopFetch,
                    Stage::PopFetch => Stage::PopEntries,
                    Stage::PopTrying => Stage::ApplyValidate,
                    Stage::StashDeleteLocal | Stage::ApplyDeleteRemote | Stage::ListPrint => {
                        self.stage = Stage::Finished;
                        return Step::Finish(Ok(()));
                    },
                    _ => {
                        return Step::Perform(self.pending_effect());
                    },
                };
                self.stage = to;
            },
            Reply::Flag(b) => {
                match stage {
                    Stage::StashCleanCheck => {
                        if b {
                            self.stage = Stage::Finished;
                            return Step::Finish(Err(PairsError::NothingToStash));
                        }
                        self.stage = Stage::StashBranch;
                    },
                    Stage::StashDiscardPrompt => {
                        self.stage = if b {
                            Stage::StashHasCommits
                        } else {
                            Stage::StashMerge
                        };
                    },
                    Stage::StashHasCommits => {
                        self.stage = if b {
                            Stage::StashReset
                        } else {
                            Stage::StashClean
                        };
                    },
                    Stage::ApplyExists => {
                        if !b {
                            self.stage = Stage::Finished;
                            return Step::Finish(Err(PairsError::UnknownPin(self.pin.as_u16())));
                        }
                        self.stage = Stage::ApplyCheckoutStash;
                    },
                    Stage::ApplyDeletePrompt => {
                        if !b {
                            self.stage = Stage::Finished;
                            return Step::Finish(Ok(()));
                        }
                        self.stage = Stage::ApplyDeleteLocal;
                    },
                    _ => {
                        return Step::Perform(self.pending_effect());
                    },
                }
            },
            Reply::Text(t) => {
                match stage {
                    Stage::StashBranch => {
                        self.current_branch = t;
                        self.stage = Stage::StashFetch;
                    },
                    Stage::ApplyBranch => {
                        self.current_branch = t;
                        self.stage = Stage::ApplyFetch;
                    },
                    _ => {
                        return Step::Perform(self.pending_effect());
                    },
                }
            },
            Reply::NewPin(p) => {
                match stage {
                    Stage::StashPin => {
                        self.pin = p;
                        self.stage = Stage::StashNewBranch;
                    },
                    _ => {
                        return Step::Perform(self.pending_effect());
                    },
                }
            },
            Reply::Entries(es) => {
                match stage {
                    Stage::ListEntries => {
                        self.entries = es;
                        self.stage = Stage::ListPrint;
                    },
                    Stage::PopEntries => {
                        if es.len() == 0 {
                            self.stage = Stage::Finished;
                            return Step::Finish(Err(PairsError::NoPinsFound));
                        } else if es.len() == 1 {
                            self.pin = es[0].pin;
                            self.entries = es;
                            self.stage = Stage::PopTrying;
                        } else {
                            self.entries = es;
                            self.stage = Stage::PopSelect;
                        }
                    },
                    _ => {
                        return Step::Perform(self.pending_effect());
                    },
                }
            },
            Reply::Choice(i) => {
                match stage {
                    Stage::PopSelect => {
                        if i < self.entries.len() {
                            self.pin = self.entries[i].pin;
                            self.stage = Stage::PopTrying;
                        } else {
                            self.stage = Stage::Finished;
                            return Step::Finish(Err(PairsError::UserAborted));
                        }
                    },
                    _ => {
                        return Step::Perform(self.pending_effect());
                    },
                }
            },
        }
        Step::Perform(self.pending_effect())
    }
}

} // verus!
