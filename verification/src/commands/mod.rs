pub mod apply;
pub mod list;
pub mod pop;
pub mod runs;
pub mod session;
pub mod stash;

use crate::cli::{Cli, PairsCommand};
use crate::commands::session::{
    fits, flag_answer, is_finished, lemma_progress, next, pending, rank, stash_announcement,
    unit_answer, Effect, EffectView, Reply, Session, Step, StepView,
};
use crate::error::PairsError;
use crate::git_client::{branch_of, GitClient, Pin};
use crate::prompter::Prompter;
use crate::text::{parse_u16, parse_u16_spec, views};
use vstd::prelude::*;

verus! {

/// The lines an operation prints.
pub open spec fn printed_by(e: EffectView) -> Seq<Seq<char>> {
    match e {
        EffectView::Print(lines) => lines,
        _ => Seq::empty(),
    }
}

/// Session `s` answered with `replies`, one per operation in turn: the session
/// reached, its current step, and the lines printed on the way.
pub open spec fn replay(s: Session, replies: Seq<Reply>) -> (Session, StepView, Seq<Seq<char>>)
    decreases replies.len(),
{
    if replies.len() == 0 {
        (s, StepView::Perform(pending(s)), Seq::empty())
    } else {
        let prev = replay(s, replies.drop_last());
        match prev.1 {
            StepView::Perform(e) => {
                let (t, step) = next(prev.0, replies.last());
                (t, step, prev.2 + printed_by(e))
            },
            StepView::Finish(_) => prev,
        }
    }
}

/// Whether `replies` answer, one by one, the operations that session `start` asks
/// for, each with an answer of that operation's kind.
pub open spec fn well_answered(start: Session, replies: Seq<Reply>) -> bool {
    forall|i: int|
        0 <= i < replies.len() ==> (#[trigger] replay(start, replies.take(i))).1 is Perform
            && fits(replay(start, replies.take(i)).1->Perform_0, replies[i])
}

/// Whether `replies` answer, one by one, the operations that session `start` asks
/// for, each with an answer of its kind that `answers` allows for it.
pub open spec fn answered_run(
    start: Session,
    replies: Seq<Reply>,
    answers: spec_fn(EffectView, Reply) -> bool,
) -> bool {
    &&& well_answered(start, replies)
    &&& forall|i: int|
        0 <= i < replies.len() ==> answers(
            (#[trigger] replay(start, replies.take(i))).1->Perform_0,
            replies[i],
        )
}

/// The operations a run answered by `replies` performed, in order.
pub open spec fn performed(start: Session, replies: Seq<Reply>) -> Seq<EffectView> {
    Seq::new(replies.len(), |k: int| replay(start, replies.take(k)).1->Perform_0)
}

/// The operations a run answered by `replies` performed, each with its answer.
pub open spec fn run_record(start: Session, replies: Seq<Reply>) -> Seq<(EffectView, Reply)> {
    Seq::new(replies.len(), |k: int| (replay(start, replies.take(k)).1->Perform_0, replies[k]))
}

/// Whether `e` is a question to the user.
pub open spec fn is_question(e: EffectView) -> bool {
    e is Confirm || e is Select
}

/// Whether `e` is performed by the git client (neither a print nor a question).
pub open spec fn is_git_operation(e: EffectView) -> bool {
    !(e is Print) && !is_question(e)
}

/// The entries of `record` that the git client performed, in order.
pub open spec fn git_part(record: Seq<(EffectView, Reply)>) -> Seq<(EffectView, Reply)>
    decreases record.len(),
{
    if record.len() == 0 {
        Seq::empty()
    } else {
        let rest = git_part(record.drop_last());
        if is_git_operation(record.last().0) {
            rest.push(record.last())
        } else {
            rest
        }
    }
}

/// The entries of `record` that were questions to the user, in order.
pub open spec fn prompt_part(record: Seq<(EffectView, Reply)>) -> Seq<(EffectView, Reply)>
    decreases record.len(),
{
    if record.len() == 0 {
        Seq::empty()
    } else {
        let rest = prompt_part(record.drop_last());
        if is_question(record.last().0) {
            rest.push(record.last())
        } else {
            rest
        }
    }
}

/// Whether a call log that was `before` is `after` with `added` appended; a client
/// that keeps no log (`None` before) is held to nothing.
pub open spec fn log_grows(
    before: Option<Seq<(EffectView, Reply)>>,
    after: Option<Seq<(EffectView, Reply)>>,
    added: Seq<(EffectView, Reply)>,
) -> bool {
    before matches Some(log) ==> after == Some(log + added)
}

/// Whether session `start` ends with `result` having printed `printed`, with the
/// git client's log going from `git_before` to `git_after` and the prompter's from
/// `prompt_before` to `prompt_after`: some answers, one per operation, lead the
/// session there, and the calls added to each log are exactly that client's
/// operations of the run with those answers, in order.
pub open spec fn runs_to(
    start: Session,
    result: Result<(), PairsError>,
    printed: Seq<Seq<char>>,
    git_before: Option<Seq<(EffectView, Reply)>>,
    git_after: Option<Seq<(EffectView, Reply)>>,
    prompt_before: Option<Seq<(EffectView, Reply)>>,
    prompt_after: Option<Seq<(EffectView, Reply)>>,
) -> bool {
    exists|replies: Seq<Reply>|
        #![trigger replay(start, replies)]
        {
            &&& well_answered(start, replies)
            &&& replay(start, replies).1 == StepView::Finish(result)
            &&& replay(start, replies).2 == printed
            &&& log_grows(git_before, git_after, git_part(run_record(start, replies)))
            &&& log_grows(prompt_before, prompt_after, prompt_part(run_record(start, replies)))
        }
}

/// The lines appended to `out` since it held `before`.
pub open spec fn appended(before: Seq<String>, after: Seq<String>) -> Seq<Seq<char>> {
    views(after).skip(before.len() as int)
}

/// Law: a command whose repository validation fails ends with that error before any
/// other operation and prints nothing.
pub proof fn lemma_failed_validation_aborts(s: Session, e: PairsError)
    requires
        s.stage is StashValidate || s.stage is ApplyValidate || s.stage is ListValidate
            || s.stage is PopValidate,
    ensures
        replay(s, seq![Reply::Failed(e)]).1 == StepView::Finish(Err(e)),
        replay(s, seq![Reply::Failed(e)]).2 == Seq::<Seq<char>>::empty(),
{
    let rs = seq![Reply::Failed(e)];
    let empty = Seq::<Reply>::empty();
    assert(rs.drop_last() =~= empty);
    assert(rs.last() == Reply::Failed(e));
    assert(replay(s, empty) == (s, StepView::Perform(pending(s)), Seq::<Seq<char>>::empty()));
    assert(printed_by(pending(s)) =~= Seq::<Seq<char>>::empty());
    assert(replay(s, rs).2 =~= Seq::<Seq<char>>::empty());
}

/// Law: the pin a stash announces is the pin whose branch it pushed.
pub proof fn lemma_announced_pin_is_pushed(s: Session)
    requires
        s.stage is StashPush,
    ensures
        pending(s) == EffectView::PushSetUpstream(branch_of(s.pin@)),
        replay(s, seq![Reply::Done, Reply::Done, Reply::Done]).2 == stash_announcement(s.pin@),
{
    let r1 = seq![Reply::Done];
    let r2 = seq![Reply::Done, Reply::Done];
    let r3 = seq![Reply::Done, Reply::Done, Reply::Done];
    let empty = Seq::<Reply>::empty();
    assert(r1.drop_last() =~= empty);
    assert(r2.drop_last() =~= r1);
    assert(r3.drop_last() =~= r2);
    assert(r1.last() == Reply::Done);
    assert(r2.last() == Reply::Done);
    assert(r3.last() == Reply::Done);
    assert(replay(s, empty) == (s, StepView::Perform(pending(s)), Seq::<Seq<char>>::empty()));
    assert(replay(s, r1).2 =~= Seq::<Seq<char>>::empty());
    assert(replay(s, r2).2 =~= Seq::<Seq<char>>::empty());
    assert(replay(s, r3).2 =~= stash_announcement(s.pin@));
}

/// A command of `pairs`, run against a git client and a prompter; the lines it
/// prints go to `out`.
pub trait ExecutableCommand {
    fn execute<P: Prompter, G: GitClient>(
        &self,
        prompter: &mut P,
        git_client: &mut G,
        out: &mut Vec<String>,
    ) -> Result<(), PairsError>;
}

fn unit_reply(r: Result<(), PairsError>) -> (reply: Reply)
    ensures
        reply == unit_answer(r),
{
    match r {
        Ok(()) => Reply::Done,
        Err(e) => Reply::Failed(e),
    }
}

fn flag_reply(r: Result<bool, PairsError>) -> (reply: Reply)
    ensures
        reply == flag_answer(r),
{
    match r {
        Ok(b) => Reply::Flag(b),
        Err(e) => Reply::Failed(e),
    }
}

/// Single entries of a run's record: a git operation goes to the git client's part
/// alone, a question to the prompter's part alone, a print to neither.
pub(crate) proof fn lemma_record_entry(e: EffectView, r: Reply)
    ensures
        git_part(seq![(e, r)]) == (if is_git_operation(e) {
            seq![(e, r)]
        } else {
            Seq::<(EffectView, Reply)>::empty()
        }),
        prompt_part(seq![(e, r)]) == (if is_question(e) {
            seq![(e, r)]
        } else {
            Seq::<(EffectView, Reply)>::empty()
        }),
{
    let one = seq![(e, r)];
    let none = Seq::<(EffectView, Reply)>::empty();
    assert(one.len() == 1 && one.last() == (e, r));
    assert(one.drop_last() =~= none);
    assert(git_part(none) == none);
    assert(prompt_part(none) == none);
    assert(none.push((e, r)) =~= one);
}

/// A log that nothing was added to grows by nothing.
proof fn lemma_log_unchanged(log: Option<Seq<(EffectView, Reply)>>)
    ensures
        log_grows(log, log, Seq::empty()),
{
    if let Some(l) = log {
        assert(l + Seq::<(EffectView, Reply)>::empty() =~= l);
    }
}

/// Performs one operation through the git client or the prompter, or prints its
/// lines to `out`, and returns the answer: the client that performs it records the
/// operation with that answer, and the other records nothing.
pub fn perform<P: Prompter, G: GitClient>(
    effect: &Effect,
    prompter: &mut P,
    git: &mut G,
    out: &mut Vec<String>,
) -> (reply: Reply)
    ensures
        fits(effect@, reply),
        log_grows(old(git).call_log(), final(git).call_log(), git_part(seq![(effect@, reply)])),
        log_grows(
            old(prompter).call_log(),
            final(prompter).call_log(),
            prompt_part(seq![(effect@, reply)]),
        ),
        views(final(out)@) == views(old(out)@) + printed_by(effect@),
        final(out)@.len() == old(out)@.len() + printed_by(effect@).len(),
        final(out)@.take(old(out)@.len() as int) == old(out)@,
{
    let ghost raw = out@;
    let ghost before = views(out@);
    let reply = match effect {
        Effect::ValidateRepository => unit_reply(git.validate_repository()),
        Effect::IsWorkingTreeClean => flag_reply(git.is_working_tree_clean()),
        Effect::HasCommits => flag_reply(git.has_commits()),
        Effect::CurrentBranch => match git.current_branch() {
            Ok(b) => Reply::Text(b),
            Err(e) => Reply::Failed(e),
        },
        Effect::FetchAll => unit_reply(git.fetch_all()),
        Effect::GenerateUniquePin => match git.generate_unique_pin() {
            Ok(p) => Reply::NewPin(p),
            Err(e) => Reply::Failed(e),
        },
        Effect::RemoteBranchExists(pin) => flag_reply(git.remote_branch_exists(pin)),
        Effect::CheckoutNewBranch(b) => unit_reply(git.checkout_new_branch(b.as_str())),
        Effect::AddAll => unit_reply(git.add_all()),
        Effect::CommitNoVerify(m) => unit_reply(git.commit_no_verify(m.as_str())),
        Effect::PushSetUpstream(b) => unit_reply(git.push_set_upstream(b.as_str())),
        Effect::Checkout(b) => unit_reply(git.checkout(b.as_str())),
        Effect::DeleteBranchLocal(b) => unit_reply(git.delete_branch_local(b.as_str())),
        Effect::DeleteBranchRemote(b) => unit_reply(git.delete_branch_remote(b.as_str())),
        Effect::ResetHardHead => unit_reply(git.reset_hard_head()),
        Effect::CleanFd => unit_reply(git.clean_fd()),
        Effect::MergeSquashNoCommit(b) => unit_reply(git.merge_squash_no_commit(b.as_str())),
        Effect::ListStashEntries => match git.list_stash_entries() {
            Ok(es) => Reply::Entries(es),
            Err(e) => Reply::Failed(e),
        },
        Effect::PullRebase => unit_reply(git.pull_rebase()),
        Effect::ResetMixed => unit_reply(git.reset_mixed()),
        Effect::Confirm(prompt, default) => flag_reply(prompter.confirm(prompt.as_str(), *default)),
        Effect::Select(prompt, items, default) => match prompter.select(
            prompt.as_str(),
            items.as_slice(),
            *default,
        ) {
            Ok(i) => Reply::Choice(i),
            Err(e) => Reply::Failed(e),
        },
        Effect::Print(lines) => {
            let n = lines.len();
            for i in 0..n
                invariant
                    n == lines@.len(),
                    views(out@) == before + views(lines@).take(i as int),
                    out@.len() == raw.len() + i,
                    out@.take(raw.len() as int) == raw,
            {
                let ghost prev = out@;
                out.push(lines[i].clone());
                assert(views(out@) =~= views(prev).push(lines@[i as int]@));
                assert(views(lines@).take(i + 1) =~= views(lines@).take(i as int).push(lines@[i as int]@));
                assert(views(out@) =~= before + views(lines@).take(i + 1));
                assert(out@.take(raw.len() as int) =~= raw) by {
                    assert(out@ =~= prev.push(out@.last()));
                }
            }
            assert(views(lines@).take(n as int) =~= views(lines@));
            Reply::Done
        },
    };
    proof {
        if !(effect is Print) {
            assert(views(out@) =~= before + Seq::<Seq<char>>::empty());
            assert(out@.take(raw.len() as int) =~= raw);
        }
        lemma_record_entry(effect@, reply);
        lemma_log_unchanged(git.call_log());
        lemma_log_unchanged(prompter.call_log());
    }
    reply
}

/// The record of a run answered by `replies` and then `reply`, where `replies`
/// left the session waiting on `e`.
proof fn lemma_record_push(start: Session, replies: Seq<Reply>, reply: Reply, e: EffectView)
    requires
        replay(start, replies).1 == StepView::Perform(e),
    ensures
        run_record(start, replies.push(reply)) == run_record(start, replies).push((e, reply)),
{
    let longer = replies.push(reply);
    assert forall|k: int| 0 <= k < replies.len() implies longer.take(k) == replies.take(k) by {
        assert(longer.take(k) =~= replies.take(k));
    }
    assert(longer.take(replies.len() as int) =~= replies);
    assert(run_record(start, longer) =~= run_record(start, replies).push((e, reply)));
}

/// Each client's part of a record grows by its part of the entry appended.
pub(crate) proof fn lemma_parts_push(record: Seq<(EffectView, Reply)>, entry: (EffectView, Reply))
    ensures
        git_part(record.push(entry)) == git_part(record) + git_part(seq![entry]),
        prompt_part(record.push(entry)) == prompt_part(record) + prompt_part(seq![entry]),
{
    assert(record.push(entry).drop_last() =~= record);
    lemma_record_entry(entry.0, entry.1);
    assert(git_part(record) + Seq::<(EffectView, Reply)>::empty() =~= git_part(record));
    assert(prompt_part(record) + Seq::<(EffectView, Reply)>::empty() =~= prompt_part(record));
    assert(git_part(record) + seq![entry] =~= git_part(record).push(entry));
    assert(prompt_part(record) + seq![entry] =~= prompt_part(record).push(entry));
}

/// Growth of a log by `first` and then by `second` is growth by both, in order.
proof fn lemma_log_chain(
    a: Option<Seq<(EffectView, Reply)>>,
    b: Option<Seq<(EffectView, Reply)>>,
    c: Option<Seq<(EffectView, Reply)>>,
    first: Seq<(EffectView, Reply)>,
    second: Seq<(EffectView, Reply)>,
)
    requires
        log_grows(a, b, first),
        log_grows(b, c, second),
    ensures
        log_grows(a, c, first + second),
{
    if let Some(l) = a {
        assert(l + first + second =~= l + (first + second));
    }
}

/// Performs the operation session `session` waits on, printing its lines to `out`,
/// and moves the session on with the answer: one step of `run_session`, for a
/// caller that shows each line as soon as it is printed. The client that performs
/// the operation records it with the answer; the other records nothing.
pub fn advance<P: Prompter, G: GitClient>(
    session: &mut Session,
    prompter: &mut P,
    git: &mut G,
    out: &mut Vec<String>,
) -> (step: Step)
    requires
        !is_finished(*old(session)),
    ensures
        exists|reply: Reply|
            {
                &&& fits(pending(*old(session)), reply)
                &&& #[trigger] next(*old(session), reply) == (*final(session), step@)
                &&& log_grows(
                    old(git).call_log(),
                    final(git).call_log(),
                    git_part(seq![(pending(*old(session)), reply)]),
                )
                &&& log_grows(
                    old(prompter).call_log(),
                    final(prompter).call_log(),
                    prompt_part(seq![(pending(*old(session)), reply)]),
                )
            },
        views(final(out)@) == views(old(out)@) + printed_by(pending(*old(session))),
{
    let effect = session.pending_effect();
    let reply = perform(&effect, prompter, git, out);
    let ghost answer = reply;
    let step = session.resume(reply);
    assert(next(*old(session), answer) == (*session, step@));
    step
}

/// Runs session `session` to its end: performs each operation it asks for and
/// answers it, until it finishes. The result, and the lines appended to `out`, are
/// those the session reaches for the answers the git client and the prompter gave,
/// and each client's log gains exactly its operations of that run, in order, each
/// with the answer it gave.
pub fn run_session<P: Prompter, G: GitClient>(
    session: Session,
    prompter: &mut P,
    git: &mut G,
    out: &mut Vec<String>,
) -> (result: Result<(), PairsError>)
    requires
        !is_finished(session),
    ensures
        final(out)@.len() >= old(out)@.len(),
        final(out)@.take(old(out)@.len() as int) == old(out)@,
        runs_to(
            session,
            result,
            appended(old(out)@, final(out)@),
            old(git).call_log(),
            final(git).call_log(),
            old(prompter).call_log(),
            final(prompter).call_log(),
        ),
{
    let ghost init = session;
    let ghost start = out@;
    let ghost git_log = git.call_log();
    let ghost prompt_log = prompter.call_log();
    proof {
        lemma_log_unchanged(git_log);
        lemma_log_unchanged(prompt_log);
        assert(run_record(init, Seq::<Reply>::empty()) =~= Seq::<(EffectView, Reply)>::empty());
    }
    let mut s = session;
    let mut effect = s.pending_effect();
    let ghost mut replies: Seq<Reply> = Seq::empty();
    assert(appended(start, out@) =~= Seq::<Seq<char>>::empty());
    assert(out@.take(start.len() as int) =~= start);
    loop
        invariant
            !is_finished(s),
            effect@ == pending(s),
            start == old(out)@,
            init == session,
            out@.len() >= start.len(),
            out@.take(start.len() as int) == start,
            replay(init, replies) == (s, StepView::Perform(effect@), appended(start, out@)),
            well_answered(init, replies),
            git_log == old(git).call_log(),
            prompt_log == old(prompter).call_log(),
            log_grows(git_log, git.call_log(), git_part(run_record(init, replies))),
            log_grows(prompt_log, prompter.call_log(), prompt_part(run_record(init, replies))),
        decreases rank(s.stage),
    {
        let ghost mid = out@;
        let ghost git_mid = git.call_log();
        let ghost prompt_mid = prompter.call_log();
        let reply = perform(&effect, prompter, git, out);
        proof {
            lemma_progress(s, reply);
            assert(replies.push(reply).drop_last() =~= replies);
            let ghost done = replies;
            assert forall|i: int| 0 <= i < done.len() + 1 implies (#[trigger] replay(
                init,
                done.push(reply).take(i),
            )).1 is Perform && fits(
                replay(init, done.push(reply).take(i)).1->Perform_0,
                done.push(reply)[i],
            ) by {
                if i < done.len() {
                    assert(done.push(reply).take(i) =~= done.take(i));
                } else {
                    assert(done.push(reply).take(i) =~= done);
                }
            }
            lemma_record_push(init, done, reply, effect@);
            lemma_parts_push(run_record(init, done), (effect@, reply));
            lemma_log_chain(
                git_log,
                git_mid,
                git.call_log(),
                git_part(run_record(init, done)),
                git_part(seq![(effect@, reply)]),
            );
            lemma_log_chain(
                prompt_log,
                prompt_mid,
                prompter.call_log(),
                prompt_part(run_record(init, done)),
                prompt_part(seq![(effect@, reply)]),
            );
            replies = replies.push(reply);
            assert(views(out@).len() == out@.len());
            assert(out@.len() == mid.len() + printed_by(effect@).len());
            assert forall|k: int| 0 <= k < mid.len() implies out@[k] == mid[k] by {
                assert(out@.take(mid.len() as int)[k] == mid[k]);
            }
            assert(out@.take(start.len() as int) =~= start) by {
                assert forall|k: int| 0 <= k < start.len() implies out@[k] == start[k] by {
                    assert(mid.take(start.len() as int)[k] == start[k]);
                }
            }
            assert(appended(start, out@) =~= appended(start, mid) + printed_by(effect@)) by {
                let a = appended(start, out@);
                let b = appended(start, mid) + printed_by(effect@);
                assert(a.len() == b.len());
                assert forall|k: int| 0 <= k < a.len() implies a[k] == b[k] by {
                    assert(a[k] == views(out@)[start.len() + k]);
                    if k < mid.len() - start.len() {
                        assert(views(out@)[start.len() + k] == views(mid)[start.len() + k]);
                    } else {
                        let j = k - (mid.len() - start.len());
                        assert(views(out@)[mid.len() + j] == printed_by(effect@)[j]);
                    }
                }
            }
        }
        let step = s.resume(reply);
        let ghost step_v = step@;
        assert(replay(init, replies) == (s, step_v, appended(start, out@))) by {
            assert(replies.drop_last() =~= replies.take(replies.len() - 1));
        }
        match step {
            Step::Finish(result) => {
                assert(replay(init, replies).1 == StepView::Finish(result));
                return result;
            },
            Step::Perform(e) => {
                effect = e;
            },
        }
    }
}

/// Whether `s` is where the command line (`command`, `pin`) starts: the stash
/// command when there is neither a subcommand nor a pin, `list` and `pop` when
/// named, else applying the pin given, read as a `u16`.
pub open spec fn starts_for(command: Option<PairsCommand>, pin: Option<String>, s: Session) -> bool {
    match (command, pin) {
        (None, None) => s.stage is StashValidate,
        (Some(PairsCommand::List), _) => s.stage is ListValidate,
        (Some(PairsCommand::Pop), _) => s.stage is PopValidate,
        (None, Some(raw)) => s.stage is ApplyValidate && parse_u16_spec(raw@) == Some(s.pin@),
    }
}

/// Whether the command line (`command`, `pin`) names a pin that is not a `u16`.
pub open spec fn invalid_pin(command: Option<PairsCommand>, pin: Option<String>) -> bool {
    command is None && (pin matches Some(raw) && parse_u16_spec(raw@) is None)
}

/// The session that the command line asks for; a pin that is not a `u16` fails
/// with `InvalidPin` holding the text given.
pub fn start_session(cli: Cli) -> (r: Result<Session, PairsError>)
    ensures
        r is Err <==> invalid_pin(cli.command, cli.pin),
        r matches Ok(s) ==> starts_for(cli.command, cli.pin, s) && !is_finished(s),
        r matches Err(e) ==> (cli.pin matches Some(raw) && e == PairsError::InvalidPin(raw)),
{
    match (cli.command, cli.pin) {
        (None, None) => Ok(Session::stash()),
        (Some(PairsCommand::List), _) => Ok(Session::list()),
        (Some(PairsCommand::Pop), _) => Ok(Session::pop()),
        (None, Some(raw_pin)) => {
            match parse_u16(raw_pin.as_str()) {
                Some(value) => Ok(Session::apply(Pin::new(value))),
                None => Err(PairsError::InvalidPin(raw_pin)),
            }
        },
    }
}

/// Runs what the command line asks for (see `start_session`), printing to `out`.
pub fn dispatch<P: Prompter, G: GitClient>(
    cli: Cli,
    prompter: &mut P,
    git_client: &mut G,
    out: &mut Vec<String>,
) -> (result: Result<(), PairsError>)
    ensures
        final(out)@.len() >= old(out)@.len(),
        final(out)@.take(old(out)@.len() as int) == old(out)@,
        invalid_pin(cli.command, cli.pin) ==> (cli.pin matches Some(raw) && result == Err::<
            (),
            PairsError,
        >(PairsError::InvalidPin(raw)) && final(out)@ == old(out)@ && *final(git_client) == *old(
            git_client,
        ) && *final(prompter) == *old(prompter)),
        !invalid_pin(cli.command, cli.pin) ==> exists|s0: Session|
            starts_for(cli.command, cli.pin, s0) && #[trigger] runs_to(
                s0,
                result,
                appended(old(out)@, final(out)@),
                old(git_client).call_log(),
                final(git_client).call_log(),
                old(prompter).call_log(),
                final(prompter).call_log(),
            ),
{
    let ghost command = cli.command;
    let ghost pin = cli.pin;
    match start_session(cli) {
        Ok(s) => {
            let result = run_session(s, prompter, git_client, out);
            assert(starts_for(command, pin, s));
            result
        },
        Err(e) => Err(e),
    }
}

} // verus!
