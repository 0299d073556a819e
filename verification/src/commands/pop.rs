use crate::commands::session::{Session, Stage};
use crate::commands::{appended, run_session, runs_to, ExecutableCommand};
use crate::error::PairsError;
use crate::git_client::GitClient;
use crate::prompter::Prompter;
use crate::git_client::{entries_view, StashEntry};
use crate::text::{
    chars_of, decimal, pad_right, push_decimal, push_padded, push_str_chars, string_of, views,
};
use vstd::prelude::*;

verus! {

/// How a stash is offered when the user picks one to pop: pin and author in
/// columns of 8 and 20 characters, then the creation time.
pub open spec fn pop_choice(e: (u16, Seq<char>, Seq<char>)) -> Seq<char> {
    pad_right(decimal(e.0 as nat), 8) + "  "@ + pad_right(e.1, 20) + "  "@ + e.2
}

/// The choices offered for the stashes `es`, in order.
pub open spec fn pop_choices(es: Seq<(u16, Seq<char>, Seq<char>)>) -> Seq<Seq<char>> {
    es.map_values(|e: (u16, Seq<char>, Seq<char>)| pop_choice(e))
}

/// The lines offered to the user for picking one of `entries`.
pub fn choice_lines(entries: &Vec<StashEntry>) -> (items: Vec<String>)
    ensures
        views(items@) == pop_choices(entries_view(entries@)),
{
    let ghost es = entries_view(entries@);
    let ghost all = pop_choices(es);
    let mut items: Vec<String> = Vec::new();
    let n = entries.len();
    for i in 0..n
        invariant
            n == entries@.len(),
            es == entries_view(entries@),
            all == pop_choices(es),
            views(items@) == all.take(i as int),
    {
        let e = &entries[i];
        let mut line: Vec<char> = Vec::new();
        let mut pin_text: Vec<char> = Vec::new();
        push_decimal(&mut pin_text, e.pin.as_u16());
        assert(pin_text@ =~= decimal(e.pin@ as nat));
        push_padded(&mut line, &pin_text, 8);
        push_str_chars(&mut line, "  ");
        push_padded(&mut line, &chars_of(e.author.as_str()), 20);
        push_str_chars(&mut line, "  ");
        push_str_chars(&mut line, e.created_at.as_str());
        let ghost before = items@;
        items.push(string_of(&line));
        assert(line@ =~= all[i as int]);
        assert(all.take(i + 1) =~= all.take(i as int).push(all[i as int]));
        assert(views(items@) =~= views(before).push(line@));
    }
    assert(all.take(n as int) =~= all);
    items
}


/// Pops a stash: the only one on the remote, or the one the user picks.
pub struct PopCommand;

impl ExecutableCommand for PopCommand {
    fn execute<P: Prompter, G: GitClient>(
        &self,
        prompter: &mut P,
        git_client: &mut G,
        out: &mut Vec<String>,
    ) -> (result: Result<(), PairsError>)
        ensures
            final(out)@.len() >= old(out)@.len(),
            final(out)@.take(old(out)@.len() as int) == old(out)@,
            exists|s0: Session|
                s0.stage == Stage::PopValidate && #[trigger] runs_to(
                    s0,
                    result,
                    appended(old(out)@, final(out)@),
                    old(git_client).call_log(),
                    final(git_client).call_log(),
                    old(prompter).call_log(),
                    final(prompter).call_log(),
                ),
    {
        let s = Session::pop();
        let result = run_session(s, prompter, git_client, out);
        result
    }
}

} // verus!
