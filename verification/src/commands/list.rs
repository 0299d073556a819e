use crate::commands::session::{Session, Stage};
use crate::commands::{appended, run_session, runs_to, ExecutableCommand};
use crate::error::PairsError;
use crate::git_client::GitClient;
use crate::prompter::Prompter;
use crate::git_client::{entries_view, StashEntry};
use crate::text::{
    chars_of, decimal, pad_right, push_all, push_decimal, push_padded, push_repeated, push_str_chars,
    repeat_char, string_of, views,
};
use vstd::prelude::*;

verus! {

/// The larger of `floor` and the largest of `lens`.
pub open spec fn widest(lens: Seq<nat>, floor: nat) -> nat
    decreases lens.len(),
{
    if lens.len() == 0 {
        floor
    } else {
        let w = widest(lens.drop_last(), floor);
        if lens.last() > w {
            lens.last()
        } else {
            w
        }
    }
}

/// The width of the pin column: the longest pin, at least 3 (the header `PIN`).
pub open spec fn pin_column_width(es: Seq<(u16, Seq<char>, Seq<char>)>) -> nat {
    widest(es.map_values(|e: (u16, Seq<char>, Seq<char>)| decimal(e.0 as nat).len()), 3)
}

/// The width of the author column: the longest author, at least 6 (the header `AUTHOR`).
pub open spec fn author_column_width(es: Seq<(u16, Seq<char>, Seq<char>)>) -> nat {
    widest(es.map_values(|e: (u16, Seq<char>, Seq<char>)| e.1.len()), 6)
}

/// One row of the stash table: the pin as it is written (a pin is not padded to
/// its column), the author padded to the author column, and the creation time.
pub open spec fn table_row(e: (u16, Seq<char>, Seq<char>), author_width: nat) -> Seq<char> {
    decimal(e.0 as nat) + "  "@ + pad_right(e.1, author_width) + "  "@ + e.2
}

/// What `pairs list` prints for the stashes `es`: a note when there are none, else a
/// header, a rule and one row per stash, in columns as wide as their content.
pub open spec fn list_output(es: Seq<(u16, Seq<char>, Seq<char>)>) -> Seq<Seq<char>> {
    if es.len() == 0 {
        seq!["No remote stashes found."@]
    } else {
        let pw = pin_column_width(es);
        let aw = author_column_width(es);
        seq![
            pad_right("PIN"@, pw) + "  "@ + pad_right("AUTHOR"@, aw) + "  CREATED AT"@,
            repeat_char('-', pw + aw + 20),
        ] + es.map_values(|e: (u16, Seq<char>, Seq<char>)| table_row(e, aw))
    }
}

/// `widest` is at least the floor and at least every length.
proof fn lemma_widest_bounds(lens: Seq<nat>, floor: nat)
    ensures
        floor <= widest(lens, floor),
        forall|i: int| 0 <= i < lens.len() ==> lens[i] <= widest(lens, floor),
    decreases lens.len(),
{
    if lens.len() > 0 {
        lemma_widest_bounds(lens.drop_last(), floor);
        assert forall|i: int| 0 <= i < lens.len() implies lens[i] <= widest(lens, floor) by {
            if i < lens.len() - 1 {
                assert(lens.drop_last()[i] == lens[i]);
            }
        }
    }
}

/// Law: the columns of the stash table are at least as wide as their headers and
/// every value in them, and each padded author fills its column.
pub proof fn lemma_table_column_widths(es: Seq<(u16, Seq<char>, Seq<char>)>)
    ensures
        3 <= pin_column_width(es),
        6 <= author_column_width(es),
        forall|i: int|
            0 <= i < es.len() ==> {
                &&& decimal(es[i].0 as nat).len() <= pin_column_width(es)
                &&& es[i].1.len() <= author_column_width(es)
                &&& pad_right(es[i].1, author_column_width(es)).len() == author_column_width(es)
            },
{
    let pin_lens = es.map_values(|e: (u16, Seq<char>, Seq<char>)| decimal(e.0 as nat).len());
    let author_lens = es.map_values(|e: (u16, Seq<char>, Seq<char>)| e.1.len());
    lemma_widest_bounds(pin_lens, 3);
    lemma_widest_bounds(author_lens, 6);
    assert forall|i: int| 0 <= i < es.len() implies {
        &&& decimal(es[i].0 as nat).len() <= pin_column_width(es)
        &&& es[i].1.len() <= author_column_width(es)
        &&& pad_right(es[i].1, author_column_width(es)).len() == author_column_width(es)
    } by {
        assert(pin_lens[i] == decimal(es[i].0 as nat).len());
        assert(author_lens[i] == es[i].1.len());
    }
}

/// The number of characters in the decimal representation of `n`.
fn decimal_len(n: u16) -> (len: usize)
    ensures
        len == decimal(n as nat).len(),
{
    let mut buf: Vec<char> = Vec::new();
    push_decimal(&mut buf, n);
    assert(buf@ =~= decimal(n as nat));
    buf.len()
}

/// The lines that `pairs list` prints for the stashes `entries`.
pub fn stash_table(entries: &Vec<StashEntry>) -> (lines: Vec<String>)
    ensures
        views(lines@) == list_output(entries_view(entries@)),
{
    let ghost es = entries_view(entries@);
    let mut lines: Vec<String> = Vec::new();
    let n = entries.len();
    if n == 0 {
        lines.push("No remote stashes found.".to_owned());
        assert(views(lines@) =~= list_output(es));
        return lines;
    }
    let ghost pin_lens = es.map_values(|e: (u16, Seq<char>, Seq<char>)| decimal(e.0 as nat).len());
    let ghost author_lens = es.map_values(|e: (u16, Seq<char>, Seq<char>)| e.1.len());
    let mut pw: usize = 3;
    let mut aw: usize = 6;
    for i in 0..n
        invariant
            n == entries@.len(),
            es == entries_view(entries@),
            pin_lens == es.map_values(|e: (u16, Seq<char>, Seq<char>)| decimal(e.0 as nat).len()),
            author_lens == es.map_values(|e: (u16, Seq<char>, Seq<char>)| e.1.len()),
            pw == widest(pin_lens.take(i as int), 3),
            aw == widest(author_lens.take(i as int), 6),
    {
        let e = &entries[i];
        let pl = decimal_len(e.pin.as_u16());
        let al = chars_of(e.author.as_str()).len();
        assert(pin_lens.take(i + 1).drop_last() =~= pin_lens.take(i as int));
        assert(author_lens.take(i + 1).drop_last() =~= author_lens.take(i as int));
        if pl > pw {
            pw = pl;
        }
        if al > aw {
            aw = al;
        }
    }
    assert(pin_lens.take(n as int) =~= pin_lens);
    assert(author_lens.take(n as int) =~= author_lens);
    // header
    let mut header: Vec<char> = Vec::new();
    push_padded(&mut header, &chars_of("PIN"), pw);
    push_str_chars(&mut header, "  ");
    push_padded(&mut header, &chars_of("AUTHOR"), aw);
    push_str_chars(&mut header, "  CREATED AT");
    lines.push(string_of(&header));
    // rule
    let mut rule: Vec<char> = Vec::new();
    push_repeated(&mut rule, '-', pw);
    push_repeated(&mut rule, '-', aw);
    push_repeated(&mut rule, '-', 20);
    assert(rule@ =~= repeat_char('-', (pw + aw + 20) as nat));
    lines.push(string_of(&rule));
    let ghost rows = es.map_values(|e: (u16, Seq<char>, Seq<char>)| table_row(e, aw as nat));
    for i in 0..n
        invariant
            n == entries@.len(),
            es == entries_view(entries@),
            rows == es.map_values(|e: (u16, Seq<char>, Seq<char>)| table_row(e, aw as nat)),
            lines@.len() == 2 + i,
            views(lines@) == seq![
                pad_right("PIN"@, pw as nat) + "  "@ + pad_right("AUTHOR"@, aw as nat) + "  CREATED AT"@,
                repeat_char('-', (pw + aw + 20) as nat),
            ] + rows.take(i as int),
    {
        let e = &entries[i];
        let mut row: Vec<char> = Vec::new();
        let mut pin_text: Vec<char> = Vec::new();
        push_decimal(&mut pin_text, e.pin.as_u16());
        assert(pin_text@ =~= decimal(e.pin@ as nat));
        push_all(&mut row, &pin_text);
        push_str_chars(&mut row, "  ");
        push_padded(&mut row, &chars_of(e.author.as_str()), aw);
        push_str_chars(&mut row, "  ");
        push_str_chars(&mut row, e.created_at.as_str());
        let ghost before = lines@;
        lines.push(string_of(&row));
        assert(row@ =~= rows[i as int]);
        assert(rows.take(i + 1) =~= rows.take(i as int).push(rows[i as int]));
        assert(views(lines@) =~= views(before).push(row@));
    }
    assert(rows.take(n as int) =~= rows);
    assert(views(lines@) =~= list_output(es));
    lines
}


/// Lists the stashes on the remote.
pub struct ListCommand;

impl ExecutableCommand for ListCommand {
    fn execute<P: Prompter, G: GitClient>(
        &self,
        prompter: &mut P,
        git_client: &mut G,
        out: &mut Vec<String>,
    ) -> (result: Result<(), PairsError>)
        ensures
            final(out)@.len() >= old(out)@.len(),
            final(out)@.take(old(out)@.len() as int) == old(out)@,
            exists|s0: Session|
                s0.stage == Stage::ListValidate && #[trigger] runs_to(
                    s0,
                    result,
                    appended(old(out)@, final(out)@),
                    old(git_client).call_log(),
                    final(git_client).call_log(),
                    old(prompter).call_log(),
                    final(prompter).call_log(),
                ),
    {
        let s = Session::list();
        let result = run_session(s, prompter, git_client, out);
        result
    }
}

} // verus!
