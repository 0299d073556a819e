# pairs

A command line tool for pair programming: it hands work over between partners
through temporary remote branches named `pairs/<pin>`.

- `pairs` stashes the uncommitted changes on a new branch `pairs/<pin>`, pushes it,
  prints the pin and asks whether to discard the changes locally.
- `pairs list` lists the stashes on the remote.
- `pairs pop` applies the only stash, or the one the user picks.
- `pairs <pin>` applies the stash with that pin and offers to delete its branch.

## Layout

- `src/` is the verified library.
  - `commands/session.rs`: each command as a session that, from its state and the
    answer to the last git or prompt operation, gives the next operation or the
    result; the laws of the commands are proved there.
  - `commands/mod.rs`: runs a session against a `GitClient` and a `Prompter`, and
    picks the session from the command line. Each client and prompter method adds
    the operation it performed, with its answer, to the call log a client may keep
    (`call_log`); a command's result and output are those its session reaches with
    those answers, and the calls added to each log are exactly that client's
    operations of the run, in order.
  - `commands/runs.rs`: what whole command runs do when the answers are known: the
    operations performed and logged, what is printed, the result.
  - `commands/list.rs`, `commands/pop.rs`: the stash table and the pop choices.
  - `git_client.rs`: pins, stash entries, the `GitClient` trait, and what the git
    client decides from what git prints (stash list reader, error messages).
  - `git.rs`: the git command line behind each operation.
  - `git_validation.rs`: the setup checks as a step function: which check comes
    next, in order, and no check after the first that fails.
  - `text.rs`: decimal numbers, `u16` parsing, trimming, padding.
- `app/` is the binary: command line parsing (clap), terminal prompts (dialoguer),
  and running git.
- `tests/` runs the commands against scripted git clients and prompters.
