use crate::commands::session::{Session, Stage};
use crate::commands::{appended, run_session, runs_to, ExecutableCommand};
use crate::error::PairsError;
use crate::git_client::GitClient;
use crate::prompter::Prompter;
use vstd::prelude::*;

verus! {

/// Pushes the uncommitted changes to a new remote branch `pairs/<pin>` and prints the pin.
pub struct StashCommand;

impl ExecutableCommand for StashCommand {
    fn execute<P: Prompter, G: GitClient>(
        &self,
        prompter: &mut P,
        git_client: &mut G,
        out: &mut Vec<String>,
    ) -> (result: Result<(), PairsError>)
        ensures
            final(out)@.len() >= old(out)@.len(),
            final(out)@.take(old(out)@.len() as int) == old(out)@,
            exists|s0: Session|
                s0.stage == Stage::StashValidate && #[trigger] runs_to(
                    s0,
                    result,
                    appended(old(out)@, final(out)@),
                    old(git_client).call_log(),
                    final(git_client).call_log(),
                    old(prompter).call_log(),
                    final(prompter).call_log(),
                ),
    {
        let s = Session::stash();
        let result = run_session(s, prompter, git_client, out);
        result
    }
}

} // verus!
