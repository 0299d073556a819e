use crate::commands::session::{Session, Stage};
use crate::commands::{appended, run_session, runs_to, ExecutableCommand};
use crate::error::PairsError;
use crate::git_client::{GitClient, Pin};
use crate::prompter::Prompter;
use vstd::prelude::*;

verus! {

/// Applies the remote stash with a given pin to the working tree.
pub struct ApplyCommand {
    pin: Pin,
}

impl ApplyCommand {
    /// The command that applies the stash with pin `pin`.
    pub fn new(pin: Pin) -> (c: Self)
        ensures
            c.pin() == pin,
    {
        Self { pin }
    }

    /// The pin of the stash this command applies.
    pub closed spec fn pin(&self) -> Pin {
        self.pin
    }
}

impl ExecutableCommand for ApplyCommand {
    fn execute<P: Prompter, G: GitClient>(
        &self,
        prompter: &mut P,
        git_client: &mut G,
        out: &mut Vec<String>,
    ) -> (result: Result<(), PairsError>)
        ensures
            final(out)@.len() >= old(out)@.len(),
            final(out)@.take(old(out)@.len() as int) == old(out)@,
            exists|s0: Session|
                s0.stage == Stage::ApplyValidate && s0.pin == self.pin() && #[trigger] runs_to(
                    s0,
                    result,
                    appended(old(out)@, final(out)@),
                    old(git_client).call_log(),
                    final(git_client).call_log(),
                    old(prompter).call_log(),
                    final(prompter).call_log(),
                ),
    {
        let s = Session::apply(self.pin);
        let result = run_session(s, prompter, git_client, out);
        result
    }
}

} // verus!
