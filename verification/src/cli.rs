use vstd::prelude::*;

verus! {

/// The command line of `pairs`: an optional subcommand and an optional pin.
#[derive(Debug)]
pub struct Cli {
    pub command: Option<PairsCommand>,
    /// Apply changes from the remote stash with this pin.
    pub pin: Option<String>,
}

/// The subcommands of `pairs`.
#[derive(Debug, Clone, Copy, PartialEq, Eq, Structural)]
pub enum PairsCommand {
    /// List all remotely existing stashes.
    List,
    /// Pop a remote stash: the only one, or the one the user picks.
    Pop,
}

} // verus!
