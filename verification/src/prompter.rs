use crate::commands::session::{choice_answer, flag_answer, EffectView, Reply};
use crate::commands::log_grows;
use crate::error::PairsError;
use crate::text::views;
use vstd::prelude::*;

verus! {

/// Asks the user questions; commands ask through it, so that it can be replaced.
pub trait Prompter {
    /// The questions this prompter has asked, each with the answer it gave, oldest
    /// first; `None` for a prompter that keeps no such record, the default.
    open spec fn call_log(&self) -> Option<Seq<(EffectView, Reply)>> {
        None
    }

    /// Asks a yes/no question; `default` is the answer offered first.
    fn confirm(&mut self, prompt: &str, default: bool) -> (r: Result<bool, PairsError>)
        ensures
            log_grows(
                old(self).call_log(),
                final(self).call_log(),
                seq![(EffectView::Confirm(prompt@, default), flag_answer(r))],
            ),
    ;

    /// Asks the user to pick one of `items`; returns the index of the chosen item.
    fn select(&mut self, prompt: &str, items: &[String], default: usize) -> (r: Result<usize, PairsError>)
        ensures
            log_grows(
                old(self).call_log(),
                final(self).call_log(),
                seq![(EffectView::Select(prompt@, views(items@), default), choice_answer(r))],
            ),
    ;
}

} // verus!
