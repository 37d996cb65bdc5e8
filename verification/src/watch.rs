//! The watch loop's decision step.
//!
//! The loop itself — subscribing to the event source, blocking on the next
//! item, running a pass — is the caller's; this module decides, for each
//! item the subscription delivers, whether a fresh pass is due.  An error
//! from the event source never provokes a pass; an event does exactly when
//! the change filter accepts it.

use vstd::prelude::*;

use crate::events::{accept, spec_accept, ChangeEvent};

verus! {

/// One item delivered by the event subscription: an event, or an error of
/// the subscription itself.
pub enum WatchInput {
    /// A change event.
    Event(ChangeEvent),
    /// An error reported by the event source; logged by the caller and
    /// otherwise without effect.
    SourceError,
}

/// What the loop does with one delivered item.
pub enum WatchStep {
    /// Run a fresh serialization pass.
    Refresh,
    /// Do nothing and wait for the next item.
    Skip,
}

/// Decides the loop's reaction to one delivered item: refresh exactly when
/// the item is an event that the change filter accepts.
pub fn next_step(input: &WatchInput, output_path: &str) -> (s: WatchStep)
    ensures
        s is Refresh <==> (*input matches WatchInput::Event(e) && spec_accept(e, output_path@)),
{
    match input {
        WatchInput::Event(e) => {
            if accept(e, output_path) {
                WatchStep::Refresh
            } else {
                WatchStep::Skip
            }
        },
        WatchInput::SourceError => WatchStep::Skip,
    }
}

} // verus!
