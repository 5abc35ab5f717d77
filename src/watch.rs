//! The decisions of the watch loop: which filesystem changes trigger a
//! rebuild, and when watching stops.
use vstd::prelude::*;

verus! {

/// The kind of a filesystem change in the source tree.
#[derive(Clone, Copy, Debug, PartialEq, Eq, Structural)]
pub enum FsChange {
    Create,
    Modify,
    Remove,
    Other,
}

/// What the watch loop does about one change.
#[derive(Clone, Copy, Debug, PartialEq, Eq, Structural)]
pub enum WatchAction {
    Regenerate,
    Ignore,
}

/// Creating, modifying or removing a file rebuilds the site; any other
/// change is ignored.
pub fn on_change(change: FsChange) -> (r: WatchAction)
    ensures
        r == (if change == FsChange::Other {
            WatchAction::Ignore
        } else {
            WatchAction::Regenerate
        }),
{
    match change {
        FsChange::Create | FsChange::Modify | FsChange::Remove => WatchAction::Regenerate,
        FsChange::Other => WatchAction::Ignore,
    }
}

/// Watching goes on until `true` arrives on the cancellation channel;
/// `None` (no message, or no channel) and `false` keep it going.
pub fn keep_watching(message: Option<bool>) -> (r: bool)
    ensures
        r == (message != Some(true)),
{
    match message {
        Some(true) => false,
        _ => true,
    }
}

} // verus!
