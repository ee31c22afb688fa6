//! What a watched file asks of its holder: which events of the file system
//! call for loading the file again.

use vstd::prelude::*;

verus! {

/// What was modified, as the file system reports it.
#[derive(Copy, Clone, Debug, PartialEq, Eq, Structural)]
pub enum ModifyKind {
    Any,
    Data,
    Metadata,
    Name,
    Other,
}

/// An event on the watched path, by its kind.
#[derive(Copy, Clone, Debug, PartialEq, Eq, Structural)]
pub enum EventKind {
    Any,
    Access,
    Create,
    Modify(ModifyKind),
    Remove,
    Other,
}

/// What the holder of a watched file does next.
#[derive(Copy, Clone, Debug, PartialEq, Eq, Structural)]
pub enum WatchAction {
    /// Load the file again, publish what comes of it, and wake all who
    /// wait for it.
    Reload,
    /// Nothing.
    Ignore,
    /// Hand the watcher's error to the error sink; what was loaded stays.
    Report,
}

/// Whether an event of this kind can have changed what the file holds: its
/// creation, its removal, and any change but one of its metadata. An access
/// changes nothing.
pub open spec fn is_relevant(kind: EventKind) -> bool {
    match kind {
        EventKind::Any => true,
        EventKind::Create => true,
        EventKind::Modify(ModifyKind::Any) => true,
        EventKind::Modify(ModifyKind::Data) => true,
        EventKind::Modify(ModifyKind::Name) => true,
        EventKind::Modify(ModifyKind::Other) => true,
        EventKind::Remove => true,
        EventKind::Modify(ModifyKind::Metadata) => false,
        EventKind::Access => false,
        EventKind::Other => false,
    }
}

/// Whether an event of this kind calls for loading the file again.
pub fn relevant(kind: EventKind) -> (r: bool)
    ensures
        r == is_relevant(kind),
{
    match kind {
        EventKind::Any | EventKind::Create | EventKind::Remove => true,
        EventKind::Modify(modified) => match modified {
            ModifyKind::Metadata => false,
            _ => true,
        },
        EventKind::Access | EventKind::Other => false,
    }
}

/// What the holder does on a message of the watcher: an event, or `None`
/// where the watcher reports an error.
pub fn on_watch(message: Option<EventKind>) -> (r: WatchAction)
    ensures
        r == match message {
            Some(kind) => if is_relevant(kind) {
                WatchAction::Reload
            } else {
                WatchAction::Ignore
            },
            None => WatchAction::Report,
        },
{
    match message {
        Some(kind) => if relevant(kind) {
            WatchAction::Reload
        } else {
            WatchAction::Ignore
        },
        None => WatchAction::Report,
    }
}

} // verus!
