//! The watchman's decisions: which filesystem events matter and where a
//! changed path is dispatched.

use vstd::prelude::*;

use crate::text::{contains_seq, contains_str, ends_with};
use crate::runtime::has_prefix;

verus! {

/// The shape of a modification event, as far as the engine cares.
#[derive(Clone, Copy, Debug, PartialEq, Eq, Structural)]
pub enum ModifyDetail {
    Data,
    Any,
    Other,
}

/// The shape of a creation event, as far as the engine cares.
#[derive(Clone, Copy, Debug, PartialEq, Eq, Structural)]
pub enum CreateDetail {
    Any,
    File,
    Other,
}

/// A filesystem event kind, modelled over the cases the engine reads.
#[derive(Clone, Copy, Debug, PartialEq, Eq, Structural)]
pub enum WatchEventKind {
    Modify(ModifyDetail),
    Create(CreateDetail),
    Access,
    Remove,
    Other,
}

/// Only content changes and creations wake the engine.
pub open spec fn relevant_event(kind: WatchEventKind) -> bool {
    ||| kind == WatchEventKind::Modify(ModifyDetail::Data)
    ||| kind == WatchEventKind::Modify(ModifyDetail::Any)
    ||| kind == WatchEventKind::Create(CreateDetail::Any)
    ||| kind == WatchEventKind::Create(CreateDetail::File)
}

/// Filters filesystem noise: only data modifications and creations pass.
pub fn is_relevant_fs_event(kind: &WatchEventKind) -> (r: bool)
    ensures
        r == relevant_event(*kind),
{
    match kind {
        WatchEventKind::Modify(ModifyDetail::Data) => true,
        WatchEventKind::Modify(ModifyDetail::Any) => true,
        WatchEventKind::Create(CreateDetail::Any) => true,
        WatchEventKind::Create(CreateDetail::File) => true,
        _ => false,
    }
}

/// Where one changed path is dispatched.
#[derive(Debug, PartialEq, Eq, Structural)]
pub enum WatchAction {
    /// A structured external-event mirror changed: resynchronise them all.
    SyncBrainEvents,
    /// A ritual document changed: run that thread.
    ExecuteRitual,
    /// Everything else — notably plain conversation-log changes, which only
    /// run via explicit notifications.
    Ignore,
}

/// A path lies under a directory when the directory is a whole-component
/// prefix of it.
pub open spec fn under_dir(path: Seq<char>, dir: Seq<char>) -> bool {
    has_prefix(path, dir) && (path.len() == dir.len() || path[dir.len() as int] == '/')
}

/// Whether `path` lies under `dir`, component-wise.
pub fn path_starts_with_dir(path: &str, dir: &str) -> (r: bool)
    ensures
        r == under_dir(path@, dir@),
{
    if !crate::text::starts_with(path, dir) {
        return false;
    }
    let pn = path.unicode_len();
    let dn = dir.unicode_len();
    pn == dn || path.get_char(dn) == '/'
}

/// Each changed path classifies into exactly one action: external-event
/// mirrors (a `.json` under a path naming `brain`), ritual documents (a
/// `.md` under the rituals directory), or nothing.
pub open spec fn watch_classification(path: Seq<char>, rituals_dir: Seq<char>) -> WatchAction {
    if contains_seq(path, "brain"@) && path.len() >= 5 && path.subrange(
        path.len() - 5,
        path.len() as int,
    ) == ".json"@ {
        WatchAction::SyncBrainEvents
    } else if under_dir(path, rituals_dir) && path.len() >= 3 && path.subrange(
        path.len() - 3,
        path.len() as int,
    ) == ".md"@ {
        WatchAction::ExecuteRitual
    } else {
        WatchAction::Ignore
    }
}

/// Classifies one changed path for dispatch.
pub fn classify_watch_path(path: &str, rituals_dir: &str) -> (r: WatchAction)
    ensures
        r == watch_classification(path@, rituals_dir@),
{
    proof {
        reveal_strlit(".json");
        reveal_strlit(".md");
    }
    if contains_str(path, "brain") && ends_with(path, ".json") {
        WatchAction::SyncBrainEvents
    } else if path_starts_with_dir(path, rituals_dir) && ends_with(path, ".md") {
        WatchAction::ExecuteRitual
    } else {
        WatchAction::Ignore
    }
}

} // verus!
