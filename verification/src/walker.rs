//! What a walk over the project tree does with each entry it meets.

use vstd::prelude::*;

verus! {

/// What to do with an entry of the walk.
#[derive(Clone, Copy, Debug, PartialEq, Eq)]
pub enum WalkAction {
    /// Go on; if the entry is a directory, descend into it.
    Continue,
    /// Do not descend into this directory.
    Skip,
    /// Hand the entry on as a source file candidate, and go on.
    Yield,
}

/// The action for an entry at `depth` below the root, where `is_module`
/// says that the entry is a directory holding a package manifest and
/// `is_file` that it is a regular file.
///
/// The root itself is always descended into. Below it, the directory of a
/// package of its own is not entered, regular files are handed on, and
/// everything else is passed over.
pub open spec fn walk_action(depth: nat, is_module: bool, is_file: bool) -> WalkAction {
    if depth == 0 {
        WalkAction::Continue
    } else if is_module {
        WalkAction::Skip
    } else if is_file {
        WalkAction::Yield
    } else {
        WalkAction::Continue
    }
}

/// Decides what the walk does with one entry.
pub fn visit_entry(depth: usize, is_module: bool, is_file: bool) -> (action: WalkAction)
    ensures
        action == walk_action(depth as nat, is_module, is_file),
{
    if depth == 0 {
        WalkAction::Continue
    } else if is_module {
        WalkAction::Skip
    } else if is_file {
        WalkAction::Yield
    } else {
        WalkAction::Continue
    }
}

} // verus!
