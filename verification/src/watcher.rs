//! Reactions to changes in the directory of tools.
use crate::paths::{file_name_of, parent_of, DiskPath};
use crate::registry::ToolRegistry;
use vstd::prelude::*;

verus! {

/// What happened to a path.
#[derive(Clone, Copy, Debug, PartialEq, Eq, Structural)]
pub enum ChangeKind {
    Created,
    Removed,
    Other,
}

/// What has to be done about a change.
#[derive(Debug)]
pub enum WatchAction {
    Nothing,
    /// Register the tool of this name.
    Register(String),
    /// Unregister the tool of this name.
    Unregister(String),
}

/// Decides what has to be done about a change of a path. A new directory right in the
/// directory of tools is a new tool, unless there is one of that name; a path removed
/// from there is a removed tool.
pub fn handle_event(
    kind: ChangeKind,
    path: &DiskPath,
    is_dir: bool,
    tools_dir: &DiskPath,
    registry: &ToolRegistry,
) -> (r: WatchAction)
    requires
        registry.wf(),
    ensures
        ({
            let name = file_name_of(path@);
            if parent_of(path@) != Some(tools_dir@) || name is None {
                r is Nothing
            } else if kind == ChangeKind::Created && is_dir {
                if registry@.contains_key(name->0) {
                    r is Nothing
                } else {
                    r matches WatchAction::Register(n) && n@ == name->0
                }
            } else if kind == ChangeKind::Removed {
                r matches WatchAction::Unregister(n) && n@ == name->0
            } else {
                r is Nothing
            }
        }),
{
    match path.parent() {
        None => {
            return WatchAction::Nothing;
        },
        Some(p) => {
            if !p.is(tools_dir) {
                return WatchAction::Nothing;
            }
        },
    }
    match path.file_name() {
        None => WatchAction::Nothing,
        Some(name) => {
            if kind == ChangeKind::Created && is_dir {
                if registry.get(&name).is_some() {
                    WatchAction::Nothing
                } else {
                    WatchAction::Register(name)
                }
            } else if kind == ChangeKind::Removed {
                WatchAction::Unregister(name)
            } else {
                WatchAction::Nothing
            }
        },
    }
}

} // verus!
