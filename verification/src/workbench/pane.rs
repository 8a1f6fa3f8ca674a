//! The panes of the workbench.

use vstd::prelude::*;

verus! {

#[derive(Debug, Clone, Copy, PartialEq, Eq, Hash, Structural)]
pub enum PaneId {
    Sidebar,
    Editor,
    Agent,
    Bottom,
}

/// What runs in a backend pane.
#[derive(Debug, Clone, Copy, PartialEq, Eq, Structural)]
pub enum BackendKind {
    Editor,
    Agent,
    Shell,
}

#[derive(Debug, Clone, Copy, PartialEq, Eq, Structural)]
pub enum PaneKind {
    Sidebar,
    Backend(BackendKind),
}

#[derive(Debug, Clone, Copy, PartialEq, Eq, Structural)]
pub struct PaneState {
    pub id: PaneId,
    pub kind: PaneKind,
    pub focused: bool,
    pub visible: bool,
}

impl PaneState {
    pub open spec fn spec_new(id: PaneId, kind: PaneKind) -> PaneState {
        PaneState { id, kind, focused: false, visible: true }
    }

    pub fn new(id: PaneId, kind: PaneKind) -> (pane: PaneState)
        ensures
            pane == PaneState::spec_new(id, kind),
    {
        PaneState { id, kind, focused: false, visible: true }
    }
}

} // verus!
