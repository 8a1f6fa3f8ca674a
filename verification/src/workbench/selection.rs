//! The selection of a pane: where it began and where it has come to.

use vstd::prelude::*;

use crate::terminal::selection::{TerminalPoint, TerminalRange};
use crate::workbench::pane::PaneId;

verus! {

#[derive(Debug, Clone, Copy, PartialEq, Eq, Structural)]
pub struct PaneSelection {
    pub pane: PaneId,
    pub anchor: TerminalPoint,
    pub head: TerminalPoint,
}

impl PaneSelection {
    pub open spec fn spec_new(pane: PaneId, anchor: TerminalPoint) -> PaneSelection {
        PaneSelection { pane, anchor, head: anchor }
    }

    pub open spec fn spec_range(self) -> TerminalRange {
        TerminalRange::between(self.anchor, self.head)
    }

    pub fn new(pane: PaneId, anchor: TerminalPoint) -> (selection: PaneSelection)
        ensures
            selection == PaneSelection::spec_new(pane, anchor),
    {
        PaneSelection { pane, anchor, head: anchor }
    }

    pub fn pane(self) -> (pane: PaneId)
        ensures
            pane == self.pane,
    {
        self.pane
    }

    pub fn head(self) -> (head: TerminalPoint)
        ensures
            head == self.head,
    {
        self.head
    }

    /// Moves the head; the anchor stays.
    pub fn set_head(&mut self, head: TerminalPoint)
        ensures
            *final(self) == (PaneSelection { head, ..*old(self) }),
    {
        self.head = head;
    }

    pub fn range(self) -> (range: TerminalRange)
        ensures
            range == self.spec_range(),
    {
        TerminalRange::inclusive(self.anchor, self.head)
    }
}

/// A selection begins with one place, and reaches from where it began to where
/// it was last moved to, whichever of them comes first in the text.
pub proof fn selections_reach_from_end_to_end(
    pane: PaneId,
    anchor: TerminalPoint,
    head: TerminalPoint,
)
    ensures
        ({
            let range = (PaneSelection { head, ..PaneSelection::spec_new(pane, anchor) }).spec_range();
            let before = head.row < anchor.row || head.row == anchor.row && head.col < anchor.col;
            &&& PaneSelection::spec_new(pane, anchor).spec_range().start == anchor
            &&& PaneSelection::spec_new(pane, anchor).spec_range().end == anchor
            &&& range.start == if before {
                head
            } else {
                anchor
            }
            &&& range.end == if before {
                anchor
            } else {
                head
            }
        }),
{
}

} // verus!
