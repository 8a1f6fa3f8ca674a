//! Who owns keyboard input.

use vstd::prelude::*;

verus! {

#[derive(Debug, Clone, Copy, PartialEq, Eq, Structural)]
pub enum Mode {
    /// Keyboard input is passed through to the focused backend pane.
    Edit,
    /// The workbench owns keyboard input for focus/layout commands.
    Control,
    /// The workbench owns keyboard input for read-only navigation/selection.
    View,
}

} // verus!
