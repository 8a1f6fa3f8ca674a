//! The lines that a pane shows.

use vstd::prelude::*;

use crate::terminal::pty::PaneSize;

verus! {

#[derive(Debug, PartialEq, Eq)]
pub struct TerminalScreen {
    pub size: PaneSize,
    pub lines: Vec<String>,
}

impl TerminalScreen {
    pub fn empty(size: PaneSize) -> (screen: TerminalScreen)
        ensures
            screen.size == size,
            screen.lines@.len() == 0,
    {
        TerminalScreen { size, lines: Vec::new() }
    }
}

} // verus!
