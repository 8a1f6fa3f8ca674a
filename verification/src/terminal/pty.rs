//! The plain description of a program in a pane.

use vstd::prelude::*;

verus! {

/// The extent of a pane in cells.
#[derive(Debug, Clone, Copy, PartialEq, Eq, Structural)]
pub struct PaneSize {
    pub cols: u16,
    pub rows: u16,
}

impl PaneSize {
    pub fn new(cols: u16, rows: u16) -> (size: PaneSize)
        ensures
            size == (PaneSize { cols, rows }),
    {
        PaneSize { cols, rows }
    }
}

/// A command with its arguments.
#[derive(Debug, PartialEq, Eq)]
pub struct PtyBackendSpec {
    pub command: String,
    pub args: Vec<String>,
}

impl PtyBackendSpec {
    pub fn new(command: &str) -> (spec: PtyBackendSpec)
        ensures
            spec.command@ == command@,
            spec.args@.len() == 0,
    {
        PtyBackendSpec { command: command.to_owned(), args: Vec::new() }
    }
}

} // verus!
