//! A parser that knows the size of its pane and shows nothing yet.

use vstd::prelude::*;

use crate::terminal::pty::PaneSize;
use crate::terminal::screen::TerminalScreen;

verus! {

#[derive(Debug)]
pub struct TerminalParser {
    pub size: PaneSize,
}

impl TerminalParser {
    pub fn new(size: PaneSize) -> (parser: TerminalParser)
        ensures
            parser.size == size,
    {
        TerminalParser { size }
    }

    pub fn size(&self) -> (size: PaneSize)
        ensures
            size == self.size,
    {
        self.size
    }

    pub fn resize(&mut self, size: PaneSize)
        ensures
            final(self).size == size,
    {
        self.size = size;
    }

    /// Output is not interpreted: the screen has no lines whatever was read.
    pub fn parse(&mut self, _bytes: &[u8]) -> (screen: TerminalScreen)
        ensures
            *final(self) == *old(self),
            screen.size == old(self).size,
            screen.lines@.len() == 0,
    {
        TerminalScreen::empty(self.size)
    }
}

} // verus!
