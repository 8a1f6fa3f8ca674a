//! The sizes of the panes around the editor.

use vstd::prelude::*;

use crate::geometry::sat_sub;
use crate::terminal::pty::PaneSize;

verus! {

#[derive(Debug, Clone, Copy, PartialEq, Eq, Structural)]
pub struct WorkspaceSession {
    pub sidebar_width: u16,
    pub agent_width: u16,
    pub bottom_height: u16,
    pub bottom_visible: bool,
}

impl Default for WorkspaceSession {
    fn default() -> (session: WorkspaceSession)
        ensures
            session == (WorkspaceSession {
                sidebar_width: 24,
                agent_width: 40,
                bottom_height: 12,
                bottom_visible: true,
            }),
    {
        WorkspaceSession {
            sidebar_width: 24,
            agent_width: 40,
            bottom_height: 12,
            bottom_visible: true,
        }
    }
}

impl WorkspaceSession {
    /// What the other panes leave of the terminal.
    pub open spec fn spec_editor_size(self, terminal: PaneSize) -> PaneSize {
        PaneSize {
            cols: sat_sub(sat_sub(terminal.cols, self.sidebar_width), self.agent_width),
            rows: if self.bottom_visible {
                sat_sub(terminal.rows, self.bottom_height)
            } else {
                terminal.rows
            },
        }
    }

    pub fn editor_size_hint(&self, terminal: PaneSize) -> (size: PaneSize)
        ensures
            size == self.spec_editor_size(terminal),
    {
        let cols: u16 = terminal.cols.saturating_sub(self.sidebar_width).saturating_sub(
            self.agent_width,
        );
        let rows: u16 = if self.bottom_visible {
            terminal.rows.saturating_sub(self.bottom_height)
        } else {
            terminal.rows
        };
        PaneSize { cols, rows }
    }
}

/// The panes share the terminal: the sidebar, the editor and the agent its
/// columns, and the editor and the bottom pane, where that is shown, its rows.
pub proof fn panes_share_the_terminal(session: WorkspaceSession, terminal: PaneSize)
    ensures
        session.sidebar_width + session.agent_width <= terminal.cols ==> session.sidebar_width
            + session.spec_editor_size(terminal).cols + session.agent_width == terminal.cols,
        session.bottom_visible && session.bottom_height <= terminal.rows
            ==> session.spec_editor_size(terminal).rows + session.bottom_height == terminal.rows,
        !session.bottom_visible ==> session.spec_editor_size(terminal).rows == terminal.rows,
{
}

} // verus!
