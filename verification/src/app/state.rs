//! The application as a whole: a workspace, and what of it has the focus.

use vstd::prelude::*;

use crate::workbench::focus::FocusGraph;
use crate::workbench::mode::Mode;
use crate::workbench::pane::PaneId;
use crate::workspace::Workspace;

verus! {

/// Who has the keyboard.
#[derive(Debug, Clone, Copy, PartialEq, Eq, Structural)]
pub struct Workbench {
    pub graph: FocusGraph,
    pub mode: Mode,
    pub focused_pane: PaneId,
}

impl Workbench {
    /// A workbench whose editor reads the keyboard.
    pub fn new(graph: FocusGraph) -> (workbench: Workbench)
        ensures
            workbench == (Workbench { graph, mode: Mode::Edit, focused_pane: PaneId::Editor }),
    {
        Workbench { graph, mode: Mode::Edit, focused_pane: PaneId::Editor }
    }

    pub fn mode(&self) -> (mode: Mode)
        ensures
            mode == self.mode,
    {
        self.mode
    }

    pub fn focused_pane(&self) -> (pane: PaneId)
        ensures
            pane == self.focused_pane,
    {
        self.focused_pane
    }
}

#[derive(Debug)]
pub struct App {
    pub workspace: Workspace,
    pub workbench: Workbench,
}

impl App {
    pub fn new(workspace: Workspace) -> (app: App)
        ensures
            app.workspace == workspace,
            app.workbench == (Workbench {
                graph: FocusGraph,
                mode: Mode::Edit,
                focused_pane: PaneId::Editor,
            }),
    {
        App { workspace, workbench: Workbench::new(FocusGraph::default()) }
    }

    pub fn workspace(&self) -> (workspace: &Workspace)
        ensures
            *workspace == self.workspace,
    {
        &self.workspace
    }

    pub fn mode(&self) -> (mode: Mode)
        ensures
            mode == self.workbench.mode,
    {
        self.workbench.mode()
    }

    pub fn focused_pane(&self) -> (pane: PaneId)
        ensures
            pane == self.workbench.focused_pane,
    {
        self.workbench.focused_pane()
    }
}

} // verus!
