//! Moving the focus between neighbouring panes.

use crate::geometry::Rect;
use crate::workbench::layout::{
    bottom_panes_are_as_high_as_meant, panes_have_their_places, WorkbenchLayout,
    WorkbenchLayoutConfig, WorkbenchVisibility, MIN_SHELL_PANE_HEIGHT, MIN_TERMINAL_HEIGHT,
};
use crate::workbench::pane::PaneId;
use vstd::prelude::*;

verus! {

#[derive(Debug, Clone, Copy, PartialEq, Eq, Structural)]
pub enum Direction {
    Left,
    Down,
    Up,
    Right,
}

impl Direction {
    pub open spec fn opposite(self) -> Direction {
        match self {
            Direction::Left => Direction::Right,
            Direction::Right => Direction::Left,
            Direction::Up => Direction::Down,
            Direction::Down => Direction::Up,
        }
    }
}

#[derive(Debug, Clone, Copy, PartialEq, Eq, Structural)]
pub struct FocusGraph;

impl Default for FocusGraph {
    fn default() -> (graph: FocusGraph)
        ensures
            graph == FocusGraph,
    {
        FocusGraph
    }
}

/// The sidebar, the editor and the agent stand side by side; the bottom pane
/// is below the editor. At an edge the focus stays.
pub open spec fn neighbour(current: PaneId, direction: Direction) -> PaneId {
    match (current, direction) {
        (PaneId::Sidebar, Direction::Right) => PaneId::Editor,
        (PaneId::Editor, Direction::Left) => PaneId::Sidebar,
        (PaneId::Editor, Direction::Right) => PaneId::Agent,
        (PaneId::Agent, Direction::Left) => PaneId::Editor,
        (PaneId::Editor, Direction::Down) => PaneId::Bottom,
        (PaneId::Bottom, Direction::Up) => PaneId::Editor,
        _ => current,
    }
}

impl FocusGraph {
    pub fn next(&self, current: PaneId, direction: Direction) -> (pane: PaneId)
        ensures
            pane == neighbour(current, direction),
    {
        match (current, direction) {
            (PaneId::Sidebar, Direction::Right) => PaneId::Editor,
            (PaneId::Editor, Direction::Left) => PaneId::Sidebar,
            (PaneId::Editor, Direction::Right) => PaneId::Agent,
            (PaneId::Agent, Direction::Left) => PaneId::Editor,
            (PaneId::Editor, Direction::Down) => PaneId::Bottom,
            (PaneId::Bottom, Direction::Up) => PaneId::Editor,
            _ => current,
        }
    }
}

/// A move that changes the focus is undone by the move back.
pub proof fn focus_moves_are_reversible(pane: PaneId, direction: Direction)
    requires
        neighbour(pane, direction) != pane,
    ensures
        neighbour(neighbour(pane, direction), direction.opposite()) == pane,
{
}

/// The focus moves to the pane that lies in the direction of the move.
pub proof fn focus_follows_the_layout(
    area: Rect,
    config: WorkbenchLayoutConfig,
    pane: PaneId,
    direction: Direction,
)
    requires
        area.fits(),
        neighbour(pane, direction) != pane,
        !WorkbenchLayout::solved(
            area,
            config,
            WorkbenchVisibility { sidebar: true, bottom: true },
        ).compact,
        area.height >= MIN_TERMINAL_HEIGHT + MIN_SHELL_PANE_HEIGHT,
    ensures
        ({
            let layout = WorkbenchLayout::solved(
                area,
                config,
                WorkbenchVisibility { sidebar: true, bottom: true },
            );
            let area_of = |pane: PaneId|
                match pane {
                    PaneId::Sidebar => layout.sidebar,
                    PaneId::Editor => layout.editor,
                    PaneId::Agent => layout.agent,
                    PaneId::Bottom => layout.bottom,
                };
            let from = area_of(pane);
            let to = area_of(neighbour(pane, direction));
            match direction {
                Direction::Left => to.x + to.width == from.x,
                Direction::Right => from.x + from.width == to.x,
                Direction::Up => to.y + to.height == from.y,
                Direction::Down => from.y + from.height == to.y,
            }
        }),
{
    panes_have_their_places(
        area,
        config,
        WorkbenchVisibility { sidebar: true, bottom: true },
    );
    bottom_panes_are_as_high_as_meant(
        area,
        config,
        WorkbenchVisibility { sidebar: true, bottom: true },
    );
}

/// From the editor every other pane is one move away.
pub proof fn editors_are_in_the_middle(pane: PaneId) -> (direction: Direction)
    requires
        pane != PaneId::Editor,
    ensures
        neighbour(PaneId::Editor, direction) == pane,
        neighbour(pane, direction.opposite()) == PaneId::Editor,
        neighbour(pane, direction) == pane,
{
    match pane {
        PaneId::Sidebar => Direction::Left,
        PaneId::Bottom => Direction::Down,
        _ => Direction::Right,
    }
}

} // verus!
