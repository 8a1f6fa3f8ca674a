//! Which part of the workbench owns a cell of the viewport.

use crate::geometry::{sat_add, sat_sub, Rect};
use crate::workbench::layout::{
    panes_are_contained, panes_are_disjoint, panes_fill_the_viewport, panes_have_their_places,
    too_small,
    visible_terminals_have_room, WorkbenchLayout, WorkbenchLayoutConfig, WorkbenchVisibility,
};
use crate::workbench::pane::PaneId;
use vstd::prelude::*;

verus! {

/// Layout chrome has priority over pane borders/content. This makes every cell
/// have one owner and prevents resize gestures from reaching a terminal.
#[derive(Debug, Clone, Copy, PartialEq, Eq, Structural)]
pub enum LayoutDivider {
    SidebarMain,
    EditorAgent,
    EditorBottom,
}

#[derive(Debug, Clone, Copy, PartialEq, Eq, Structural)]
pub enum LayoutHandle {
    Sidebar,
    Bottom,
}

#[derive(Debug, Clone, Copy, PartialEq, Eq, Structural)]
pub enum MouseTarget {
    Handle(LayoutHandle),
    Divider(LayoutDivider),
    Sidebar,
    Border(PaneId),
    Content { pane: PaneId, row: u16, col: u16 },
}

impl MouseTarget {
    pub open spec fn spec_pane(self) -> Option<PaneId> {
        match self {
            MouseTarget::Sidebar => Some(PaneId::Sidebar),
            MouseTarget::Border(pane) => Some(pane),
            MouseTarget::Content { pane, .. } => Some(pane),
            MouseTarget::Handle(_) => None,
            MouseTarget::Divider(_) => None,
        }
    }

    /// The pane that a press on the target focuses; chrome belongs to none.
    pub fn pane(self) -> (pane: Option<PaneId>)
        ensures
            pane == self.spec_pane(),
    {
        match self {
            MouseTarget::Sidebar => Some(PaneId::Sidebar),
            MouseTarget::Border(pane) => Some(pane),
            MouseTarget::Content { pane, .. } => Some(pane),
            MouseTarget::Handle(_) | MouseTarget::Divider(_) => None,
        }
    }
}

/// The cell of a handle: next to the corner of the pane that it collapses, or
/// on the editor's border where it restores a hidden pane.
pub open spec fn handle_cell(layout: WorkbenchLayout, handle: LayoutHandle) -> (u16, u16) {
    match handle {
        LayoutHandle::Sidebar => if layout.sidebar.width > 0 {
            (sat_add(layout.sidebar.x, 1), layout.sidebar.y)
        } else {
            (layout.editor.x, layout.editor.y)
        },
        LayoutHandle::Bottom => if layout.bottom.height > 0 {
            (sat_add(layout.bottom.x, 1), layout.bottom.y)
        } else {
            (
                sat_add(layout.editor.x, (layout.editor.width / 2) as u16),
                sat_sub(layout.editor.spec_bottom(), 1),
            )
        },
    }
}

pub fn layout_handle_position(layout: WorkbenchLayout, handle: LayoutHandle) -> (cell: (u16, u16))
    ensures
        cell == handle_cell(layout, handle),
{
    match handle {
        LayoutHandle::Sidebar => if layout.sidebar.width > 0 {
            (layout.sidebar.x.saturating_add(1), layout.sidebar.y)
        } else {
            (layout.editor.x, layout.editor.y)
        },
        LayoutHandle::Bottom => if layout.bottom.height > 0 {
            (layout.bottom.x.saturating_add(1), layout.bottom.y)
        } else {
            (
                layout.editor.x.saturating_add(layout.editor.width / 2),
                layout.editor.bottom().saturating_sub(1),
            )
        },
    }
}

/// Whether the cell lies in the area, as far as its edges are representable.
pub open spec fn in_area(area: Rect, column: u16, row: u16) -> bool {
    &&& area.x <= column < area.spec_right()
    &&& area.y <= row < area.spec_bottom()
}

/// Whether the cell lies on the outermost ring of the area.
pub open spec fn on_border(area: Rect, column: u16, row: u16) -> bool {
    ||| column == area.x
    ||| column == sat_sub(area.spec_right(), 1)
    ||| row == area.y
    ||| row == sat_sub(area.spec_bottom(), 1)
}

/// The divider that a cell belongs to, if any.
pub open spec fn divider_at(layout: WorkbenchLayout, column: u16, row: u16) -> Option<
    LayoutDivider,
> {
    if layout.sidebar.width > 0 && column == layout.editor.x && layout.editor.y <= row
        < layout.agent.spec_bottom() {
        Some(LayoutDivider::SidebarMain)
    } else if column == layout.agent.x && layout.agent.y <= row < layout.agent.spec_bottom() {
        Some(LayoutDivider::EditorAgent)
    } else if layout.bottom.height > 0 && row == layout.bottom.y && layout.editor.x <= column
        < layout.editor.spec_right() {
        Some(LayoutDivider::EditorBottom)
    } else {
        None
    }
}

/// What a terminal pane makes of a cell of its area: its border, or its
/// content with coordinates counted from the first content cell.
pub open spec fn terminal_target(pane: PaneId, area: Rect, column: u16, row: u16) -> MouseTarget {
    if on_border(area, column, row) {
        MouseTarget::Border(pane)
    } else {
        MouseTarget::Content {
            pane,
            row: (row - area.y - 1) as u16,
            col: (column - area.x - 1) as u16,
        }
    }
}

/// The owner of a cell: handles before dividers, dividers before panes.
pub open spec fn owner(layout: WorkbenchLayout, column: u16, row: u16) -> Option<MouseTarget> {
    if layout.compact {
        None
    } else if (column, row) == handle_cell(layout, LayoutHandle::Sidebar) {
        Some(MouseTarget::Handle(LayoutHandle::Sidebar))
    } else if (column, row) == handle_cell(layout, LayoutHandle::Bottom) {
        Some(MouseTarget::Handle(LayoutHandle::Bottom))
    } else if divider_at(layout, column, row) is Some {
        Some(MouseTarget::Divider(divider_at(layout, column, row)->0))
    } else if in_area(layout.sidebar, column, row) {
        Some(MouseTarget::Sidebar)
    } else if in_area(layout.editor, column, row) {
        Some(terminal_target(PaneId::Editor, layout.editor, column, row))
    } else if in_area(layout.agent, column, row) {
        Some(terminal_target(PaneId::Agent, layout.agent, column, row))
    } else if in_area(layout.bottom, column, row) {
        Some(terminal_target(PaneId::Bottom, layout.bottom, column, row))
    } else {
        None
    }
}

pub fn hit_test(layout: WorkbenchLayout, column: u16, row: u16) -> (target: Option<MouseTarget>)
    ensures
        target == owner(layout, column, row),
{
    if layout.compact {
        return None;
    }
    // Handles are tested before dividers so their click target remains exact.

    let sidebar_handle = layout_handle_position(layout, LayoutHandle::Sidebar);
    if column == sidebar_handle.0 && row == sidebar_handle.1 {
        return Some(MouseTarget::Handle(LayoutHandle::Sidebar));
    }
    let bottom_handle = layout_handle_position(layout, LayoutHandle::Bottom);
    if column == bottom_handle.0 && row == bottom_handle.1 {
        return Some(MouseTarget::Handle(LayoutHandle::Bottom));
    }
    if layout.sidebar.width > 0 && column == layout.editor.x && row >= layout.editor.y && row
        < layout.agent.bottom() {
        return Some(MouseTarget::Divider(LayoutDivider::SidebarMain));
    }
    if column == layout.agent.x && row >= layout.agent.y && row < layout.agent.bottom() {
        return Some(MouseTarget::Divider(LayoutDivider::EditorAgent));
    }
    if layout.bottom.height > 0 && row == layout.bottom.y && column >= layout.editor.x && column
        < layout.editor.right() {
        return Some(MouseTarget::Divider(LayoutDivider::EditorBottom));
    }
    if contains(layout.sidebar, column, row) {
        return Some(MouseTarget::Sidebar);
    }
    if contains(layout.editor, column, row) {
        return Some(in_terminal(PaneId::Editor, layout.editor, column, row));
    }
    if contains(layout.agent, column, row) {
        return Some(in_terminal(PaneId::Agent, layout.agent, column, row));
    }
    if contains(layout.bottom, column, row) {
        return Some(in_terminal(PaneId::Bottom, layout.bottom, column, row));
    }
    None
}

fn in_terminal(pane: PaneId, area: Rect, column: u16, row: u16) -> (target: MouseTarget)
    requires
        in_area(area, column, row),
    ensures
        target == terminal_target(pane, area, column, row),
{
    if is_border(area, column, row) {
        return MouseTarget::Border(pane);
    }
    MouseTarget::Content { pane, row: row - area.y - 1, col: column - area.x - 1 }
}

fn contains(area: Rect, column: u16, row: u16) -> (inside: bool)
    ensures
        inside == in_area(area, column, row),
{
    column >= area.x && column < area.right() && row >= area.y && row < area.bottom()
}

fn is_border(area: Rect, column: u16, row: u16) -> (border: bool)
    ensures
        border == on_border(area, column, row),
{
    column == area.x || column == area.right().saturating_sub(1) || row == area.y || row
        == area.bottom().saturating_sub(1)
}

/// Every cell of the viewport has an owner and no other cell has one, as long
/// as the layout is not compact; a compact layout owns no cell.
pub proof fn every_cell_has_one_owner(
    area: Rect,
    config: WorkbenchLayoutConfig,
    visibility: WorkbenchVisibility,
    column: u16,
    row: u16,
)
    requires
        area.fits(),
    ensures
        ({
            let layout = WorkbenchLayout::solved(area, config, visibility);
            owner(layout, column, row) is Some <==> (!layout.compact && area.has_cell(
                column as int,
                row as int,
            ))
        }),
{
    let layout = WorkbenchLayout::solved(area, config, visibility);
    if !too_small(area, config, visibility) {
        panes_are_contained(area, config, visibility);
        if area.has_cell(column as int, row as int) {
            panes_fill_the_viewport(area, config, visibility, column as int, row as int);
        }
    }
}

/// Both handles stay reachable, whether their pane is shown or hidden.
pub proof fn handles_are_reachable(
    area: Rect,
    config: WorkbenchLayoutConfig,
    visibility: WorkbenchVisibility,
    handle: LayoutHandle,
)
    requires
        area.fits(),
        !too_small(area, config, visibility),
    ensures
        ({
            let layout = WorkbenchLayout::solved(area, config, visibility);
            let cell = handle_cell(layout, handle);
            &&& area.has_cell(cell.0 as int, cell.1 as int)
            &&& owner(layout, cell.0, cell.1) == Some(MouseTarget::Handle(handle))
        }),
{
    visible_terminals_have_room(area, config, visibility);
}

/// A content target names the terminal cell under the pointer: the cell lies
/// strictly inside the border of that pane, and the coordinates count from the
/// first cell inside it.
pub proof fn content_coordinates_are_local(
    area: Rect,
    config: WorkbenchLayoutConfig,
    visibility: WorkbenchVisibility,
    column: u16,
    row: u16,
    pane: PaneId,
    local_row: u16,
    local_col: u16,
)
    requires
        area.fits(),
        owner(WorkbenchLayout::solved(area, config, visibility), column, row) == Some(
            MouseTarget::Content { pane, row: local_row, col: local_col },
        ),
    ensures
        ({
            let layout = WorkbenchLayout::solved(area, config, visibility);
            let pane_area = match pane {
                PaneId::Sidebar => layout.sidebar,
                PaneId::Editor => layout.editor,
                PaneId::Agent => layout.agent,
                PaneId::Bottom => layout.bottom,
            };
            &&& pane != PaneId::Sidebar
            &&& column == pane_area.x + 1 + local_col
            &&& row == pane_area.y + 1 + local_row
            &&& local_col + 2 < pane_area.width
            &&& local_row + 2 < pane_area.height
        }),
{
    panes_are_disjoint(area, config, visibility);
}

/// A cell inside the border of a terminal is content of that terminal, counted
/// from the first cell inside the border.
pub proof fn cells_inside_borders_are_content(
    area: Rect,
    config: WorkbenchLayoutConfig,
    visibility: WorkbenchVisibility,
    pane: PaneId,
    local_row: u16,
    local_col: u16,
)
    requires
        area.fits(),
        !WorkbenchLayout::solved(area, config, visibility).compact,
        pane != PaneId::Sidebar,
        ({
            let layout = WorkbenchLayout::solved(area, config, visibility);
            let pane_area = match pane {
                PaneId::Sidebar => layout.sidebar,
                PaneId::Editor => layout.editor,
                PaneId::Agent => layout.agent,
                PaneId::Bottom => layout.bottom,
            };
            local_row + 2 < pane_area.height && local_col + 2 < pane_area.width
        }),
    ensures
        ({
            let layout = WorkbenchLayout::solved(area, config, visibility);
            let pane_area = match pane {
                PaneId::Sidebar => layout.sidebar,
                PaneId::Editor => layout.editor,
                PaneId::Agent => layout.agent,
                PaneId::Bottom => layout.bottom,
            };
            owner(
                layout,
                (pane_area.x + 1 + local_col) as u16,
                (pane_area.y + 1 + local_row) as u16,
            ) == Some(MouseTarget::Content { pane, row: local_row, col: local_col })
        }),
{
    panes_have_their_places(area, config, visibility);
    visible_terminals_have_room(area, config, visibility);
}

/// The edges between panes can be dragged wherever there is no handle: the left
/// edge of the editor beside a sidebar, the left edge of the agent, and the top
/// edge of the bottom pane. Every other cell of the sidebar is the sidebar's.
pub proof fn edges_between_panes_are_dividers(
    area: Rect,
    config: WorkbenchLayoutConfig,
    visibility: WorkbenchVisibility,
    column: u16,
    row: u16,
)
    requires
        area.fits(),
        !WorkbenchLayout::solved(area, config, visibility).compact,
        area.has_cell(column as int, row as int),
        owner(WorkbenchLayout::solved(area, config, visibility), column, row)->0 !is Handle,
    ensures
        ({
            let layout = WorkbenchLayout::solved(area, config, visibility);
            let target = owner(layout, column, row)->0;
            &&& target == MouseTarget::Divider(LayoutDivider::SidebarMain) <==> layout.sidebar.width
                > 0 && column == layout.editor.x
            &&& target == MouseTarget::Divider(LayoutDivider::EditorAgent) <==> column
                == layout.agent.x
            &&& target == MouseTarget::Divider(LayoutDivider::EditorBottom) <==> layout.bottom.height
                > 0 && row == layout.bottom.y && layout.editor.x <= column < layout.agent.x && !(
            layout.sidebar.width > 0 && column == layout.editor.x)
            &&& target == MouseTarget::Sidebar <==> layout.sidebar.width > 0 && column
                < layout.editor.x
        }),
{
    panes_have_their_places(area, config, visibility);
    visible_terminals_have_room(area, config, visibility);
}

/// The handle of a pane that is shown is next to the left corner of its upper
/// border. That of a hidden pane is on the border of the editor where the pane
/// was: at its corner, or in the middle of its lower edge.
pub proof fn handles_stand_on_borders(layout: WorkbenchLayout)
    requires
        layout.editor.fits(),
        layout.sidebar.fits(),
        layout.bottom.fits(),
        layout.editor.height > 0,
        layout.bottom.width < u16::MAX,
        layout.bottom.height > 0 ==> layout.bottom.width > 1,
        layout.sidebar.width > 0 ==> layout.sidebar.width > 1,
    ensures
        ({
            let sidebar = handle_cell(layout, LayoutHandle::Sidebar);
            let bottom = handle_cell(layout, LayoutHandle::Bottom);
            &&& layout.sidebar.width > 0 ==> sidebar.0 == layout.sidebar.x + 1 && sidebar.1
                == layout.sidebar.y
            &&& layout.sidebar.width == 0 ==> sidebar.0 == layout.editor.x && sidebar.1
                == layout.editor.y
            &&& layout.bottom.height > 0 ==> bottom.0 == layout.bottom.x + 1 && bottom.1
                == layout.bottom.y
            &&& layout.bottom.height == 0 ==> bottom.0 == layout.editor.x + layout.editor.width / 2
                && bottom.1 == layout.editor.y + layout.editor.height - 1
        }),
{
}

/// The outermost cells of a terminal are its border, unless a handle or a divider
/// is there.
pub proof fn outermost_cells_are_borders(
    area: Rect,
    config: WorkbenchLayoutConfig,
    visibility: WorkbenchVisibility,
    pane: PaneId,
    column: u16,
    row: u16,
)
    requires
        area.fits(),
        !WorkbenchLayout::solved(area, config, visibility).compact,
        area.has_cell(column as int, row as int),
        owner(WorkbenchLayout::solved(area, config, visibility), column, row)->0 !is Handle,
        owner(WorkbenchLayout::solved(area, config, visibility), column, row)->0 !is Divider,
        pane != PaneId::Sidebar,
    ensures
        ({
            let layout = WorkbenchLayout::solved(area, config, visibility);
            let place = match pane {
                PaneId::Sidebar => layout.sidebar,
                PaneId::Editor => layout.editor,
                PaneId::Agent => layout.agent,
                PaneId::Bottom => layout.bottom,
            };
            owner(layout, column, row) == Some(MouseTarget::Border(pane)) <==> place.has_cell(
                column as int,
                row as int,
            ) && (column == place.x || column == place.x + place.width - 1 || row == place.y || row
                == place.y + place.height - 1)
        }),
{
    panes_have_their_places(area, config, visibility);
    panes_are_disjoint(area, config, visibility);
    visible_terminals_have_room(area, config, visibility);
}

} // verus!
