//! Mouse gestures: dividers that are dragged, handles that are clicked, and
//! where in a pane the pointer is.

use vstd::prelude::*;

use crate::event::MouseEvent;
use crate::geometry::{max_u16, min_u16, sat_add, sat_sub, smaller, Rect};
use crate::time::Instant;
use crate::ui::terminal::{content_size, terminal_content_size};
use crate::workbench::hit_test::{LayoutDivider, LayoutHandle, MouseTarget};
use crate::workbench::layout::{
    WorkbenchLayout, WorkbenchLayoutConfig, MIN_TERMINAL_HEIGHT, MIN_TERMINAL_WIDTH,
};
use crate::workbench::pane::PaneId;

verus! {

/// The button went down over a pane and has not come up.
#[derive(Debug, Clone, Copy, PartialEq, Eq, Structural)]
pub struct PendingMouseGesture {
    pub target: MouseTarget,
    pub down: MouseEvent,
    pub current: MouseEvent,
    pub dragging: bool,
    pub next_edge_scroll: Instant,
}

/// The button went down over a part of the layout and has not come up.
#[derive(Debug, Clone, Copy, PartialEq, Eq, Structural)]
pub enum PendingLayoutGesture {
    Handle { handle: LayoutHandle, origin: MouseEvent, moved: bool },
    Drag {
        divider: LayoutDivider,
        origin: MouseEvent,
        layout: WorkbenchLayout,
        config: WorkbenchLayoutConfig,
    },
}

/// The handle that a release activates: the one that was pressed, if the
/// pointer never left it.
pub open spec fn activated(gesture: PendingLayoutGesture, release: Option<MouseTarget>) -> Option<
    LayoutHandle,
> {
    match gesture {
        PendingLayoutGesture::Handle { handle, moved, .. } => if !moved && release == Some(
            MouseTarget::Handle(handle),
        ) {
            Some(handle)
        } else {
            None
        },
        PendingLayoutGesture::Drag { .. } => None,
    }
}

/// The layout that a cancelled gesture goes back to.
pub open spec fn rolled_back(pending: Option<PendingLayoutGesture>) -> Option<
    WorkbenchLayoutConfig,
> {
    match pending {
        Some(PendingLayoutGesture::Drag { config, .. }) => Some(config),
        _ => None,
    }
}

/// `start + delta`, held in `min..=max`; `min` wins where the bounds cross.
pub open spec fn offset_in(start: u16, delta: int, min: u16, max: u16) -> u16 {
    if start + delta < min {
        min
    } else if start + delta > max_u16(max, min) {
        max_u16(max, min)
    } else {
        (start + delta) as u16
    }
}

/// The layout that a drag comes to, from where it began.
pub open spec fn dragged(
    divider: LayoutDivider,
    origin: MouseEvent,
    current: MouseEvent,
    layout: WorkbenchLayout,
    config: WorkbenchLayoutConfig,
) -> WorkbenchLayoutConfig {
    match divider {
        LayoutDivider::SidebarMain => WorkbenchLayoutConfig {
            sidebar_width: offset_in(
                config.sidebar_width,
                current.column - origin.column,
                MIN_TERMINAL_WIDTH,
                sat_sub(
                    sat_add(
                        sat_add(layout.sidebar.width, layout.editor.width),
                        layout.agent.width,
                    ),
                    8,
                ),
            ),
            ..config
        },
        LayoutDivider::EditorAgent => WorkbenchLayoutConfig {
            editor_width: Some(
                offset_in(
                    layout.editor.width,
                    current.column - origin.column,
                    MIN_TERMINAL_WIDTH,
                    sat_sub(
                        sat_add(layout.editor.width, layout.agent.width),
                        MIN_TERMINAL_WIDTH,
                    ),
                ),
            ),
            ..config
        },
        LayoutDivider::EditorBottom => WorkbenchLayoutConfig {
            bottom_height: offset_in(
                config.bottom_height,
                origin.row - current.row,
                MIN_TERMINAL_HEIGHT,
                sat_sub(
                    sat_add(layout.editor.height, layout.bottom.height),
                    MIN_TERMINAL_HEIGHT,
                ),
            ),
            ..config
        },
    }
}

/// The terminal of a pane.
pub open spec fn terminal_area(layout: WorkbenchLayout, pane: PaneId) -> Option<Rect> {
    match pane {
        PaneId::Editor => Some(layout.editor),
        PaneId::Agent => Some(layout.agent),
        PaneId::Bottom => Some(layout.bottom),
        PaneId::Sidebar => None,
    }
}

/// The row and column in a terminal that are nearest to the pointer.
pub open spec fn nearest_content(area: Rect, event: MouseEvent) -> (u16, u16) {
    (
        min_u16(
            sat_sub(event.row, sat_add(area.y, 1)),
            sat_sub(content_size(area).rows, 1),
        ),
        min_u16(
            sat_sub(event.column, sat_add(area.x, 1)),
            sat_sub(content_size(area).cols, 1),
        ),
    )
}

pub open spec fn content_position(layout: WorkbenchLayout, pane: PaneId, event: MouseEvent) -> Option<
    (u16, u16),
> {
    match terminal_area(layout, pane) {
        Some(area) => Some(nearest_content(area, event)),
        None => None,
    }
}

/// The direction in which a selection scrolls: up at the first row of the
/// content or above, down at the last row or below.
pub open spec fn edge_direction(layout: WorkbenchLayout, pane: PaneId, event: MouseEvent) -> int {
    match terminal_area(layout, pane) {
        Some(area) => if event.row <= sat_add(area.y, 1) {
            1
        } else if event.row >= sat_sub(area.spec_bottom(), 2) {
            -1
        } else {
            0
        },
        None => 0,
    }
}

pub open spec fn event_at(event: MouseEvent, row: u16, col: u16) -> MouseEvent {
    MouseEvent { row, column: col, ..event }
}

pub fn activated_layout_handle(
    gesture: PendingLayoutGesture,
    release_target: Option<MouseTarget>,
) -> (handle: Option<LayoutHandle>)
    ensures
        handle == activated(gesture, release_target),
{
    match gesture {
        PendingLayoutGesture::Handle { handle, moved, .. } => {
            if moved {
                return None;
            }
            match release_target {
                Some(MouseTarget::Handle(released)) => if released == handle {
                    Some(handle)
                } else {
                    None
                },
                _ => None,
            }
        },
        PendingLayoutGesture::Drag { .. } => None,
    }
}

/// Ends a gesture and tells the layout to go back to, if it changed any.
pub fn canceled_layout_config(pending: &mut Option<PendingLayoutGesture>) -> (config: Option<
    WorkbenchLayoutConfig,
>)
    ensures
        config == rolled_back(*old(pending)),
        *final(pending) is None,
{
    match pending.take() {
        Some(PendingLayoutGesture::Drag { config, .. }) => Some(config),
        _ => None,
    }
}

pub fn layout_drag_config(
    divider: LayoutDivider,
    origin: MouseEvent,
    current: MouseEvent,
    layout: WorkbenchLayout,
    config: WorkbenchLayoutConfig,
) -> (next: WorkbenchLayoutConfig)
    ensures
        next == dragged(divider, origin, current, layout, config),
{
    let dx: i32 = current.column as i32 - origin.column as i32;
    let dy: i32 = current.row as i32 - origin.row as i32;
    let mut next = config;
    match divider {
        LayoutDivider::SidebarMain => {
            let total: u16 = layout.sidebar.width.saturating_add(
                layout.editor.width,
            ).saturating_add(layout.agent.width);
            let max: u16 = total.saturating_sub(2 * MIN_TERMINAL_WIDTH);
            next.sidebar_width = offset_clamped(config.sidebar_width, dx, MIN_TERMINAL_WIDTH, max);
        },
        LayoutDivider::EditorAgent => {
            let main: u16 = layout.editor.width.saturating_add(layout.agent.width);
            let width: u16 = offset_clamped(
                layout.editor.width,
                dx,
                MIN_TERMINAL_WIDTH,
                main.saturating_sub(MIN_TERMINAL_WIDTH),
            );
            next.editor_width = Some(width);
        },
        LayoutDivider::EditorBottom => {
            let max: u16 = layout.editor.height.saturating_add(
                layout.bottom.height,
            ).saturating_sub(MIN_TERMINAL_HEIGHT);
            next.bottom_height = offset_clamped(config.bottom_height, -dy, MIN_TERMINAL_HEIGHT, max);
        },
    }
    next
}

fn offset_clamped(start: u16, delta: i32, min: u16, max: u16) -> (value: u16)
    requires
        -65_535 <= delta <= 65_535,
    ensures
        value == offset_in(start, delta as int, min, max),
{
    let sum: i32 = start as i32 + delta;
    let high: u16 = if max >= min {
        max
    } else {
        min
    };
    if sum < min as i32 {
        min
    } else if sum > high as i32 {
        high
    } else {
        sum as u16
    }
}

pub fn mouse_at(event: MouseEvent, row: u16, col: u16) -> (moved: MouseEvent)
    ensures
        moved == event_at(event, row, col),
{
    MouseEvent { row, column: col, ..event }
}

pub fn pane_area(layout: WorkbenchLayout, pane: PaneId) -> (area: Option<Rect>)
    ensures
        area == terminal_area(layout, pane),
{
    match pane {
        PaneId::Editor => Some(layout.editor),
        PaneId::Agent => Some(layout.agent),
        PaneId::Bottom => Some(layout.bottom),
        PaneId::Sidebar => None,
    }
}

pub fn pointer_content_position(layout: WorkbenchLayout, pane: PaneId, event: MouseEvent) -> (
    position: Option<(u16, u16)>)
    ensures
        position == content_position(layout, pane, event),
{
    match pane_area(layout, pane) {
        None => None,
        Some(area) => {
            let size = terminal_content_size(area);
            let row: u16 = smaller(
                event.row.saturating_sub(area.y.saturating_add(1)),
                size.rows.saturating_sub(1),
            );
            let col: u16 = smaller(
                event.column.saturating_sub(area.x.saturating_add(1)),
                size.cols.saturating_sub(1),
            );
            Some((row, col))
        },
    }
}

pub fn edge_scroll_direction(layout: WorkbenchLayout, pane: PaneId, event: MouseEvent) -> (
    direction: i32)
    ensures
        direction == edge_direction(layout, pane, event),
{
    match pane_area(layout, pane) {
        None => 0,
        Some(area) => {
            let content_top: u16 = area.y.saturating_add(1);
            let content_bottom: u16 = area.bottom().saturating_sub(2);
            if event.row <= content_top {
                1
            } else if event.row >= content_bottom {
                -1
            } else {
                0
            }
        },
    }
}

/// A drag is measured from where it began: where it has been in between does
/// not matter, and back at its start it changes nothing that was within bounds.
pub proof fn drags_are_measured_from_their_start(
    divider: LayoutDivider,
    origin: MouseEvent,
    layout: WorkbenchLayout,
    config: WorkbenchLayoutConfig,
)
    requires
        MIN_TERMINAL_WIDTH <= config.sidebar_width,
        config.sidebar_width + 8 <= layout.sidebar.width + layout.editor.width
            + layout.agent.width <= u16::MAX,
        MIN_TERMINAL_WIDTH <= layout.editor.width,
        MIN_TERMINAL_WIDTH <= layout.agent.width,
        MIN_TERMINAL_HEIGHT <= config.bottom_height,
        config.bottom_height + MIN_TERMINAL_HEIGHT <= layout.editor.height + layout.bottom.height
            <= u16::MAX,
    ensures
        dragged(divider, origin, origin, layout, config).sidebar_width == config.sidebar_width,
        dragged(divider, origin, origin, layout, config).bottom_height == config.bottom_height,
        divider != LayoutDivider::EditorAgent ==> dragged(divider, origin, origin, layout, config)
            == config,
        divider == LayoutDivider::EditorAgent ==> dragged(
            divider,
            origin,
            origin,
            layout,
            config,
        ).editor_width == Some(layout.editor.width),
{
}

/// However far the pointer goes, a drag leaves room for a terminal on both
/// sides of the divider.
pub proof fn drags_leave_room_for_terminals(
    divider: LayoutDivider,
    origin: MouseEvent,
    current: MouseEvent,
    layout: WorkbenchLayout,
    config: WorkbenchLayoutConfig,
)
    requires
        layout.editor.width >= MIN_TERMINAL_WIDTH,
        layout.agent.width >= MIN_TERMINAL_WIDTH,
        layout.editor.width + layout.agent.width <= u16::MAX,
    ensures
        divider == LayoutDivider::SidebarMain ==> dragged(
            divider,
            origin,
            current,
            layout,
            config,
        ).sidebar_width >= MIN_TERMINAL_WIDTH,
        divider == LayoutDivider::SidebarMain && 3 * MIN_TERMINAL_WIDTH <= layout.sidebar.width
            + layout.editor.width + layout.agent.width ==> dragged(
            divider,
            origin,
            current,
            layout,
            config,
        ).sidebar_width + 2 * MIN_TERMINAL_WIDTH <= layout.sidebar.width + layout.editor.width
            + layout.agent.width,
        divider == LayoutDivider::EditorBottom ==> dragged(
            divider,
            origin,
            current,
            layout,
            config,
        ).bottom_height >= MIN_TERMINAL_HEIGHT,
        divider == LayoutDivider::EditorBottom && 2 * MIN_TERMINAL_HEIGHT <= layout.editor.height
            + layout.bottom.height ==> dragged(
            divider,
            origin,
            current,
            layout,
            config,
        ).bottom_height + MIN_TERMINAL_HEIGHT <= layout.editor.height + layout.bottom.height,
        divider == LayoutDivider::EditorAgent ==> (dragged(
            divider,
            origin,
            current,
            layout,
            config,
        ).editor_width matches Some(width) && MIN_TERMINAL_WIDTH <= width && width
            + MIN_TERMINAL_WIDTH <= layout.editor.width + layout.agent.width),
{
}

/// The pointer is always told as a cell of the terminal.
pub proof fn pointers_stay_in_the_terminal(area: Rect, event: MouseEvent)
    ensures
        nearest_content(area, event).0 < content_size(area).rows,
        nearest_content(area, event).1 < content_size(area).cols,
{
}

/// A handle answers only a click: a press and a release on it, and no movement
/// in between.
pub proof fn handles_answer_clicks_only(
    gesture: PendingLayoutGesture,
    release: Option<MouseTarget>,
)
    ensures
        activated(gesture, release) matches Some(handle) ==> {
            &&& release == Some(MouseTarget::Handle(handle))
            &&& gesture matches PendingLayoutGesture::Handle { handle: pressed, moved, .. }
                && pressed == handle && !moved
        },
{
}

} // verus!
