//! Where keys, pastes and the mouse go: what programs are told of them, and what
//! the workbench keeps for itself.

use vstd::prelude::*;
use vstd::utf8::encode_utf8;

use crate::app::command::LaunchMode;
use crate::app::effect::{BackendFault, EffectView};
use crate::app::gesture::{
    content_position, dragged, nearest_content, PendingLayoutGesture, PendingMouseGesture,
};
use crate::app::machine::RuntimeView;
use crate::app::supervision::shutdowns_end_what_runs;
use crate::app::supervisor::SessionIdentity;
use crate::event::{KeyCode, KeyEvent, KeyModifiers, MouseButton, MouseEvent, MouseEventKind};
use crate::geometry::Rect;
use crate::terminal::emulator::{
    screen_bracketed_paste, screen_mouse_encoding, screen_mouse_mode, screen_scrollback,
    MouseProtocolEncoding, MouseProtocolMode,
};
use crate::terminal::paste::{is_control, plain_text_is_kept};
use crate::terminal::selection::{selected, TerminalRange};
use crate::terminal::session::SessionView;
use crate::text::decimal;
use crate::time::Instant;
use crate::workbench::hit_test::{
    content_coordinates_are_local, owner, LayoutDivider, LayoutHandle, MouseTarget,
};
use crate::workbench::layout::{
    panes_are_contained, visible_terminals_have_room, WorkbenchLayout, WorkbenchLayoutConfig,
    WorkbenchVisibility,
};
use crate::workbench::pane::PaneId;
use crate::workbench::selection::PaneSelection;

verus! {

/// The area of a pane.
pub open spec fn area_of(layout: WorkbenchLayout, pane: PaneId) -> Rect {
    match pane {
        PaneId::Sidebar => layout.sidebar,
        PaneId::Editor => layout.editor,
        PaneId::Agent => layout.agent,
        PaneId::Bottom => layout.bottom,
    }
}

/// Whether a workbench is divided as its configuration asks for.
#[verifier::opaque]
pub open spec fn divided(
    state: RuntimeView,
    viewport: Rect,
    config: WorkbenchLayoutConfig,
    visibility: WorkbenchVisibility,
) -> bool {
    &&& viewport.fits()
    &&& state.layout == Some(WorkbenchLayout::solved(viewport, config, visibility))
}

/// The workbench after a mouse event.
#[verifier::opaque]
pub open spec fn handled(state: RuntimeView, event: MouseEvent, now: Instant) -> RuntimeView {
    state.mouse_event(event, now)
}

/// What is under the pointer.
#[verifier::opaque]
pub open spec fn under(state: RuntimeView, event: MouseEvent) -> Option<MouseTarget> {
    match state.layout {
        Some(layout) => owner(layout, event.column, event.row),
        None => None,
    }
}

/// Whether the pointer is over the content of a pane.
pub open spec fn over(state: RuntimeView, event: MouseEvent, pane: PaneId) -> bool {
    under(state, event) matches Some(MouseTarget::Content { pane: found, .. }) && found == pane
}

/// The SGR report of a mouse event, from the numbers that it tells.
pub open spec fn sgr(code: int, column: int, row: int, release: bool) -> Seq<u8> {
    encode_utf8(
        "\x1b[<"@ + decimal(code as nat) + ";"@ + decimal(column as nat) + ";"@ + decimal(
            row as nat,
        ) + (if release {
            "m"@
        } else {
            "M"@
        }),
    )
}

/// What the modifier keys add to the code of a report.
pub open spec fn held(modifiers: KeyModifiers) -> int {
    (if modifiers.shift {
        4int
    } else {
        0
    }) + (if modifiers.alt {
        8int
    } else {
        0
    }) + (if modifiers.control {
        16int
    } else {
        0
    })
}

/// Whether a program reads presses and releases in SGR reports.
pub open spec fn reads_clicks(session: SessionView) -> bool {
    &&& screen_mouse_encoding(session.live()) == MouseProtocolEncoding::Sgr
    &&& screen_mouse_mode(session.live()) == MouseProtocolMode::PressRelease || screen_mouse_mode(
        session.live(),
    ) == MouseProtocolMode::ButtonMotion || screen_mouse_mode(session.live())
        == MouseProtocolMode::AnyMotion
}

/// `number`, held between `low` and `high`.
pub open spec fn between(low: int, number: int, high: int) -> int {
    if number < low {
        low
    } else if number > high {
        high
    } else {
        number
    }
}

pub open spec fn told(
    pane: PaneId,
    identity: SessionIdentity,
    bytes: Seq<u8>,
    fault: BackendFault,
) -> EffectView {
    EffectView::Write { pane, identity, bytes, fault }
}

/// The pointer is told by the cell of the content that is nearest to it, with
/// rows and columns counted from one.
proof fn nearest_cells(
    state: RuntimeView,
    viewport: Rect,
    config: WorkbenchLayoutConfig,
    visibility: WorkbenchVisibility,
    event: MouseEvent,
    pane: PaneId,
    other: MouseEvent,
)
    requires
        divided(state, viewport, config, visibility),
        over(state, event, pane),
    ensures
        state.layout is Some,
        ({
            let layout = state.layout->0;
            let area = area_of(layout, pane);
            &&& pane != PaneId::Sidebar
            &&& under(state, event) == Some(
                MouseTarget::Content {
                    pane,
                    row: (event.row - area.y - 1) as u16,
                    col: (event.column - area.x - 1) as u16,
                },
            )
            &&& area.x + 1 <= event.column < area.x + area.width - 1
            &&& area.y + 1 <= event.row < area.y + area.height - 1
            &&& area.x + area.width <= u16::MAX
            &&& area.y + area.height <= u16::MAX
            &&& content_position(layout, pane, other) == Some(nearest_content(area, other))
            &&& nearest_content(area, other).0 + 1 == between(
                1,
                other.row - area.y,
                area.height - 2,
            )
            &&& nearest_content(area, other).1 + 1 == between(
                1,
                other.column - area.x,
                area.width - 2,
            )
        }),
{
    reveal(under);
    reveal(divided);
    let layout = state.layout->0;
    let target = owner(layout, event.column, event.row)->0;
    let (row, col) = (target->Content_row, target->Content_col);
    content_coordinates_are_local(
        viewport,
        config,
        visibility,
        event.column,
        event.row,
        pane,
        row,
        col,
    );
    visible_terminals_have_room(viewport, config, visibility);
    panes_are_contained(viewport, config, visibility);
}

/// The button goes down over the content of a pane.
proof fn presses_begin_a_click(
    state: RuntimeView,
    pane: PaneId,
    row: u16,
    col: u16,
    event: MouseEvent,
    now: Instant,
)
    requires
        under(state, event) == Some(MouseTarget::Content { pane, row, col }),
        event.kind == MouseEventKind::Down(MouseButton::Left),
    ensures
        ({
            let after = handled(state, event, now);
            &&& after.layout == state.layout
            &&& after.layout is Some
            &&& after.outbox == state.outbox
            &&& after.mode == state.mode
            &&& after.gesture is None
            &&& after.mouse matches Some(pending) && pending.target == (MouseTarget::Content {
                pane,
                row,
                col,
            }) && pending.down == event && pending.current == event && !pending.dragging
            &&& after.workbench.selection is None
            &&& state.workbench.shows(pane) ==> after.workbench.focused == pane
            &&& after.sessions.current(pane) == state.sessions.current(pane)
            &&& after.sessions.ids == state.sessions.ids
            &&& state.sessions.slots.dom().contains(pane) && state.sessions.slots[pane].state
                !is Running ==> after.sessions.slots.dom().contains(pane)
                && after.sessions.slots[pane] == state.sessions.slots[pane]
        }),
{
    reveal(handled);
    reveal(under);
    let target = MouseTarget::Content { pane, row, col };
    assert(handled(state, event, now) == state.pressed(
        state.layout->0,
        Some(target),
        event,
        now,
    ));
    let idle = state.canceled();
    let plain = idle.unselected();
    assert(plain.sessions.current(pane) == state.sessions.current(pane));
}

/// The button comes up after a press on a pane and no drag.
proof fn releases_end_a_click(state: RuntimeView, event: MouseEvent, now: Instant)
    requires
        state.layout is Some,
        state.gesture is None,
        state.mouse matches Some(pending) && !pending.dragging,
        event.kind == MouseEventKind::Up(MouseButton::Left),
    ensures
        handled(state, event, now) == (RuntimeView { mouse: None, ..state }).clicked(
            state.mouse->0,
            event,
        ),
{
    reveal(handled);
    let target = owner(state.layout->0, event.column, event.row);
    assert(handled(state, event, now) == state.released(target, event));
}

/// An SGR report tells the place of an event.
proof fn reports_tell_the_place(state: RuntimeView, pane: PaneId, event: MouseEvent)
    requires
        state.sessions.session(pane) matches Some(session) && reads_clicks(session),
        event.kind == MouseEventKind::Down(MouseButton::Left) || event.kind
            == MouseEventKind::Up(MouseButton::Left),
        event.column < u16::MAX,
        event.row < u16::MAX,
    ensures
        state.sessions.current(pane) is Some,
        state.sessions.mouse_effect(pane, event) == Some(
            told(
                pane,
                state.sessions.current(pane)->0,
                sgr(
                    held(event.modifiers),
                    event.column + 1,
                    event.row + 1,
                    event.kind is Up,
                ),
                BackendFault::Mouse,
            ),
        ),
{
}

/// Both halves of a click are told.
proof fn clicks_are_told(
    state: RuntimeView,
    pending: PendingMouseGesture,
    pane: PaneId,
    row: u16,
    col: u16,
    up: MouseEvent,
)
    requires
        pending.target == (MouseTarget::Content { pane, row, col }),
        pending.down.kind == MouseEventKind::Down(MouseButton::Left),
        up.kind == MouseEventKind::Up(MouseButton::Left),
        state.layout matches Some(layout) && content_position(layout, pane, up) is Some,
        state.sessions.session(pane) matches Some(session) && reads_clicks(session),
        row < u16::MAX,
        col < u16::MAX,
        (content_position(state.layout->0, pane, up)->0).0 < u16::MAX,
        (content_position(state.layout->0, pane, up)->0).1 < u16::MAX,
    ensures
        ({
            let at = content_position(state.layout->0, pane, up)->0;
            let identity = state.sessions.current(pane)->0;
            &&& state.sessions.current(pane) is Some
            &&& state.clicked(pending, up) == (RuntimeView {
                outbox: state.outbox + seq![
                    told(
                        pane,
                        identity,
                        sgr(held(pending.down.modifiers), col + 1, row + 1, false),
                        BackendFault::Mouse,
                    ),
                    told(
                        pane,
                        identity,
                        sgr(held(up.modifiers), at.1 + 1, at.0 + 1, true),
                        BackendFault::Mouse,
                    ),
                ],
                ..state
            })
        }),
{
    let at = content_position(state.layout->0, pane, up)->0;
    reports_tell_the_place(state, pane, MouseEvent { row, column: col, ..pending.down });
    reports_tell_the_place(state, pane, MouseEvent { row: at.0, column: at.1, ..up });
    let identity = state.sessions.current(pane)->0;
    let first = told(
        pane,
        identity,
        sgr(held(pending.down.modifiers), col + 1, row + 1, false),
        BackendFault::Mouse,
    );
    let second = told(
        pane,
        identity,
        sgr(held(up.modifiers), at.1 + 1, at.0 + 1, true),
        BackendFault::Mouse,
    );
    assert(state.outbox + seq![first] + seq![second] =~= state.outbox + seq![first, second]);
}

/// A click is told to the program under it as a press on the cell that was
/// pressed and a release on the cell where the button came up, or the nearest
/// one in the pane. Nothing else is asked for.
pub proof fn clicks_are_told_where_they_happen(
    state: RuntimeView,
    viewport: Rect,
    config: WorkbenchLayoutConfig,
    visibility: WorkbenchVisibility,
    pane: PaneId,
    down: MouseEvent,
    up: MouseEvent,
    now: Instant,
    later: Instant,
)
    requires
        divided(state, viewport, config, visibility),
        over(state, down, pane),
        down.kind == MouseEventKind::Down(MouseButton::Left),
        up.kind == MouseEventKind::Up(MouseButton::Left),
        handled(state, down, now).sessions.session(pane) matches Some(session) && reads_clicks(
            session,
        ),
    ensures
        ({
            let area = area_of(state.layout->0, pane);
            let identity = state.sessions.current(pane)->0;
            let after = handled(handled(state, down, now), up, later);
            &&& state.sessions.current(pane) is Some
            &&& after.outbox == state.outbox + seq![
                told(
                    pane,
                    identity,
                    sgr(
                        held(down.modifiers),
                        down.column - area.x,
                        down.row - area.y,
                        false,
                    ),
                    BackendFault::Mouse,
                ),
                told(
                    pane,
                    identity,
                    sgr(
                        held(up.modifiers),
                        between(1, up.column - area.x, area.width - 2),
                        between(1, up.row - area.y, area.height - 2),
                        true,
                    ),
                    BackendFault::Mouse,
                ),
            ]
            &&& after.mouse is None
            &&& after.workbench.selection is None
        }),
{
    nearest_cells(state, viewport, config, visibility, down, pane, up);
    let area = area_of(state.layout->0, pane);
    let row = (down.row - area.y - 1) as u16;
    let col = (down.column - area.x - 1) as u16;
    presses_begin_a_click(state, pane, row, col, down, now);
    let pressed = handled(state, down, now);
    releases_end_a_click(pressed, up, later);
    let done = RuntimeView { mouse: None, ..pressed };
    assert(done.sessions.session(pane) == pressed.sessions.session(pane));
    clicks_are_told(done, pressed.mouse->0, pane, row, col, up);
}

/// A click on a pane whose backend does not run asks for a start of that backend
/// and nothing else.
pub proof fn clicks_start_what_does_not_run(
    state: RuntimeView,
    pane: PaneId,
    down: MouseEvent,
    up: MouseEvent,
    now: Instant,
    later: Instant,
)
    requires
        over(state, down, pane),
        down.kind == MouseEventKind::Down(MouseButton::Left),
        up.kind == MouseEventKind::Up(MouseButton::Left),
        !state.sessions.ids.shutting_down,
        state.sessions.can_start(pane),
        state.sessions.slots.dom().contains(pane),
        state.sessions.slots[pane].state !is Running,
    ensures
        ({
            let after = handled(handled(state, down, now), up, later);
            let slot = state.sessions.slots[pane];
            &&& after.outbox.len() == state.outbox.len() + 1
            &&& after.outbox.drop_last() == state.outbox
            &&& after.outbox.last() matches EffectView::Spawn {
                pane: started,
                identity,
                process,
                size,
            } && started == pane && process == slot.process && size == slot.size
                && identity.generation == slot.generation + 1
            &&& after.sessions.slots[pane].state is Starting
            &&& after.sessions.slots[pane].policy.consecutive == 0
        }),
{
    let target = under(state, down)->0;
    let (row, col) = (target->Content_row, target->Content_col);
    presses_begin_a_click(state, pane, row, col, down, now);
    let pressed = handled(state, down, now);
    releases_end_a_click(pressed, up, later);
    stopped_backends_are_started(
        RuntimeView { mouse: None, ..pressed },
        pressed.mouse->0,
        pane,
        row,
        col,
        up,
    );
}

proof fn stopped_backends_are_started(
    state: RuntimeView,
    pending: PendingMouseGesture,
    pane: PaneId,
    row: u16,
    col: u16,
    up: MouseEvent,
)
    requires
        pending.target == (MouseTarget::Content { pane, row, col }),
        !state.sessions.ids.shutting_down,
        state.sessions.can_start(pane),
        state.sessions.slots.dom().contains(pane),
        state.sessions.slots[pane].state !is Running,
    ensures
        ({
            let after = state.clicked(pending, up);
            let slot = state.sessions.slots[pane];
            &&& after.outbox.len() == state.outbox.len() + 1
            &&& after.outbox.drop_last() == state.outbox
            &&& after.outbox.last() matches EffectView::Spawn {
                pane: started,
                identity,
                process,
                size,
            } && started == pane && process == slot.process && size == slot.size
                && identity.generation == slot.generation + 1
            &&& after.sessions.slots[pane].state is Starting
            &&& after.sessions.slots[pane].policy.consecutive == 0
        }),
{
    let after = state.clicked(pending, up);
    assert(after == state.retried(pane));
    assert(after.outbox.drop_last() =~= state.outbox);
}

/// A turn of the wheel over a program that reads the mouse is told by the cell
/// under the pointer: code 64 upwards, 65 downwards, 66 to the left and 67 to
/// the right.
pub proof fn wheels_are_told_to_programs(
    state: RuntimeView,
    viewport: Rect,
    config: WorkbenchLayoutConfig,
    visibility: WorkbenchVisibility,
    pane: PaneId,
    event: MouseEvent,
    now: Instant,
)
    requires
        divided(state, viewport, config, visibility),
        over(state, event, pane),
        event.kind is ScrollUp || event.kind is ScrollDown || event.kind is ScrollLeft
            || event.kind is ScrollRight,
        state.sessions.session(pane) matches Some(session) && screen_mouse_mode(session.live())
            != MouseProtocolMode::Off && screen_mouse_encoding(session.live())
            == MouseProtocolEncoding::Sgr,
        state.workbench.selection matches Some(selection) ==> selection.pane != pane,
    ensures
        ({
            let area = area_of(state.layout->0, pane);
            let code = if event.kind is ScrollUp {
                64int
            } else if event.kind is ScrollDown {
                65
            } else if event.kind is ScrollLeft {
                66
            } else {
                67
            };
            handled(state, event, now) == (RuntimeView {
                outbox: state.outbox.push(
                    told(
                        pane,
                        state.sessions.current(pane)->0,
                        sgr(
                            code + held(event.modifiers),
                            event.column - area.x,
                            event.row - area.y,
                            false,
                        ),
                        BackendFault::Mouse,
                    ),
                ),
                ..state
            })
        }),
{
    nearest_cells(state, viewport, config, visibility, event, pane, event);
    wheels_turn(state, event, now);
    let after = handled(state, event, now);
    let added = after.outbox.last();
    assert(after.outbox =~= state.outbox.push(added));
}

/// A turn of the wheel over a program that does not read the mouse, or over a
/// selection, moves the view by three rows: up into the history, or down.
pub proof fn wheels_scroll_three_rows(
    state: RuntimeView,
    pane: PaneId,
    event: MouseEvent,
    now: Instant,
    other: PaneId,
)
    requires
        over(state, event, pane),
        event.kind is ScrollUp || event.kind is ScrollDown,
        state.sessions.session(pane) matches Some(session) && (screen_mouse_mode(session.live())
            == MouseProtocolMode::Off || (state.workbench.selection matches Some(selection)
            && selection.pane == pane)),
        other != pane,
    ensures
        ({
            let after = handled(state, event, now);
            let lines = if event.kind is ScrollUp {
                3int
            } else {
                -3
            };
            &&& after.sessions.session(pane) == Some(
                state.sessions.session(pane)->0.scrolled_by(lines),
            )
            &&& after.sessions.current(pane) == state.sessions.current(pane)
            &&& after.sessions.session(other) == state.sessions.session(other)
            &&& after.outbox == state.outbox
            &&& after.workbench == state.workbench
        }),
{
    wheels_turn(state, event, now);
    let session = state.sessions.session(pane)->0;
    let lines = if event.kind is ScrollUp {
        3int
    } else {
        -3
    };
    let scrolled = state.sessions.scrolled(pane, lines);
    assert(scrolled.session(pane) == Some(session.scrolled_by(lines)));
}

proof fn pointers_move(state: RuntimeView, event: MouseEvent, now: Instant)
    requires
        event.kind == MouseEventKind::Moved,
    ensures
        handled(state, event, now) == state.pointed(under(state, event), event),
{
    reveal(handled);
    reveal(under);
}

proof fn wheels_turn(state: RuntimeView, event: MouseEvent, now: Instant)
    requires
        event.kind is ScrollUp || event.kind is ScrollDown || event.kind is ScrollLeft
            || event.kind is ScrollRight,
    ensures
        handled(state, event, now) == state.wheeled(under(state, event), event),
{
    reveal(handled);
    reveal(under);
}

/// The pointer that moves with no button down is told to a program that reads
/// all motion, with code 35, and to no other.
pub proof fn motion_is_told_where_it_is(
    state: RuntimeView,
    viewport: Rect,
    config: WorkbenchLayoutConfig,
    visibility: WorkbenchVisibility,
    pane: PaneId,
    event: MouseEvent,
    now: Instant,
)
    requires
        divided(state, viewport, config, visibility),
        over(state, event, pane),
        event.kind == MouseEventKind::Moved,
        state.sessions.session(pane) is Some,
        screen_mouse_encoding(state.sessions.session(pane)->0.live()) == MouseProtocolEncoding::Sgr,
    ensures
        ({
            let area = area_of(state.layout->0, pane);
            let mode = screen_mouse_mode(state.sessions.session(pane)->0.live());
            let after = handled(state, event, now);
            if mode == MouseProtocolMode::AnyMotion {
                after.outbox == state.outbox.push(
                    told(
                        pane,
                        state.sessions.current(pane)->0,
                        sgr(
                            35 + held(event.modifiers),
                            event.column - area.x,
                            event.row - area.y,
                            false,
                        ),
                        BackendFault::Mouse,
                    ),
                )
            } else {
                after.outbox == state.outbox
            }
        }),
{
    nearest_cells(state, viewport, config, visibility, event, pane, event);
    pointers_move(state, event, now);
    let after = handled(state, event, now);
    if after.outbox.len() > state.outbox.len() {
        assert(after.outbox =~= state.outbox.push(after.outbox.last()));
    } else {
        assert(after.outbox =~= state.outbox);
    }
}

/// A drag over a pane selects from the cell that was pressed to the cell that is
/// nearest to the pointer, on a view that stays as it was; no program is told.
/// The selection stays when the button comes up.
pub proof fn drags_select_what_they_span(
    state: RuntimeView,
    viewport: Rect,
    config: WorkbenchLayoutConfig,
    visibility: WorkbenchVisibility,
    pane: PaneId,
    down: MouseEvent,
    drag: MouseEvent,
    up: MouseEvent,
    now: Instant,
)
    requires
        divided(state, viewport, config, visibility),
        over(state, down, pane),
        state.workbench.shows(pane),
        down.kind == MouseEventKind::Down(MouseButton::Left),
        drag.kind == MouseEventKind::Drag(MouseButton::Left),
        up.kind == MouseEventKind::Up(MouseButton::Left),
        handled(state, down, now).sessions.session(pane) is Some,
    ensures
        ({
            let area = area_of(state.layout->0, pane);
            let pressed = handled(state, down, now);
            let moved = handled(pressed, drag, now);
            let done = handled(moved, up, now);
            let view = pressed.sessions.session(pane)->0.frozen_view();
            let first = view.point_at(
                (down.row - area.y - 1) as u16,
                (down.column - area.x - 1) as u16,
            );
            let at = |event: MouseEvent|
                view.point_at(
                    (between(1, event.row - area.y, area.height - 2) - 1) as u16,
                    (between(1, event.column - area.x, area.width - 2) - 1) as u16,
                );
            &&& moved.workbench.selection matches Some(selection) && selection.pane == pane
                && selection.anchor == first && selection.head == at(drag)
            &&& done.workbench.selection matches Some(selection) && selection.pane == pane
                && selection.anchor == first && selection.head == at(up)
            &&& moved.sessions.session(pane) == Some(view)
            &&& done.sessions.session(pane) == Some(view)
            &&& moved.outbox == state.outbox
            &&& done.outbox == state.outbox
            &&& done.mouse is None
            &&& done.workbench.focused == pane
        }),
{
    nearest_cells(state, viewport, config, visibility, down, pane, drag);
    nearest_cells(state, viewport, config, visibility, down, pane, up);
    let area = area_of(state.layout->0, pane);
    let row = (down.row - area.y - 1) as u16;
    let col = (down.column - area.x - 1) as u16;
    presses_begin_a_click(state, pane, row, col, down, now);
    let pressed = handled(state, down, now);
    drags_begin_a_selection(pressed, pane, row, col, drag, now);
    releases_end_a_selection(handled(pressed, drag, now), pane, up, now);
}

/// The pointer moves after a press on a pane whose backend runs.
proof fn drags_begin_a_selection(
    state: RuntimeView,
    pane: PaneId,
    row: u16,
    col: u16,
    event: MouseEvent,
    now: Instant,
)
    requires
        state.layout matches Some(layout) && content_position(layout, pane, event) is Some,
        state.gesture is None,
        state.workbench.focused == pane,
        state.mouse matches Some(pending) && pending.target == (MouseTarget::Content {
            pane,
            row,
            col,
        }) && !pending.dragging,
        state.sessions.session(pane) is Some,
        event.kind == MouseEventKind::Drag(MouseButton::Left),
    ensures
        ({
            let after = handled(state, event, now);
            let view = state.sessions.session(pane)->0.frozen_view();
            let at = content_position(state.layout->0, pane, event)->0;
            &&& after.layout == state.layout
            &&& after.outbox == state.outbox
            &&& after.gesture is None
            &&& after.mouse matches Some(pending) && pending.dragging
            &&& after.sessions.session(pane) == Some(view)
            &&& after.workbench.focused == pane
            &&& after.workbench.selection == Some(
                PaneSelection {
                    pane,
                    anchor: view.point_at(row, col),
                    head: view.point_at(at.0, at.1),
                },
            )
        }),
{
    reveal(handled);
    assert(handled(state, event, now) == state.dragged_to(event));
    let view = state.sessions.session(pane)->0.frozen_view();
    let begun = state.selecting(state.mouse->0.target);
    assert(begun.sessions.session(pane) == Some(view));
}

/// The button comes up after a drag over a pane.
proof fn releases_end_a_selection(
    state: RuntimeView,
    pane: PaneId,
    event: MouseEvent,
    now: Instant,
)
    requires
        state.layout matches Some(layout) && content_position(layout, pane, event) is Some,
        state.gesture is None,
        state.mouse matches Some(pending) && pending.dragging,
        state.sessions.session(pane) is Some,
        state.workbench.selection matches Some(selection) && selection.pane == pane,
        event.kind == MouseEventKind::Up(MouseButton::Left),
    ensures
        ({
            let after = handled(state, event, now);
            let at = content_position(state.layout->0, pane, event)->0;
            &&& after.outbox == state.outbox
            &&& after.mouse is None
            &&& after.sessions == state.sessions
            &&& after.workbench.focused == state.workbench.focused
            &&& after.workbench.selection == Some(
                PaneSelection {
                    head: state.sessions.session(pane)->0.point_at(at.0, at.1),
                    ..state.workbench.selection->0
                },
            )
        }),
{
    reveal(handled);
    let target = owner(state.layout->0, event.column, event.row);
    assert(handled(state, event, now) == state.released(target, event));
}

/// What is copied is what the selection of its pane holds on the view that it
/// was made on. Control and command do the same while there is a selection.
pub proof fn copies_take_what_is_selected(state: RuntimeView, key: KeyEvent, pane: PaneId)
    requires
        key.code == KeyCode::Char('c'),
        key.modifiers.command || key.modifiers.control,
        state.workbench.selection matches Some(selection) && selection.pane == pane,
        state.sessions.session(pane) is Some,
    ensures
        ({
            let selection = state.workbench.selection->0;
            let after = state.key_pressed(key);
            &&& after.outbox == state.outbox.push(
                EffectView::CopyText(
                    selected(
                        state.sessions.session(pane)->0.shown(),
                        TerminalRange::between(selection.anchor, selection.head),
                    ),
                ),
            )
            &&& after.workbench == state.workbench
            &&& after.sessions == state.sessions
        }),
{
    let after = state.key_pressed(key);
    assert(after.outbox =~= state.outbox.push(after.outbox.last()));
}

/// Whether a key is one of the workbench's own.
pub open spec fn own_key(state: RuntimeView, key: KeyEvent) -> bool {
    ||| key.code == KeyCode::Char('q') && key.modifiers.control
    ||| key.code == KeyCode::Char('c') && key.modifiers.command
    ||| key.code == KeyCode::Char('c') && key.modifiers.control && state.workbench.selection is Some
    ||| key.code == KeyCode::Char('v') && key.modifiers.command
}

/// The bytes that a key stands for: the character itself, a control code for a
/// letter with the control key, or the sequence of a special key.
pub open spec fn typed(key: KeyEvent) -> Option<Seq<u8>> {
    match key.code {
        KeyCode::Char(character) => if !key.modifiers.control {
            Some(encode_utf8(seq![character]))
        } else if 'a' <= character <= 'z' {
            Some(seq![(character as int - 96) as u8])
        } else if 'A' <= character <= 'Z' {
            Some(seq![(character as int - 64) as u8])
        } else {
            None
        },
        KeyCode::Enter => Some(seq!['\r' as u8]),
        KeyCode::Backspace => Some(seq![127u8]),
        KeyCode::Tab => Some(seq!['\t' as u8]),
        KeyCode::Esc => Some(seq![27u8]),
        KeyCode::Up => Some(seq![27u8, '[' as u8, 'A' as u8]),
        KeyCode::Down => Some(seq![27u8, '[' as u8, 'B' as u8]),
        KeyCode::Right => Some(seq![27u8, '[' as u8, 'C' as u8]),
        KeyCode::Left => Some(seq![27u8, '[' as u8, 'D' as u8]),
        KeyCode::Home => Some(seq![27u8, '[' as u8, 'H' as u8]),
        KeyCode::End => Some(seq![27u8, '[' as u8, 'F' as u8]),
        KeyCode::Delete => Some(seq![27u8, '[' as u8, '3' as u8, '~' as u8]),
        KeyCode::Null => None,
        KeyCode::Other => None,
    }
}

/// A key is told to the program of the focused pane, byte for byte as it was
/// typed, and to no other; it ends a selection. One that stands for no bytes is
/// told to none.
pub proof fn keys_are_told_as_typed(state: RuntimeView, key: KeyEvent, identity: SessionIdentity)
    requires
        !own_key(state, key),
        state.mode == LaunchMode::Workbench,
        state.sessions.current(state.workbench.focused) == Some(identity),
    ensures
        ({
            let after = state.key_pressed(key);
            &&& after.outbox == match typed(key) {
                Some(bytes) => state.outbox.push(
                    told(state.workbench.focused, identity, bytes, BackendFault::Input),
                ),
                None => state.outbox,
            }
            &&& after.workbench.selection is None
            &&& after.workbench.focused == state.workbench.focused
        }),
{
    let after = state.key_pressed(key);
    let plain = RuntimeView { mouse: None, ..state }.canceled().unselected();
    assert(plain.sessions.current(state.workbench.focused) == Some(identity));
    match typed(key) {
        Some(bytes) => {
            assert(after.outbox =~= state.outbox.push(
                told(state.workbench.focused, identity, bytes, BackendFault::Input),
            ));
        },
        None => {
            assert(after.outbox =~= state.outbox);
        },
    }
}

/// A single program gets every key that is not the workbench's own, whatever
/// pane would be focused.
pub proof fn single_programs_get_every_key(
    state: RuntimeView,
    key: KeyEvent,
    identity: SessionIdentity,
)
    requires
        !own_key(state, key),
        state.mode != LaunchMode::Workbench,
        state.sessions.current(PaneId::Editor) == Some(identity),
    ensures
        state.key_pressed(key).outbox == match typed(key) {
            Some(bytes) => state.outbox.push(
                told(PaneId::Editor, identity, bytes, BackendFault::Input),
            ),
            None => state.outbox,
        },
{
    let after = state.key_pressed(key);
    let plain = RuntimeView { mouse: None, ..state }.canceled().unselected();
    assert(plain.sessions.current(PaneId::Editor) == Some(identity));
    match typed(key) {
        Some(bytes) => {
            assert(after.outbox =~= state.outbox.push(
                told(PaneId::Editor, identity, bytes, BackendFault::Input),
            ));
        },
        None => {
            assert(after.outbox =~= state.outbox);
        },
    }
}

/// Only control and `q` together quit: every session that runs is ended. No
/// other key ends a session.
pub proof fn only_one_key_quits(
    state: RuntimeView,
    key: KeyEvent,
    pane: PaneId,
    identity: SessionIdentity,
)
    requires
        !state.sessions.ids.shutting_down,
        state.sessions.current(pane) == Some(identity),
    ensures
        ({
            let after = state.key_pressed(key);
            let quit = key.code == KeyCode::Char('q') && key.modifiers.control;
            &&& after.sessions.ids.shutting_down <==> quit
            &&& quit ==> after.sessions.current(pane) is None && after.outbox.contains(
                EffectView::Terminate { pane, identity },
            )
            &&& !quit ==> after.sessions.current(pane) == Some(identity)
        }),
{
    let idle = RuntimeView { mouse: None, ..state }.canceled();
    if key.code == KeyCode::Char('q') && key.modifiers.control {
        let after = state.key_pressed(key);
        let effects = idle.sessions.shut_effects();
        shutdowns_end_what_runs(idle.sessions, pane, identity);
        let effect = EffectView::Terminate { pane, identity };
        assert(effects.contains(effect));
        let i = choose|i: int| 0 <= i < effects.len() && effects[i] == effect;
        assert(after.outbox == idle.outbox + effects);
        assert(after.outbox[idle.outbox.len() + i] == effect);
    } else {
        let plain = idle.unselected();
        assert(plain.sessions.current(pane) == Some(identity));
        let focus = plain.input_pane();
        assert(plain.sessions.retried(focus).current(pane) == Some(identity));
    }
}

/// Text that is pasted is written to the program of the focused pane, in the
/// frame that it asked for.
pub proof fn pastes_are_framed_if_asked(
    state: RuntimeView,
    text: Seq<char>,
    identity: SessionIdentity,
)
    requires
        state.mode == LaunchMode::Workbench,
        state.workbench.selection is None,
        state.sessions.current(state.workbench.focused) == Some(identity),
        forall|i: int|
            0 <= i < text.len() ==> !is_control(#[trigger] text[i]),
    ensures
        ({
            let pane = state.workbench.focused;
            let session = state.sessions.session(pane)->0;
            let start = seq![27u8, '[' as u8, '2' as u8, '0' as u8, '0' as u8, '~' as u8];
            let end = seq![27u8, '[' as u8, '2' as u8, '0' as u8, '1' as u8, '~' as u8];
            let bytes = if screen_bracketed_paste(session.live()) {
                start + encode_utf8(text) + end
            } else {
                encode_utf8(text)
            };
            state.paste_arrived(text).outbox == state.outbox.push(
                told(pane, identity, bytes, BackendFault::Paste),
            )
        }),
{
    plain_text_is_kept(text);
    let after = state.paste_arrived(text);
    assert(after.outbox =~= state.outbox.push(after.outbox.last()));
}

/// Buttons other than the left one do nothing.
pub proof fn other_buttons_do_nothing(state: RuntimeView, event: MouseEvent, now: Instant)
    requires
        event.kind matches MouseEventKind::Down(button) ==> button != MouseButton::Left,
        event.kind matches MouseEventKind::Up(button) ==> button != MouseButton::Left,
        event.kind matches MouseEventKind::Drag(button) ==> button != MouseButton::Left,
        event.kind is Down || event.kind is Up || event.kind is Drag,
    ensures
        handled(state, event, now) == state,
{
    reveal(handled);
    reveal(under);
}

/// The wheel and the pointer do nothing outside the content of panes.
pub proof fn wheels_need_content(state: RuntimeView, event: MouseEvent, now: Instant)
    requires
        event.kind is ScrollUp || event.kind is ScrollDown || event.kind is ScrollLeft
            || event.kind is ScrollRight || event.kind is Moved,
        !(under(state, event) matches Some(MouseTarget::Content { .. })),
    ensures
        handled(state, event, now) == state,
{
    reveal(handled);
    reveal(under);
}

/// A click on a border or over the sidebar reaches no program.
pub proof fn borders_swallow_clicks(
    state: RuntimeView,
    down: MouseEvent,
    up: MouseEvent,
    now: Instant,
)
    requires
        down.kind == MouseEventKind::Down(MouseButton::Left),
        up.kind == MouseEventKind::Up(MouseButton::Left),
        under(state, down) == Some(MouseTarget::Sidebar) || (under(state, down) matches Some(
            MouseTarget::Border(_),
        )),
    ensures
        handled(handled(state, down, now), up, now).outbox == state.outbox,
{
    let found = under(state, down)->0;
    let pressed = handled(state, down, now);
    presses_begin_elsewhere(state, found, down, now);
    releases_end_a_click(pressed, up, now);
}

proof fn presses_begin_elsewhere(
    state: RuntimeView,
    target: MouseTarget,
    event: MouseEvent,
    now: Instant,
)
    requires
        under(state, event) == Some(target),
        target == MouseTarget::Sidebar || target is Border,
        event.kind == MouseEventKind::Down(MouseButton::Left),
    ensures
        ({
            let after = handled(state, event, now);
            &&& after.layout == state.layout
            &&& after.layout is Some
            &&& after.outbox == state.outbox
            &&& after.gesture is None
            &&& after.mouse matches Some(pending) && pending.target == target && !pending.dragging
        }),
{
    reveal(handled);
    reveal(under);
}

/// A press over a pane that is shown gives it the focus, wherever in the pane it
/// is, and ends the selection. A press on a divider or a handle does neither.
pub proof fn presses_focus_their_pane(
    state: RuntimeView,
    pane: PaneId,
    event: MouseEvent,
    now: Instant,
)
    requires
        state.layout is Some,
        event.kind == MouseEventKind::Down(MouseButton::Left),
        state.workbench.shows(pane),
    ensures
        ({
            let found = under(state, event);
            let after = handled(state, event, now);
            &&& over(state, event, pane) || found == Some(MouseTarget::Border(pane)) || (pane
                == PaneId::Sidebar && found == Some(MouseTarget::Sidebar)) ==> {
                &&& after.workbench.focused == pane
                &&& after.workbench.selection is None
            }
            &&& (found matches Some(MouseTarget::Divider(_))) || (found matches Some(
                MouseTarget::Handle(_),
            )) ==> after.workbench == state.workbench
        }),
{
    reveal(handled);
    reveal(under);
}

/// A click on a handle collapses its pane or restores it, and the other one
/// stays as it is. The layout is kept as it then is.
pub proof fn handles_toggle_their_pane(
    state: RuntimeView,
    handle: LayoutHandle,
    down: MouseEvent,
    up: MouseEvent,
    now: Instant,
)
    requires
        state.mode == LaunchMode::Workbench,
        under(state, down) == Some(MouseTarget::Handle(handle)),
        under(state, up) == Some(MouseTarget::Handle(handle)),
        down.kind == MouseEventKind::Down(MouseButton::Left),
        up.kind == MouseEventKind::Up(MouseButton::Left),
        state.gesture is None,
    ensures
        ({
            let after = handled(handled(state, down, now), up, now);
            &&& after.workbench.sidebar.manual == if handle == LayoutHandle::Sidebar {
                !state.workbench.sidebar.manual
            } else {
                state.workbench.sidebar.manual
            }
            &&& after.workbench.bottom.manual == if handle == LayoutHandle::Bottom {
                !state.workbench.bottom.manual
            } else {
                state.workbench.bottom.manual
            }
            &&& after.config == state.config
            &&& after.layout == Some(
                WorkbenchLayout::solved(
                    state.viewport,
                    state.config,
                    after.workbench.visibility(),
                ),
            )
            &&& after.gesture is None
            &&& state.keeps_layout ==> after.outbox.len() > 0 && (
            after.outbox.last() matches EffectView::SaveLayout(intent) && intent.config
                == state.config && intent.sidebar_collapsed == after.workbench.sidebar.manual
                && intent.bottom_collapsed == after.workbench.bottom.manual)
        }),
{
    presses_take_a_handle(state, handle, down, now);
    let pressed = handled(state, down, now);
    releases_end_a_gesture(pressed, up, now);
    assert(under(pressed, up) == under(state, up)) by {
        reveal(under);
    }
    let idle = RuntimeView { gesture: None, ..pressed };
    handles_are_activated(idle, handle, down);
}

proof fn presses_take_a_handle(
    state: RuntimeView,
    handle: LayoutHandle,
    event: MouseEvent,
    now: Instant,
)
    requires
        under(state, event) == Some(MouseTarget::Handle(handle)),
        event.kind == MouseEventKind::Down(MouseButton::Left),
        state.gesture is None,
    ensures
        handled(state, event, now) == (RuntimeView {
            mouse: None,
            gesture: Some(
                PendingLayoutGesture::Handle { handle, origin: event, moved: false },
            ),
            ..state
        }),
        state.layout is Some,
{
    reveal(handled);
    reveal(under);
}

proof fn presses_take_a_divider(
    state: RuntimeView,
    divider: LayoutDivider,
    event: MouseEvent,
    now: Instant,
)
    requires
        under(state, event) == Some(MouseTarget::Divider(divider)),
        event.kind == MouseEventKind::Down(MouseButton::Left),
        state.gesture is None,
    ensures
        state.layout is Some,
        handled(state, event, now) == (RuntimeView {
            mouse: None,
            gesture: Some(
                PendingLayoutGesture::Drag {
                    divider,
                    origin: event,
                    layout: state.layout->0,
                    config: state.config,
                },
            ),
            ..state
        }),
{
    reveal(handled);
    reveal(under);
}

proof fn releases_end_a_gesture(state: RuntimeView, event: MouseEvent, now: Instant)
    requires
        state.layout is Some,
        state.gesture is Some,
        event.kind == MouseEventKind::Up(MouseButton::Left),
    ensures
        handled(state, event, now) == (RuntimeView { gesture: None, ..state }).gesture_done(
            state.gesture->0,
            under(state, event),
        ),
{
    reveal(handled);
    reveal(under);
}

proof fn handles_are_activated(state: RuntimeView, handle: LayoutHandle, down: MouseEvent)
    requires
        state.mode == LaunchMode::Workbench,
        state.gesture is None,
    ensures
        ({
            let gesture = PendingLayoutGesture::Handle { handle, origin: down, moved: false };
            let after = state.gesture_done(gesture, Some(MouseTarget::Handle(handle)));
            &&& after.workbench.sidebar.manual == if handle == LayoutHandle::Sidebar {
                !state.workbench.sidebar.manual
            } else {
                state.workbench.sidebar.manual
            }
            &&& after.workbench.bottom.manual == if handle == LayoutHandle::Bottom {
                !state.workbench.bottom.manual
            } else {
                state.workbench.bottom.manual
            }
            &&& after.config == state.config
            &&& after.layout == Some(
                WorkbenchLayout::solved(
                    state.viewport,
                    state.config,
                    after.workbench.visibility(),
                ),
            )
            &&& after.gesture is None
            &&& state.keeps_layout ==> after.outbox.len() > 0 && (
            after.outbox.last() matches EffectView::SaveLayout(intent) && intent.config
                == state.config && intent.sidebar_collapsed == after.workbench.sidebar.manual
                && intent.bottom_collapsed == after.workbench.bottom.manual)
        }),
{
    let toggled = RuntimeView {
        workbench: match handle {
            LayoutHandle::Sidebar => state.workbench.sidebar_toggled(),
            LayoutHandle::Bottom => state.workbench.bottom_toggled(),
        },
        ..state
    };
    layouts_follow_the_configuration(toggled);
    let gesture = PendingLayoutGesture::Handle { handle, origin: down, moved: false };
    assert(state.gesture_done(gesture, Some(MouseTarget::Handle(handle))) == toggled.laid_out(
        state.viewport,
        false,
    ).layout_kept());
}

/// Dividing the same viewport again follows the configuration and changes
/// neither it nor what the user asked for.
proof fn layouts_follow_the_configuration(state: RuntimeView)
    requires
        state.mode == LaunchMode::Workbench,
    ensures
        ({
            let after = state.laid_out(state.viewport, false);
            &&& after.config == state.config
            &&& after.gesture == state.gesture
            &&& after.viewport == state.viewport
            &&& after.mode == state.mode
            &&& after.keeps_layout == state.keeps_layout
            &&& after.workbench == state.workbench.fitted(state.viewport, state.config)
            &&& after.workbench.sidebar.manual == state.workbench.sidebar.manual
            &&& after.workbench.bottom.manual == state.workbench.bottom.manual
            &&& after.layout == Some(
                WorkbenchLayout::solved(
                    state.viewport,
                    state.config,
                    after.workbench.visibility(),
                ),
            )
        }),
{
}

/// A divider follows the pointer: the sidebar and the editor grow to the right,
/// the bottom pane grows upwards, by as many cells as the pointer has moved,
/// within the bounds that leave room for the others. Releasing the button keeps
/// the layout that was reached.
pub proof fn dividers_follow_the_pointer(
    state: RuntimeView,
    divider: LayoutDivider,
    down: MouseEvent,
    drag: MouseEvent,
    up: MouseEvent,
    now: Instant,
)
    requires
        state.mode == LaunchMode::Workbench,
        under(state, down) == Some(MouseTarget::Divider(divider)),
        state.layout matches Some(layout) && layout.sidebar.width + layout.editor.width
            + layout.agent.width <= u16::MAX && layout.editor.height + layout.bottom.height <= u16::MAX,
        down.kind == MouseEventKind::Down(MouseButton::Left),
        drag.kind == MouseEventKind::Drag(MouseButton::Left),
        up.kind == MouseEventKind::Up(MouseButton::Left),
        state.gesture is None,
    ensures
        ({
            let layout = state.layout->0;
            let moved = handled(handled(state, down, now), drag, now);
            let done = handled(moved, up, now);
            let right = drag.column - down.column;
            let up_by = down.row - drag.row;
            let columns = layout.sidebar.width + layout.editor.width + layout.agent.width;
            let sidebar = state.config.sidebar_width + right;
            let editor = layout.editor.width + right;
            let bottom = state.config.bottom_height + up_by;
            &&& divider == LayoutDivider::SidebarMain && 4 <= sidebar <= columns - 8
                ==> moved.config == (WorkbenchLayoutConfig {
                sidebar_width: sidebar as u16,
                ..state.config
            })
            &&& divider == LayoutDivider::EditorAgent && 4 <= editor <= layout.editor.width
                + layout.agent.width - 4 ==> moved.config == (WorkbenchLayoutConfig {
                editor_width: Some(editor as u16),
                ..state.config
            })
            &&& divider == LayoutDivider::EditorBottom && 4 <= bottom <= layout.editor.height
                + layout.bottom.height - 4 ==> moved.config == (WorkbenchLayoutConfig {
                bottom_height: bottom as u16,
                ..state.config
            })
            &&& moved.layout == Some(
                WorkbenchLayout::solved(
                    state.viewport,
                    moved.config,
                    moved.workbench.visibility(),
                ),
            )
            &&& done.config == moved.config
            &&& done.gesture is None
            &&& state.keeps_layout ==> done.outbox == moved.outbox.push(
                EffectView::SaveLayout(moved.workbench.intent(moved.config)),
            )
        }),
{
    let layout = state.layout->0;
    presses_take_a_divider(state, divider, down, now);
    let pressed = handled(state, down, now);
    drags_move_a_divider(pressed, divider, down, layout, state.config, drag, now);
    let moved = handled(pressed, drag, now);
    releases_end_a_gesture(moved, up, now);
    let done = handled(moved, up, now);
    let idle = RuntimeView { gesture: None, ..moved };
    assert(done == idle.layout_kept());
    if state.keeps_layout {
        assert(done.outbox =~= moved.outbox.push(
            EffectView::SaveLayout(moved.workbench.intent(moved.config)),
        ));
    }
}

proof fn drags_move_a_divider(
    state: RuntimeView,
    divider: LayoutDivider,
    origin: MouseEvent,
    layout: WorkbenchLayout,
    config: WorkbenchLayoutConfig,
    event: MouseEvent,
    now: Instant,
)
    requires
        state.mode == LaunchMode::Workbench,
        state.layout is Some,
        state.gesture == Some(PendingLayoutGesture::Drag { divider, origin, layout, config }),
        event.kind == MouseEventKind::Drag(MouseButton::Left),
    ensures
        ({
            let after = handled(state, event, now);
            &&& after.config == dragged(divider, origin, event, layout, config)
            &&& after.gesture == state.gesture
            &&& after.keeps_layout == state.keeps_layout
            &&& after.layout == Some(
                WorkbenchLayout::solved(
                    state.viewport,
                    after.config,
                    after.workbench.visibility(),
                ),
            )
        }),
{
    reveal(handled);
    assert(handled(state, event, now) == state.dragged_to(event));
    let next = RuntimeView {
        config: dragged(divider, origin, event, layout, config),
        ..state
    };
    layouts_follow_the_configuration(next);
    assert(handled(state, event, now) == next.laid_out(state.viewport, false));
}

/// A selection whose pointer rests at the top of its pane or above scrolls up
/// into the history, at the bottom or below down, and in between not at all: one
/// row at a time, and not before the time has come.
pub proof fn selections_scroll_at_the_edges(state: RuntimeView, now: Instant, pane: PaneId)
    requires
        state.mouse matches Some(pending) && pending.dragging,
        state.layout is Some,
        pane != PaneId::Sidebar,
        state.workbench.selection matches Some(selection) && selection.pane == pane,
        state.sessions.session(pane) is Some,
        area_of(state.layout->0, pane).y + area_of(state.layout->0, pane).height <= u16::MAX,
        area_of(state.layout->0, pane).height >= 4,
        now.nanos + 50_000_000 <= u64::MAX,
    ensures
        ({
            let pending = state.mouse->0;
            let area = area_of(state.layout->0, pane);
            let session = state.sessions.session(pane)->0;
            let lines = if pending.current.row <= area.y + 1 {
                1int
            } else if pending.current.row >= area.y + area.height - 2 {
                -1
            } else {
                0
            };
            let after = state.ticked(now);
            &&& now.nanos < pending.next_edge_scroll.nanos ==> after == state
            &&& now.nanos >= pending.next_edge_scroll.nanos ==> {
                &&& after.mouse matches Some(next) && next.next_edge_scroll.nanos == now.nanos
                    + 50_000_000 && next.dragging
                &&& after.sessions.session(pane) == if lines == 0 || session.scroll_goal(lines)
                    == screen_scrollback(session.shown()) {
                    Some(session)
                } else {
                    Some(session.scrolled_by(lines))
                }
                &&& after.outbox == state.outbox
            }
        }),
{
}

/// When the viewport is divided anew, every terminal that has room for its
/// content gets the size of its pane without the border, and a program whose
/// size changes is told so.
pub proof fn terminals_fill_their_panes(
    state: RuntimeView,
    viewport: Rect,
    clear_selection: bool,
    pane: PaneId,
)
    requires
        state.mode == LaunchMode::Workbench,
        pane != PaneId::Sidebar,
        state.sessions.slots.dom().contains(pane),
    ensures
        ({
            let after = state.laid_out(viewport, clear_selection);
            let area = area_of(after.layout->0, pane);
            &&& after.viewport == viewport
            &&& after.layout is Some
            &&& area.width >= 4 && area.height >= 4 ==> {
                &&& after.sessions.slots[pane].size.cols == area.width - 2
                &&& after.sessions.slots[pane].size.rows == area.height - 2
            }
            &&& area.width < 4 || area.height < 4 ==> after.sessions.slots[pane].size
                == state.sessions.slots[pane].size
        }),
{
    let seen = if state.viewport != viewport {
        RuntimeView { viewport, ..state.canceled() }
    } else {
        state
    };
    let workbench = seen.workbench.fitted(viewport, seen.config);
    let layout = WorkbenchLayout::solved(viewport, seen.config, workbench.visibility());
    let fitted = RuntimeView { workbench, ..seen };
    let settled = if fitted.layout != Some(layout) {
        let idle = RuntimeView { mouse: None, ..fitted };
        if clear_selection {
            idle.unselected()
        } else {
            idle
        }
    } else {
        fitted
    };
    assert(settled.sessions.slots.dom().contains(pane));
    assert(settled.sessions.slots[pane].size == state.sessions.slots[pane].size);
    let first = settled.with_room(PaneId::Editor, layout.editor);
    let second = first.with_room(PaneId::Agent, layout.agent);
    let third = second.with_room(PaneId::Bottom, layout.bottom);
    room_is_given(settled, PaneId::Editor, layout.editor, pane);
    room_is_given(first, PaneId::Agent, layout.agent, pane);
    room_is_given(second, PaneId::Bottom, layout.bottom, pane);
    assert(state.laid_out(viewport, clear_selection) == (RuntimeView {
        layout: Some(layout),
        ..third
    }));
}

proof fn room_is_given(state: RuntimeView, pane: PaneId, area: Rect, other: PaneId)
    requires
        state.sessions.slots.dom().contains(other),
    ensures
        ({
            let after = state.with_room(pane, area);
            &&& after.sessions.slots.dom().contains(other)
            &&& after.viewport == state.viewport
            &&& other == pane && area.width >= 4 && area.height >= 4 ==> {
                &&& after.sessions.slots[other].size.cols == area.width - 2
                &&& after.sessions.slots[other].size.rows == area.height - 2
            }
            &&& other != pane || area.width < 4 || area.height < 4
                ==> after.sessions.slots[other].size == state.sessions.slots[other].size
        }),
{
}

} // verus!
