//! What becomes of gestures that are not finished, of keys and pastes that no
//! program takes, and of work that fails.

use vstd::prelude::*;
use vstd::string::*;

use crate::app::effect::{BackendFault, EffectView};
use crate::app::gesture::{content_position, PendingLayoutGesture};
use crate::app::machine::RuntimeView;
use crate::app::registry::StateView;
use crate::app::routing::{handled, told, under};
use crate::app::supervisor::SessionIdentity;
use crate::event::{KeyCode, KeyEvent, MouseButton, MouseEvent, MouseEventKind};
use crate::terminal::emulator::screen_bracketed_paste;
use crate::terminal::paste::{only_unframed_lines_are_refused, paste_bytes, sanitized};
use crate::time::Instant;
use crate::workbench::hit_test::{LayoutHandle, MouseTarget};
use crate::workbench::pane::PaneId;
use crate::workbench::selection::PaneSelection;

verus! {

/// A handle that the pointer leaves in between does nothing, even if the button
/// comes up on it.
pub proof fn dragged_handles_do_nothing(
    state: RuntimeView,
    handle: LayoutHandle,
    down: MouseEvent,
    drag: MouseEvent,
    up: MouseEvent,
    now: Instant,
)
    requires
        under(state, down) == Some(MouseTarget::Handle(handle)),
        down.kind == MouseEventKind::Down(MouseButton::Left),
        drag.kind == MouseEventKind::Drag(MouseButton::Left),
        up.kind == MouseEventKind::Up(MouseButton::Left),
        drag.column != down.column || drag.row != down.row,
        state.gesture is None,
    ensures
        handled(handled(handled(state, down, now), drag, now), up, now) == (RuntimeView {
            mouse: None,
            ..state
        }),
{
    let pressed = handled(state, down, now);
    let moved = handled(pressed, drag, now);
    takes_a_handle(state, handle, down, now);
    leaves_a_handle(pressed, handle, down, drag, now);
    lets_go(moved, up, now);
}

proof fn takes_a_handle(
    state: RuntimeView,
    handle: LayoutHandle,
    down: MouseEvent,
    now: Instant,
)
    requires
        under(state, down) == Some(MouseTarget::Handle(handle)),
        down.kind == MouseEventKind::Down(MouseButton::Left),
        state.gesture is None,
    ensures
        state.layout is Some,
        handled(state, down, now) == (RuntimeView {
            mouse: None,
            gesture: Some(PendingLayoutGesture::Handle { handle, origin: down, moved: false }),
            ..state
        }),
{
    reveal(handled);
    reveal(under);
}

proof fn leaves_a_handle(
    state: RuntimeView,
    handle: LayoutHandle,
    down: MouseEvent,
    drag: MouseEvent,
    now: Instant,
)
    requires
        state.layout is Some,
        state.gesture == Some(
            PendingLayoutGesture::Handle { handle, origin: down, moved: false },
        ),
        drag.kind == MouseEventKind::Drag(MouseButton::Left),
        drag.column != down.column || drag.row != down.row,
    ensures
        handled(state, drag, now) == (RuntimeView {
            gesture: Some(PendingLayoutGesture::Handle { handle, origin: down, moved: true }),
            ..state
        }),
{
    assert(handled(state, drag, now) == state.dragged_to(drag)) by {
        reveal(handled);
    }
}

proof fn lets_go(state: RuntimeView, up: MouseEvent, now: Instant)
    requires
        state.layout is Some,
        state.gesture matches Some(PendingLayoutGesture::Handle { moved, .. }) && moved,
        up.kind == MouseEventKind::Up(MouseButton::Left),
    ensures
        handled(state, up, now) == (RuntimeView { gesture: None, ..state }),
{
    assert(handled(state, up, now) == state.released(under(state, up), up)) by {
        reveal(handled);
        reveal(under);
    }
}

/// A selection keeps the place where it began, however often the pointer moves:
/// its head is the cell that is nearest to the pointer.
pub proof fn drags_move_only_the_head(
    state: RuntimeView,
    pane: PaneId,
    drag: MouseEvent,
    now: Instant,
)
    requires
        state.layout matches Some(layout) && content_position(layout, pane, drag) is Some,
        state.gesture is None,
        state.mouse matches Some(pending) && pending.dragging,
        state.workbench.selection matches Some(selection) && selection.pane == pane,
        state.sessions.session(pane) is Some,
        drag.kind == MouseEventKind::Drag(MouseButton::Left),
    ensures
        ({
            let after = handled(state, drag, now);
            let at = content_position(state.layout->0, pane, drag)->0;
            &&& after.workbench.selection == Some(
                PaneSelection {
                    pane,
                    anchor: state.workbench.selection->0.anchor,
                    head: state.sessions.session(pane)->0.point_at(at.0, at.1),
                },
            )
            &&& after.sessions == state.sessions
            &&& after.outbox == state.outbox
            &&& after.mouse matches Some(pending) && pending.dragging && pending.current == drag
        }),
{
    reveal(handled);
    assert(handled(state, drag, now) == state.dragged_to(drag));
}

/// A drag that begins on a border or over a program that does not run selects
/// nothing.
pub proof fn drags_elsewhere_select_nothing(state: RuntimeView, drag: MouseEvent, now: Instant)
    requires
        state.layout is Some,
        state.gesture is None,
        drag.kind == MouseEventKind::Drag(MouseButton::Left),
        state.mouse matches Some(pending) ==> !pending.dragging && !(
        pending.target matches MouseTarget::Content { pane, .. } && state.sessions.session(pane)
            is Some),
    ensures
        ({
            let after = handled(state, drag, now);
            &&& after.workbench == state.workbench
            &&& after.sessions == state.sessions
            &&& after.outbox == state.outbox
        }),
{
    reveal(handled);
    assert(handled(state, drag, now) == state.dragged_to(drag));
}

/// What was selected is let go by every key that the program reads: its pane shows
/// the screen of the program again, and other panes are left alone.
pub proof fn keys_let_the_selection_go(state: RuntimeView, key: KeyEvent, pane: PaneId, other: PaneId)
    requires
        state.workbench.selection matches Some(selection) && selection.pane == pane,
        state.sessions.session(pane) is Some,
        state.sessions.current(state.input_pane()) is Some,
        other != pane,
        !(key.code == KeyCode::Char('q') && key.modifiers.control),
        !(key.code == KeyCode::Char('c') && (key.modifiers.control || key.modifiers.command)),
    ensures
        ({
            let after = state.key_pressed(key);
            &&& after.workbench.selection is None
            &&& after.sessions.session(pane) matches Some(session) && session.frozen is None
                && session.shown() == session.live()
            &&& after.sessions.session(other) == state.sessions.session(other)
        }),
{
}

/// A key for a backend that does not run starts it, and is not told to anyone.
pub proof fn keys_start_what_does_not_run(state: RuntimeView, key: KeyEvent)
    requires
        state.workbench.selection is None,
        state.gesture is None,
        !(key.code == KeyCode::Char('q') && key.modifiers.control),
        !(key.code == KeyCode::Char('v') && key.modifiers.command),
        !(key.code == KeyCode::Char('c') && key.modifiers.command),
        state.sessions.can_start(state.input_pane()),
        !state.sessions.ids.shutting_down,
        state.sessions.slots.dom().contains(state.input_pane()),
        state.sessions.slots[state.input_pane()].state !is Running,
    ensures
        ({
            let pane = state.input_pane();
            let after = state.key_pressed(key);
            &&& after.outbox.len() == state.outbox.len() + 1
            &&& after.outbox.drop_last() == state.outbox
            &&& after.outbox.last() matches EffectView::Spawn { pane: started, .. } && started
                == pane
            &&& after.sessions.slots[pane].state is Starting
            &&& after.sessions.slots[pane].policy.consecutive == 0
        }),
{
    let after = state.key_pressed(key);
    assert(after.outbox.drop_last() =~= state.outbox);
}

/// A paste that no program takes is not told to anyone, and the user is told why:
/// the pane has no program, or the program reads several lines as so many
/// commands.
pub proof fn refused_pastes_are_explained(state: RuntimeView, text: Seq<char>)
    requires
        state.workbench.selection is None,
    ensures
        ({
            let pane = state.input_pane();
            let after = state.paste_arrived(text);
            let running = state.sessions.current(pane);
            let framed = screen_bracketed_paste(state.sessions.session(pane)->0.live());
            let refused = running is None || !framed && sanitized(text).contains('\n');
            &&& running is None ==> after.status == Some("focused pane does not accept paste"@)
            &&& refused ==> after.outbox == state.outbox && after.status is Some
            &&& !refused ==> after.status == state.status && after.outbox == state.outbox.push(
                told(
                    pane,
                    running->0,
                    paste_bytes(text, framed)->0,
                    BackendFault::Paste,
                ),
            )
        }),
{
    only_unframed_lines_are_refused(text);
    let after = state.paste_arrived(text);
    let pane = state.input_pane();
    if state.sessions.current(pane) is Some {
        let framed = screen_bracketed_paste(state.sessions.session(pane)->0.live());
        if framed || !sanitized(text).contains('\n') {
            assert(after.outbox =~= state.outbox.push(
                told(
                    pane,
                    state.sessions.current(pane)->0,
                    paste_bytes(text, framed)->0,
                    BackendFault::Paste,
                ),
            ));
        }
    }
}

/// The command key and `v` ask for the clipboard, and for nothing else.
pub proof fn one_key_asks_for_the_clipboard(state: RuntimeView, key: KeyEvent)
    requires
        key.code == KeyCode::Char('v'),
        key.modifiers.command,
    ensures
        state.key_pressed(key).outbox == state.outbox.push(EffectView::ReadClipboard),
        state.key_pressed(key).workbench.selection is None,
{
    let after = state.key_pressed(key);
    assert(after.outbox =~= state.outbox.push(EffectView::ReadClipboard));
}

/// A fault of the session that runs ends it, says what went wrong and plans what
/// comes next. A fault of any other changes nothing.
pub proof fn faults_end_their_session(
    state: RuntimeView,
    pane: PaneId,
    identity: SessionIdentity,
    fault: BackendFault,
    now: Instant,
    error: Seq<char>,
    other: PaneId,
)
    requires
        other != pane,
        !state.sessions.ids.shutting_down,
    ensures
        ({
            let after = state.faulted(pane, identity, fault, now, error);
            &&& state.sessions.current(pane) != Some(identity) ==> after == state
            &&& state.sessions.current(pane) == Some(identity) ==> {
                &&& after.outbox == state.outbox.push(EffectView::Terminate { pane, identity })
                &&& after.sessions.current(pane) is None
                &&& match after.sessions.slots[pane].state {
                    StateView::Backoff { message, .. } => message == fault.message(error),
                    StateView::Paused { message } => message == fault.message(error),
                    _ => false,
                }
                &&& after.sessions.session(other) == state.sessions.session(other)
                &&& after.workbench == state.workbench
            }
        }),
{
    let after = state.faulted(pane, identity, fault, now, error);
    if state.sessions.current(pane) == Some(identity) {
        assert(after.outbox =~= state.outbox.push(EffectView::Terminate { pane, identity }));
    }
}

/// Only pastes are reported on: one that is written takes back what was said, one
/// that fails says so. A failed write is a fault of its session, whatever was
/// written.
pub proof fn pastes_are_reported_on(
    state: RuntimeView,
    pane: PaneId,
    identity: SessionIdentity,
    fault: BackendFault,
    now: Instant,
    error: Seq<char>,
)
    ensures
        fault is Paste ==> state.written(fault).status is None,
        fault !is Paste ==> state.written(fault) == state,
        ({
            let failed = state.not_written(pane, identity, fault, now, error);
            let faulted = state.faulted(pane, identity, fault, now, error);
            &&& failed.sessions == faulted.sessions
            &&& failed.outbox == faulted.outbox
            &&& fault is Paste ==> failed.status == Some("paste failed; backend will restart"@)
            &&& fault !is Paste ==> failed.status == state.status
        }),
{
}

/// A fault says what was being done, and why it failed. Faults of different kinds
/// say different things.
pub proof fn faults_say_what_failed(fault: BackendFault, error: Seq<char>)
    requires
        fault !is Exit,
    ensures
        ({
            let message = fault.message(error);
            let start = (message.len() - error.len()) as int;
            let word = |w: Seq<char>| message.take(start) == "backend "@ + w + " error: "@;
            &&& 0 <= start
            &&& message.skip(start) == error
            &&& fault is Resize ==> word("resize"@)
            &&& fault is Input ==> word("input"@)
            &&& fault is Mouse ==> word("mouse"@)
            &&& fault is Paste ==> word("paste"@)
            &&& fault is Output ==> message.take(start) == "backend error: "@
        }),
{
    reveal_strlit("backend resize error: ");
    reveal_strlit("backend input error: ");
    reveal_strlit("backend mouse error: ");
    reveal_strlit("backend paste error: ");
    reveal_strlit("backend error: ");
    reveal_strlit("backend ");
    reveal_strlit(" error: ");
    reveal_strlit("resize");
    reveal_strlit("input");
    reveal_strlit("mouse");
    reveal_strlit("paste");
    let message = fault.message(error);
    let start = (message.len() - error.len()) as int;
    assert(message.skip(start) =~= error);
    match fault {
        BackendFault::Resize => {
            assert(message.take(start) =~= "backend "@ + "resize"@ + " error: "@);
        },
        BackendFault::Input => {
            assert(message.take(start) =~= "backend "@ + "input"@ + " error: "@);
        },
        BackendFault::Mouse => {
            assert(message.take(start) =~= "backend "@ + "mouse"@ + " error: "@);
        },
        BackendFault::Paste => {
            assert(message.take(start) =~= "backend "@ + "paste"@ + " error: "@);
        },
        _ => {
            assert(message.take(start) =~= "backend error: "@);
        },
    }
}

/// A layout that was saved takes back a complaint that it could not be, and no
/// other word.
pub proof fn saved_layouts_end_complaints(state: RuntimeView, why: Seq<char>)
    ensures
        state.status == Some("failed to save layout:"@ + why) ==> state.layout_saved().status
            is None,
        state.status == Some("saved layout ignored:"@ + why) ==> state.layout_saved().status is None,
        state.status == Some("focused pane does not accept paste"@) ==> state.layout_saved() == state,
        state.status is None ==> state.layout_saved() == state,
{
    reveal_strlit("failed to save layout:");
    reveal_strlit("saved layout ignored:");
    reveal_strlit("focused pane does not accept paste");
    let failed = "failed to save layout:"@ + why;
    let ignored = "saved layout ignored:"@ + why;
    assert("failed to save layout:"@.is_prefix_of(failed)) by {
        assert(failed.take("failed to save layout:"@.len() as int) =~= "failed to save layout:"@);
    }
    assert("saved layout ignored:"@.is_prefix_of(ignored)) by {
        assert(ignored.take("saved layout ignored:"@.len() as int) =~= "saved layout ignored:"@);
    }
    let paste = "focused pane does not accept paste"@;
    assert("failed to save layout:"@[1] == 'a' && paste[1] == 'o');
    assert("saved layout ignored:"@[0] == 's' && paste[0] == 'f');
    assert(!"failed to save layout:"@.is_prefix_of(paste)) by {
        if "failed to save layout:"@.is_prefix_of(paste) {
            assert(paste.take("failed to save layout:"@.len() as int)[1] == paste[1]);
        }
    }
    assert(!"saved layout ignored:"@.is_prefix_of(paste)) by {
        if "saved layout ignored:"@.is_prefix_of(paste) {
            assert(paste.take("saved layout ignored:"@.len() as int)[0] == paste[0]);
        }
    }
}

} // verus!
