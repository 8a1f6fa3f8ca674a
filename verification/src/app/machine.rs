//! The workbench as a state machine: what every event makes of its state, and
//! what is asked of the outside world for it.

use vstd::prelude::*;

use crate::app::command::LaunchMode;
use crate::app::effect::{one_or_none, BackendFault, EffectView};
use crate::app::gesture::{
    activated, content_position, dragged, edge_direction, event_at, rolled_back,
    PendingLayoutGesture, PendingMouseGesture,
};
use crate::app::registry::{RegistryView, SlotView};
use crate::app::supervisor::{SessionIdentity, SessionIds};
use crate::event::{KeyCode, KeyEvent, MouseButton, MouseEvent, MouseEventKind};
use crate::geometry::Rect;
use crate::terminal::emulator::screen_scrollback;
use crate::terminal::process::ProcessView;
use crate::terminal::selection::selected;
use crate::time::Instant;
use crate::ui::terminal::content_size;
use crate::workbench::hit_test::{owner, LayoutHandle, MouseTarget};
use crate::workbench::layout::{
    WorkbenchLayout, WorkbenchLayoutConfig, MIN_TERMINAL_HEIGHT, MIN_TERMINAL_WIDTH,
};
use crate::workbench::pane::PaneId;
use crate::workbench::persistence::LayoutIntent;
use crate::workbench::state::WorkbenchView;

verus! {

/// Rows that a turn of the wheel scrolls.
pub const MOUSE_WHEEL_LINES: i32 = 3;

/// Rows that a selection scrolls at the edge of its pane.
pub const EDGE_SCROLL_LINES: i32 = 1;

/// Time between two rows that a selection scrolls.
pub const EDGE_SCROLL_NANOS: u64 = 50_000_000;

#[verifier::ext_equal]
pub struct RuntimeView {
    pub mode: LaunchMode,
    pub workbench: WorkbenchView,
    pub config: WorkbenchLayoutConfig,
    pub layout: Option<WorkbenchLayout>,
    pub sessions: RegistryView,
    pub status: Option<Seq<char>>,
    pub viewport: Rect,
    pub mouse: Option<PendingMouseGesture>,
    pub gesture: Option<PendingLayoutGesture>,
    /// Whether layouts are kept.
    pub keeps_layout: bool,
    /// What is asked of the outside world and not carried out yet.
    pub outbox: Seq<EffectView>,
}

pub open spec fn quits(key: KeyEvent) -> bool {
    key.code == KeyCode::Char('q') && key.modifiers.control
}

/// Copying is asked for with the command key; the control key does where there
/// is something to copy.
pub open spec fn copies(key: KeyEvent, has_selection: bool) -> bool {
    key.code == KeyCode::Char('c') && (key.modifiers.command || (has_selection
        && key.modifiers.control))
}

pub open spec fn pastes(key: KeyEvent) -> bool {
    key.code == KeyCode::Char('v') && key.modifiers.command
}

/// What became of a layout that was kept.
pub enum LoadView {
    /// Layouts are not kept.
    Unused,
    /// Layouts cannot be kept.
    Unavailable(Seq<char>),
    Missing,
    Found(LayoutIntent),
    /// A layout was kept but is of no use.
    Ignored(Seq<char>),
}

impl LoadView {
    pub open spec fn status(self) -> Option<Seq<char>> {
        match self {
            LoadView::Unavailable(error) => Some("layout persistence unavailable: "@ + error),
            LoadView::Ignored(error) => Some("saved layout ignored: "@ + error),
            _ => None,
        }
    }
}

/// The backends of a workbench, before any is started.
pub open spec fn workbench_slots(
    layout: WorkbenchLayout,
    editor: ProcessView,
    agent: ProcessView,
    shell: ProcessView,
) -> RegistryView {
    RegistryView { slots: Map::empty(), ids: SessionIds::spec_new() }.with_slot(
        PaneId::Editor,
        SlotView::waiting(editor, content_size(layout.editor)),
    ).with_slot(
        PaneId::Agent,
        SlotView::waiting(agent, content_size(layout.agent)),
    ).with_slot(PaneId::Bottom, SlotView::waiting(shell, content_size(layout.bottom)))
}

/// One backend that has the viewport for itself.
pub open spec fn single_slot(process: ProcessView, area: Rect) -> RegistryView {
    RegistryView { slots: Map::empty(), ids: SessionIds::spec_new() }.with_slot(
        PaneId::Editor,
        SlotView::waiting(process, content_size(area)),
    )
}

impl RuntimeView {
    pub open spec fn wf(self) -> bool {
        &&& self.sessions.wf()
        &&& self.workbench.wf()
    }

    /// The workbench at its start: the layout that was kept is in place before
    /// the viewport is divided and the backends are asked for.
    pub open spec fn opened(
        area: Rect,
        load: LoadView,
        editor: ProcessView,
        agent: ProcessView,
        shell: ProcessView,
    ) -> RuntimeView {
        let config = match load {
            LoadView::Found(intent) => intent.config,
            _ => WorkbenchLayoutConfig::spec_default(),
        };
        let known = match load {
            LoadView::Found(intent) => WorkbenchView::initial().with_manual(
                intent.sidebar_collapsed,
                intent.bottom_collapsed,
            ),
            _ => WorkbenchView::initial(),
        };
        let workbench = known.fitted(area, config);
        let layout = WorkbenchLayout::solved(area, config, workbench.visibility());
        let sessions = workbench_slots(layout, editor, agent, shell);
        RuntimeView {
            mode: LaunchMode::Workbench,
            workbench,
            config,
            layout: Some(layout),
            sessions: sessions.all_starting(),
            status: load.status(),
            viewport: area,
            mouse: None,
            gesture: None,
            keeps_layout: load is Missing || load is Found || load is Ignored,
            outbox: sessions.all_start_effects(),
        }
    }

    /// A single backend at its start.
    pub open spec fn opened_single(mode: LaunchMode, area: Rect, process: ProcessView) -> RuntimeView {
        let sessions = single_slot(process, area);
        RuntimeView {
            mode,
            workbench: WorkbenchView::initial(),
            config: WorkbenchLayoutConfig::spec_default(),
            layout: None,
            sessions: sessions.all_starting(),
            status: None,
            viewport: area,
            mouse: None,
            gesture: None,
            keeps_layout: false,
            outbox: sessions.all_start_effects(),
        }
    }

    /// The pane that keys and pastes go to.
    pub open spec fn input_pane(self) -> PaneId {
        if self.mode == LaunchMode::Workbench {
            self.workbench.focused
        } else {
            PaneId::Editor
        }
    }

    pub open spec fn emitting(self, effects: Seq<EffectView>) -> RuntimeView {
        RuntimeView { outbox: self.outbox + effects, ..self }
    }

    pub open spec fn saying(self, status: Option<Seq<char>>) -> RuntimeView {
        RuntimeView { status, ..self }
    }

    /// A gesture on the layout ends and what it changed is undone.
    pub open spec fn canceled(self) -> RuntimeView {
        RuntimeView {
            config: match rolled_back(self.gesture) {
                Some(config) => config,
                None => self.config,
            },
            gesture: None,
            ..self
        }
    }

    /// Nothing is selected any more, and its pane shows its program again.
    pub open spec fn unselected(self) -> RuntimeView {
        RuntimeView {
            sessions: match self.workbench.selection {
                Some(selection) => self.sessions.thawed(selection.pane),
                None => self.sessions,
            },
            workbench: self.workbench.without_selection(),
            ..self
        }
    }

    pub open spec fn shut(self) -> RuntimeView {
        let idle = RuntimeView { mouse: None, ..self }.canceled();
        RuntimeView { sessions: idle.sessions.shut(), ..idle }.emitting(
            idle.sessions.shut_effects(),
        )
    }

    /// The terminal of a pane gets the size of an area that has room for one.
    pub open spec fn with_room(self, pane: PaneId, area: Rect) -> RuntimeView {
        if area.width >= MIN_TERMINAL_WIDTH && area.height >= MIN_TERMINAL_HEIGHT {
            RuntimeView { sessions: self.sessions.resized(pane, content_size(area)), ..self }.emitting(
                one_or_none(self.sessions.resize_effect(pane, content_size(area))),
            )
        } else {
            self
        }
    }

    /// The viewport is divided anew. A gesture does not outlive another
    /// viewport, nor a pointer another layout.
    pub open spec fn laid_out(self, area: Rect, clear_selection: bool) -> RuntimeView {
        let seen = if self.viewport != area {
            RuntimeView { viewport: area, ..self.canceled() }
        } else {
            self
        };
        if self.mode == LaunchMode::Workbench {
            let workbench = seen.workbench.fitted(area, seen.config);
            let layout = WorkbenchLayout::solved(area, seen.config, workbench.visibility());
            let fitted = RuntimeView { workbench, ..seen };
            let settled = if fitted.layout != Some(layout) {
                let idle = RuntimeView { mouse: None, ..fitted };
                if clear_selection {
                    idle.unselected()
                } else {
                    idle
                }
            } else {
                fitted
            };
            RuntimeView {
                layout: Some(layout),
                ..settled.with_room(PaneId::Editor, layout.editor).with_room(
                    PaneId::Agent,
                    layout.agent,
                ).with_room(PaneId::Bottom, layout.bottom)
            }
        } else {
            RuntimeView {
                sessions: seen.sessions.resized(PaneId::Editor, content_size(area)),
                ..seen
            }.emitting(
                one_or_none(seen.sessions.resize_effect(PaneId::Editor, content_size(area))),
            )
        }
    }

    /// A backend that is not running is started on demand.
    pub open spec fn retried(self, pane: PaneId) -> RuntimeView {
        RuntimeView { sessions: self.sessions.retried(pane), ..self }.emitting(
            one_or_none(self.sessions.retry_effect(pane)),
        )
    }

    pub open spec fn copied(self) -> RuntimeView {
        match self.workbench.selection {
            None => self,
            Some(selection) => match self.sessions.session(selection.pane) {
                None => self.saying(Some("selected pane is unavailable"@)),
                Some(session) => self.emitting(
                    seq![EffectView::CopyText(selected(session.shown(), selection.spec_range()))],
                ),
            },
        }
    }

    /// A key goes to the focused backend, unless it is one of the workbench's
    /// own. A backend that is not running is started.
    pub open spec fn key_pressed(self, key: KeyEvent) -> RuntimeView {
        let idle = RuntimeView { mouse: None, ..self }.canceled();
        if quits(key) {
            idle.shut()
        } else if copies(key, idle.workbench.selection is Some) {
            idle.copied()
        } else if pastes(key) {
            idle.paste_asked()
        } else {
            idle.unselected().key_delivered(key)
        }
    }

    /// The clipboard is asked for; what was selected no longer is.
    pub open spec fn paste_asked(self) -> RuntimeView {
        self.unselected().emitting(seq![EffectView::ReadClipboard])
    }

    /// The pane whose content is under a cell.
    pub open spec fn content_under(self, column: u16, row: u16) -> Option<PaneId> {
        match self.layout {
            Some(layout) => match owner(layout, column, row) {
                Some(MouseTarget::Content { pane, .. }) => Some(pane),
                _ => None,
            },
            None => None,
        }
    }

    /// The second button goes down over a cell.
    pub open spec fn secondary_pressed(self, column: u16, row: u16) -> RuntimeView {
        match self.content_under(column, row) {
            Some(pane) => {
                let idle = RuntimeView { mouse: None, ..self }.canceled();
                RuntimeView { workbench: idle.workbench.with_focus(pane), ..idle }
            },
            None => self,
        }
    }

    pub open spec fn key_delivered(self, key: KeyEvent) -> RuntimeView {
        let pane = self.input_pane();
        if self.sessions.current(pane) is Some {
            self.emitting(one_or_none(self.sessions.key_effect(pane, key)))
        } else {
            self.retried(pane)
        }
    }

    pub open spec fn pasted(self, text: Seq<char>) -> RuntimeView {
        let pane = self.input_pane();
        if self.sessions.current(pane) is None {
            self.saying(Some("focused pane does not accept paste"@))
        } else {
            match self.sessions.pasted(pane, text) {
                Some(bytes) => self.emitting(
                    one_or_none(
                        self.sessions.write_effect(pane, Some(bytes), BackendFault::Paste),
                    ),
                ),
                None => self.saying(
                    Some(
                        "paste rejected: "@
                            + "multi-line paste requires backend bracketed-paste support"@,
                    ),
                ),
            }
        }
    }

    pub open spec fn paste_arrived(self, text: Seq<char>) -> RuntimeView {
        RuntimeView { mouse: None, ..self }.canceled().unselected().pasted(text)
    }

    /// The layout is kept, if layouts are.
    pub open spec fn layout_kept(self) -> RuntimeView {
        if self.keeps_layout {
            self.emitting(seq![EffectView::SaveLayout(self.workbench.intent(self.config))])
        } else {
            self
        }
    }

    pub open spec fn mouse_event(self, event: MouseEvent, now: Instant) -> RuntimeView {
        match self.layout {
            None => self,
            Some(layout) => {
                let target = owner(layout, event.column, event.row);
                match event.kind {
                    MouseEventKind::Down(MouseButton::Left) => self.pressed(
                        layout,
                        target,
                        event,
                        now,
                    ),
                    MouseEventKind::Drag(MouseButton::Left) => self.dragged_to(event),
                    MouseEventKind::Up(MouseButton::Left) => self.released(target, event),
                    MouseEventKind::ScrollUp
                    | MouseEventKind::ScrollDown
                    | MouseEventKind::ScrollLeft
                    | MouseEventKind::ScrollRight => self.wheeled(target, event),
                    MouseEventKind::Moved => self.pointed(target, event),
                    _ => self,
                }
            },
        }
    }

    /// The button goes down: a gesture begins, on the layout or on a pane. A
    /// pane takes the focus.
    pub open spec fn pressed(
        self,
        layout: WorkbenchLayout,
        target: Option<MouseTarget>,
        event: MouseEvent,
        now: Instant,
    ) -> RuntimeView {
        let idle = self.canceled();
        match target {
            None => idle,
            Some(MouseTarget::Handle(handle)) => RuntimeView {
                mouse: None,
                gesture: Some(PendingLayoutGesture::Handle { handle, origin: event, moved: false }),
                ..idle
            },
            Some(MouseTarget::Divider(divider)) => RuntimeView {
                mouse: None,
                gesture: Some(
                    PendingLayoutGesture::Drag {
                        divider,
                        origin: event,
                        layout,
                        config: idle.config,
                    },
                ),
                ..idle
            },
            Some(target) => {
                let plain = idle.unselected();
                RuntimeView {
                    workbench: match target.spec_pane() {
                        Some(pane) => plain.workbench.with_focus(pane),
                        None => plain.workbench,
                    },
                    mouse: Some(
                        PendingMouseGesture {
                            target,
                            down: event,
                            current: event,
                            dragging: false,
                            next_edge_scroll: Instant {
                                nanos: (now.nanos + EDGE_SCROLL_NANOS) as u64,
                            },
                        },
                    ),
                    ..plain
                }
            },
        }
    }

    /// The pointer moves with the button down.
    pub open spec fn dragged_to(self, event: MouseEvent) -> RuntimeView {
        match self.gesture {
            Some(PendingLayoutGesture::Handle { handle, origin, moved }) => RuntimeView {
                gesture: Some(
                    PendingLayoutGesture::Handle {
                        handle,
                        origin,
                        moved: moved || event.column != origin.column || event.row != origin.row,
                    },
                ),
                ..self
            },
            Some(PendingLayoutGesture::Drag { .. }) => self.layout_dragged(event),
            None => match self.mouse {
                None => self,
                Some(pending) => {
                    let dragging = pending.dragging || self.can_select(pending.target);
                    let begun = if pending.dragging {
                        self
                    } else {
                        self.selecting(pending.target)
                    };
                    let moved = if dragging {
                        begun.selection_moved(event)
                    } else {
                        begun
                    };
                    RuntimeView {
                        mouse: Some(PendingMouseGesture { dragging, current: event, ..pending }),
                        ..moved
                    }
                },
            },
        }
    }

    /// A divider follows the pointer; the layout is kept only once the button
    /// comes up.
    pub open spec fn layout_dragged(self, event: MouseEvent) -> RuntimeView {
        match self.gesture {
            Some(PendingLayoutGesture::Drag { divider, origin, layout, config }) => RuntimeView {
                config: dragged(divider, origin, event, layout, config),
                ..self
            }.laid_out(self.viewport, false),
            _ => self,
        }
    }

    /// Whether a selection can begin: over the content of a backend that runs.
    pub open spec fn can_select(self, target: MouseTarget) -> bool {
        target matches MouseTarget::Content { pane, .. } && self.sessions.session(pane) is Some
    }

    /// A selection begins, on a view that output does not move.
    pub open spec fn selecting(self, target: MouseTarget) -> RuntimeView {
        match target {
            MouseTarget::Content { pane, row, col } => match self.sessions.session(pane) {
                Some(session) => RuntimeView {
                    sessions: self.sessions.frozen(pane),
                    workbench: self.workbench.with_selection(
                        session.frozen_view().point_at(row, col),
                    ),
                    status: None,
                    ..self
                },
                None => self,
            },
            _ => self,
        }
    }

    /// The head of the selection goes to the cell nearest to the pointer.
    pub open spec fn selection_moved(self, event: MouseEvent) -> RuntimeView {
        match (self.layout, self.workbench.selection) {
            (Some(layout), Some(selection)) => match (
                content_position(layout, selection.pane, event),
                self.sessions.session(selection.pane),
            ) {
                (Some(position), Some(session)) => RuntimeView {
                    workbench: self.workbench.with_head(session.point_at(position.0, position.1)),
                    ..self
                },
                _ => self,
            },
            _ => self,
        }
    }

    /// The button comes up: a handle is activated, a layout kept, a selection
    /// finished or a click delivered.
    pub open spec fn released(self, target: Option<MouseTarget>, event: MouseEvent) -> RuntimeView {
        match self.gesture {
            Some(gesture) => RuntimeView { gesture: None, ..self }.gesture_done(gesture, target),
            None => match self.mouse {
                None => self,
                Some(pending) => {
                    let done = RuntimeView { mouse: None, ..self };
                    if pending.dragging {
                        done.selection_moved(event)
                    } else {
                        done.clicked(pending, event)
                    }
                },
            },
        }
    }

    /// A gesture on the layout is over: a handle is activated or a layout kept.
    pub open spec fn gesture_done(
        self,
        gesture: PendingLayoutGesture,
        target: Option<MouseTarget>,
    ) -> RuntimeView {
        match gesture {
            PendingLayoutGesture::Handle { .. } => match activated(gesture, target) {
                Some(handle) => RuntimeView {
                    workbench: match handle {
                        LayoutHandle::Sidebar => self.workbench.sidebar_toggled(),
                        LayoutHandle::Bottom => self.workbench.bottom_toggled(),
                    },
                    ..self
                }.laid_out(self.viewport, false).layout_kept(),
                None => self,
            },
            PendingLayoutGesture::Drag { .. } => self.layout_kept(),
        }
    }

    /// A click goes to the program under it, or starts it where none is running.
    pub open spec fn clicked(self, pending: PendingMouseGesture, release: MouseEvent) -> RuntimeView {
        match pending.target {
            MouseTarget::Content { pane, row, col } => if self.sessions.session(pane) is None {
                self.retried(pane)
            } else {
                let at = match self.layout {
                    Some(layout) => match content_position(layout, pane, release) {
                        Some(position) => position,
                        None => (row, col),
                    },
                    None => (row, col),
                };
                self.emitting(
                    one_or_none(
                        self.sessions.mouse_effect(pane, event_at(pending.down, row, col)),
                    ),
                ).emitting(
                    one_or_none(self.sessions.mouse_effect(pane, event_at(release, at.0, at.1))),
                )
            },
            _ => self,
        }
    }

    /// The pointer moves with no button down.
    pub open spec fn pointed(self, target: Option<MouseTarget>, event: MouseEvent) -> RuntimeView {
        match target {
            Some(MouseTarget::Content { pane, row, col }) => self.emitting(
                one_or_none(self.sessions.mouse_effect(pane, event_at(event, row, col))),
            ),
            _ => self,
        }
    }

    /// Rows that the wheel asks for.
    pub open spec fn wheel_lines(kind: MouseEventKind) -> int {
        match kind {
            MouseEventKind::ScrollUp => MOUSE_WHEEL_LINES as int,
            MouseEventKind::ScrollDown => -(MOUSE_WHEEL_LINES as int),
            _ => 0,
        }
    }

    /// The wheel scrolls a pane that has a selection, else it goes to a program
    /// that wants the mouse, else it scrolls the history.
    pub open spec fn wheeled(self, target: Option<MouseTarget>, event: MouseEvent) -> RuntimeView {
        match target {
            Some(MouseTarget::Content { pane, row, col }) => match self.sessions.session(pane) {
                None => self,
                Some(session) => {
                    let lines = RuntimeView::wheel_lines(event.kind);
                    let owns = self.workbench.selection matches Some(selection) && selection.pane
                        == pane;
                    if (owns || !session.reports_mouse()) && lines != 0 {
                        RuntimeView { sessions: self.sessions.scrolled(pane, lines), ..self }
                    } else if session.reports_mouse() {
                        self.emitting(
                            one_or_none(
                                self.sessions.mouse_effect(pane, event_at(event, row, col)),
                            ),
                        )
                    } else {
                        self
                    }
                },
            },
            _ => self,
        }
    }

    /// A selection whose pointer rests at the edge of its pane scrolls, one row
    /// at a time.
    pub open spec fn ticked(self, now: Instant) -> RuntimeView {
        match self.mouse {
            Some(pending) => if pending.dragging && now.nanos >= pending.next_edge_scroll.nanos {
                RuntimeView {
                    mouse: Some(
                        PendingMouseGesture {
                            next_edge_scroll: Instant {
                                nanos: (now.nanos + EDGE_SCROLL_NANOS) as u64,
                            },
                            ..pending
                        },
                    ),
                    ..self
                }.edge_scrolled(pending.current)
            } else {
                self
            },
            None => self,
        }
    }

    pub open spec fn edge_scrolled(self, event: MouseEvent) -> RuntimeView {
        match (self.layout, self.workbench.selection) {
            (Some(layout), Some(selection)) => {
                let lines = edge_direction(layout, selection.pane, event) * EDGE_SCROLL_LINES;
                match self.sessions.session(selection.pane) {
                    Some(session) => if lines != 0 && session.scroll_goal(lines)
                        != screen_scrollback(session.shown()) {
                        RuntimeView {
                            sessions: self.sessions.scrolled(selection.pane, lines),
                            ..self
                        }.selection_moved(event)
                    } else {
                        self
                    },
                    None => self,
                }
            },
            _ => self,
        }
    }

    /// A backend did not do what was asked of it, or ended.
    pub open spec fn faulted(
        self,
        pane: PaneId,
        identity: SessionIdentity,
        fault: BackendFault,
        now: Instant,
        error: Seq<char>,
    ) -> RuntimeView {
        let after = RuntimeView {
            sessions: self.sessions.faulted(pane, identity, now, fault.message(error)),
            ..self
        };
        if self.sessions.concerned(pane, identity) {
            after.emitting(seq![EffectView::Terminate { pane, identity }])
        } else {
            after
        }
    }

    /// Bytes were written to a backend.
    pub open spec fn written(self, fault: BackendFault) -> RuntimeView {
        if fault == BackendFault::Paste {
            self.saying(None)
        } else {
            self
        }
    }

    /// Bytes could not be written to a backend.
    pub open spec fn not_written(
        self,
        pane: PaneId,
        identity: SessionIdentity,
        fault: BackendFault,
        now: Instant,
        error: Seq<char>,
    ) -> RuntimeView {
        let after = self.faulted(pane, identity, fault, now, error);
        if fault == BackendFault::Paste {
            after.saying(Some("paste failed; backend will restart"@))
        } else {
            after
        }
    }

    /// Whether the status complains of a layout that was not kept.
    pub open spec fn complains_of_layout(self) -> bool {
        self.status matches Some(status) && ("failed to save layout:"@.is_prefix_of(status)
            || "saved layout ignored:"@.is_prefix_of(status))
    }

    pub open spec fn layout_saved(self) -> RuntimeView {
        if self.complains_of_layout() {
            self.saying(None)
        } else {
            self
        }
    }
}

impl RuntimeView {
    /// Whether `after` asks for all that `self` asks for, in the same order, and
    /// what it asks for besides passes a test.
    pub open spec fn grows_to(self, after: RuntimeView, test: spec_fn(EffectView) -> bool) -> bool {
        &&& self.outbox.len() <= after.outbox.len()
        &&& after.outbox.take(self.outbox.len() as int) == self.outbox
        &&& forall|i: int|
            self.outbox.len() <= i < after.outbox.len() ==> test(#[trigger] after.outbox[i])
    }
}

proof fn growth_adds_up(
    first: RuntimeView,
    second: RuntimeView,
    third: RuntimeView,
    test: spec_fn(EffectView) -> bool,
)
    requires
        first.grows_to(second, test),
        second.grows_to(third, test),
    ensures
        first.grows_to(third, test),
{
    assert(third.outbox.take(first.outbox.len() as int) =~= first.outbox) by {
        assert forall|i: int| 0 <= i < first.outbox.len() implies third.outbox[i]
            == first.outbox[i] by {
            assert(third.outbox.take(second.outbox.len() as int)[i] == second.outbox[i]);
            assert(second.outbox.take(first.outbox.len() as int)[i] == first.outbox[i]);
        }
    }
    assert forall|i: int| first.outbox.len() <= i < third.outbox.len() implies test(
        #[trigger] third.outbox[i],
    ) by {
        if i < second.outbox.len() {
            assert(third.outbox.take(second.outbox.len() as int)[i] == second.outbox[i]);
        }
    }
}

proof fn emitting_grows(
    state: RuntimeView,
    base: RuntimeView,
    effects: Seq<EffectView>,
    test: spec_fn(EffectView) -> bool,
)
    requires
        base.outbox == state.outbox,
        forall|i: int| 0 <= i < effects.len() ==> test(#[trigger] effects[i]),
    ensures
        state.grows_to(base.emitting(effects), test),
{
    let after = base.emitting(effects);
    assert(after.outbox.take(state.outbox.len() as int) =~= state.outbox);
    assert forall|i: int| state.outbox.len() <= i < after.outbox.len() implies test(
        #[trigger] after.outbox[i],
    ) by {
        assert(after.outbox[i] == effects[i - state.outbox.len()]);
    }
}

proof fn resizing_grows(
    state: RuntimeView,
    pane: PaneId,
    area: Rect,
    test: spec_fn(EffectView) -> bool,
)
    requires
        forall|effect: EffectView| effect is Resize ==> #[trigger] test(effect),
    ensures
        state.grows_to(state.with_room(pane, area), test),
{
    let size = content_size(area);
    emitting_grows(
        state,
        RuntimeView { sessions: state.sessions.resized(pane, size), ..state },
        one_or_none(state.sessions.resize_effect(pane, size)),
        test,
    );
    assert(state.outbox.take(state.outbox.len() as int) =~= state.outbox);
}

proof fn layouts_grow(
    state: RuntimeView,
    area: Rect,
    clear_selection: bool,
    test: spec_fn(EffectView) -> bool,
)
    requires
        forall|effect: EffectView| effect is Resize ==> #[trigger] test(effect),
    ensures
        state.grows_to(state.laid_out(area, clear_selection), test),
{
    let seen = if state.viewport != area {
        RuntimeView { viewport: area, ..state.canceled() }
    } else {
        state
    };
    if state.mode == LaunchMode::Workbench {
        let workbench = seen.workbench.fitted(area, seen.config);
        let layout = WorkbenchLayout::solved(area, seen.config, workbench.visibility());
        let fitted = RuntimeView { workbench, ..seen };
        let settled = if fitted.layout != Some(layout) {
            let idle = RuntimeView { mouse: None, ..fitted };
            if clear_selection {
                idle.unselected()
            } else {
                idle
            }
        } else {
            fitted
        };
        let first = settled.with_room(PaneId::Editor, layout.editor);
        let second = first.with_room(PaneId::Agent, layout.agent);
        resizing_grows(settled, PaneId::Editor, layout.editor, test);
        resizing_grows(first, PaneId::Agent, layout.agent, test);
        resizing_grows(second, PaneId::Bottom, layout.bottom, test);
        let third = second.with_room(PaneId::Bottom, layout.bottom);
        growth_adds_up(settled, first, second, test);
        growth_adds_up(settled, second, third, test);
        assert(settled.outbox == state.outbox);
        assert(third.outbox == state.laid_out(area, clear_selection).outbox);
    } else {
        emitting_grows(
            state,
            RuntimeView {
                sessions: seen.sessions.resized(PaneId::Editor, content_size(area)),
                ..seen
            },
            one_or_none(seen.sessions.resize_effect(PaneId::Editor, content_size(area))),
            test,
        );
    }
}

/// Dragging a divider tells programs their new sizes and asks for nothing else.
/// In particular the layout is not kept before the button comes up.
pub proof fn drags_are_only_a_preview(state: RuntimeView, event: MouseEvent)
    requires
        state.gesture is Some,
    ensures
        state.grows_to(state.dragged_to(event), |effect: EffectView| effect is Resize),
{
    let test = |effect: EffectView| effect is Resize;
    match state.gesture {
        Some(PendingLayoutGesture::Drag { divider, origin, layout, config }) => {
            let next = RuntimeView {
                config: dragged(divider, origin, event, layout, config),
                ..state
            };
            layouts_grow(next, state.viewport, false, test);
        },
        _ => {
            assert(state.outbox.take(state.outbox.len() as int) =~= state.outbox);
        },
    }
}

/// A drag that is cancelled, by a key, a paste or another viewport, leaves the
/// layout that it began with.
pub proof fn canceled_drags_leave_no_trace(
    state: RuntimeView,
    before: WorkbenchLayoutConfig,
    key: KeyEvent,
    text: Seq<char>,
    area: Rect,
    clear_selection: bool,
)
    requires
        state.gesture matches Some(PendingLayoutGesture::Drag { config, .. }) && config == before,
    ensures
        state.key_pressed(key).config == before,
        state.key_pressed(key).gesture is None,
        state.paste_arrived(text).config == before,
        state.paste_arrived(text).gesture is None,
        area != state.viewport ==> state.laid_out(area, clear_selection).config == before,
        area != state.viewport ==> state.laid_out(area, clear_selection).gesture is None,
        state.shut().config == before,
{
}

/// Quitting ends every backend and none is started again.
pub proof fn quitting_ends_every_backend(state: RuntimeView, key: KeyEvent, pane: PaneId)
    requires
        quits(key),
    ensures
        state.key_pressed(key).sessions.ids.shutting_down,
        state.key_pressed(key).sessions.current(pane) is None,
        !state.key_pressed(key).sessions.can_retry(pane),
{
}

/// A key that is not the workbench's own reaches the focused pane and no other:
/// it is written to its backend, or starts it.
pub proof fn keys_reach_only_the_focused_pane(state: RuntimeView, key: KeyEvent)
    requires
        !quits(key),
        !copies(key, state.workbench.selection is Some),
        !pastes(key),
    ensures
        state.grows_to(
            state.key_pressed(key),
            |effect: EffectView|
                match effect {
                    EffectView::Write { pane, .. } => pane == state.input_pane(),
                    EffectView::Spawn { pane, .. } => pane == state.input_pane(),
                    _ => false,
                },
        ),
{
    let test = |effect: EffectView|
        match effect {
            EffectView::Write { pane, .. } => pane == state.input_pane(),
            EffectView::Spawn { pane, .. } => pane == state.input_pane(),
            _ => false,
        };
    let plain = RuntimeView { mouse: None, ..state }.canceled().unselected();
    let pane = plain.input_pane();
    assert(pane == state.input_pane());
    assert(plain.outbox == state.outbox);
    if plain.sessions.current(pane) is Some {
        emitting_grows(
            state,
            plain,
            one_or_none(plain.sessions.key_effect(pane, key)),
            test,
        );
    } else {
        emitting_grows(
            state,
            RuntimeView { sessions: plain.sessions.retried(pane), ..plain },
            one_or_none(plain.sessions.retry_effect(pane)),
            test,
        );
    }
}

/// While a pane has a selection the wheel scrolls it and is not told to its
/// program, whatever that wants.
pub proof fn selections_own_the_wheel(
    state: RuntimeView,
    pane: PaneId,
    row: u16,
    col: u16,
    event: MouseEvent,
)
    requires
        state.workbench.selection matches Some(selection) && selection.pane == pane,
        event.kind is ScrollUp || event.kind is ScrollDown,
    ensures
        state.wheeled(Some(MouseTarget::Content { pane, row, col }), event).outbox == state.outbox,
        state.sessions.session(pane) is Some ==> state.wheeled(
            Some(MouseTarget::Content { pane, row, col }),
            event,
        ).sessions == state.sessions.scrolled(pane, RuntimeView::wheel_lines(event.kind)),
{
}

/// A press over a pane ends what was selected and gives the pane the focus, if
/// it is shown.
pub proof fn presses_move_the_focus(
    state: RuntimeView,
    layout: WorkbenchLayout,
    pane: PaneId,
    row: u16,
    col: u16,
    event: MouseEvent,
    now: Instant,
)
    requires
        state.workbench.shows(pane),
    ensures
        state.pressed(layout, Some(MouseTarget::Content { pane, row, col }), event, now).workbench
            == (WorkbenchView { focused: pane, selection: None, ..state.workbench }),
{
}

/// A workbench that is opened divides the viewport by the layout that was kept,
/// and asks for its three backends at the sizes that this gives them.
pub proof fn kept_layouts_come_first(
    area: Rect,
    intent: LayoutIntent,
    editor: ProcessView,
    agent: ProcessView,
    shell: ProcessView,
)
    ensures
        ({
            let state = RuntimeView::opened(area, LoadView::Found(intent), editor, agent, shell);
            &&& state.workbench.intent(state.config) == intent
            &&& state.layout == Some(
                WorkbenchLayout::solved(area, intent.config, state.workbench.visibility()),
            )
            &&& state.outbox.len() == 3
            &&& state.outbox[0] matches EffectView::Spawn { pane, size, process, .. } && pane
                == PaneId::Editor && size == content_size(state.layout->0.editor) && process
                == editor
            &&& state.outbox[1] matches EffectView::Spawn { pane, size, process, .. } && pane
                == PaneId::Agent && size == content_size(state.layout->0.agent) && process == agent
            &&& state.outbox[2] matches EffectView::Spawn { pane, size, process, .. } && pane
                == PaneId::Bottom && size == content_size(state.layout->0.bottom) && process
                == shell
        }),
{
}

} // verus!
