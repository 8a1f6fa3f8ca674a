//! The backends of the panes: which are running, and when one is started again.
//!
//! A backend runs in a slot. The registry decides, and hands out as effects
//! what has to be done to processes; how it went comes back by `spawned`,
//! `handle_failure` and `poll_output`.

use vstd::prelude::*;
use vstd::string::*;

use crate::app::effect::{effect_views, one_or_none, push_effect, BackendFault, Effect, EffectView};
use crate::app::supervisor::{
    PolicyView, RestartDecision, RestartPolicy, SessionId, SessionIdentity, SessionIds,
    MAX_DELAY_NANOS,
};
use crate::event::{KeyEvent, MouseEvent};
use crate::terminal::emulator::{screen_bracketed_paste, screen_cursor, screen_scrollback};
use crate::terminal::input::key_bytes;
use crate::terminal::paste::{paste_bytes, PasteError};
use crate::terminal::process::{ProcessSpec, ProcessView, TerminalSize};
use crate::terminal::query::answers;
use crate::terminal::session::{SessionView, TerminalSession};
use crate::text::{bytes_of, decimal, decimal_text, texts};
use crate::time::{Duration, Instant, NANOS_PER_MILLI};
use crate::workbench::pane::PaneId;
use crate::workbench::pane_map::PaneMap;
use vstd::utf8::encode_utf8;

verus! {

/// Rows of history that a terminal keeps.
pub const SCROLLBACK_LINES: usize = 1_000;

pub enum SlotState {
    Starting,
    Running { identity: SessionIdentity, started_at: Instant, session: TerminalSession },
    Backoff { until: Instant, message: String },
    Paused { message: String },
}

pub struct SessionSlot {
    pub process: ProcessSpec,
    pub size: TerminalSize,
    pub generation: u64,
    pub policy: RestartPolicy,
    pub state: SlotState,
}

pub struct SessionRegistry {
    pub slots: PaneMap<SessionSlot>,
    pub ids: SessionIds,
}

pub enum StateView {
    Starting,
    Running { identity: SessionIdentity, started_at: Instant, session: SessionView },
    Backoff { until: Instant, message: Seq<char> },
    Paused { message: Seq<char> },
}

pub struct SlotView {
    pub process: ProcessView,
    pub size: TerminalSize,
    pub generation: u64,
    pub policy: PolicyView,
    pub state: StateView,
}

#[verifier::ext_equal]
pub struct RegistryView {
    pub slots: Map<PaneId, SlotView>,
    pub ids: SessionIds,
}

impl View for SlotState {
    type V = StateView;

    open spec fn view(&self) -> StateView {
        match self {
            SlotState::Starting => StateView::Starting,
            SlotState::Running { identity, started_at, session } => StateView::Running {
                identity: *identity,
                started_at: *started_at,
                session: session@,
            },
            SlotState::Backoff { until, message } => StateView::Backoff {
                until: *until,
                message: message@,
            },
            SlotState::Paused { message } => StateView::Paused { message: message@ },
        }
    }
}

impl View for SessionSlot {
    type V = SlotView;

    open spec fn view(&self) -> SlotView {
        SlotView {
            process: self.process@,
            size: self.size,
            generation: self.generation,
            policy: self.policy@,
            state: self.state@,
        }
    }
}

impl View for SessionRegistry {
    type V = RegistryView;

    open spec fn view(&self) -> RegistryView {
        RegistryView {
            slots: self.slots@.map_values(|slot: SessionSlot| slot@),
            ids: self.ids,
        }
    }
}

/// Whether the clock is far enough from its end for a restart to be planned.
pub open spec fn in_range(now: Instant) -> bool {
    now.nanos + MAX_DELAY_NANOS <= u64::MAX
}

impl SlotView {
    /// A slot whose backend has not been started.
    pub open spec fn waiting(process: ProcessView, size: TerminalSize) -> SlotView {
        SlotView {
            process,
            size,
            generation: 0,
            policy: PolicyView::fresh(),
            state: StateView::Starting,
        }
    }

    pub open spec fn wf(self) -> bool {
        &&& self.size.safe()
        &&& self.state matches StateView::Running { session, .. } ==> session.wf()
    }

    /// The slot once its backend has failed.
    pub open spec fn failed(self, now: Instant, runtime: Duration, message: Seq<char>) -> SlotView {
        let policy = self.policy.failed(now, runtime);
        SlotView {
            policy,
            state: match policy.decision() {
                RestartDecision::Backoff(delay) => StateView::Backoff {
                    until: Instant { nanos: (now.nanos + delay.nanos) as u64 },
                    message,
                },
                RestartDecision::Paused => StateView::Paused { message },
            },
            ..self
        }
    }

    /// Whether the time of a planned restart has come.
    pub open spec fn due(self, now: Instant) -> bool {
        self.state matches StateView::Backoff { until, .. } && now.nanos >= until.nanos
    }

    pub open spec fn start_failure(self, error: Seq<char>) -> Seq<char> {
        "failed to start "@ + self.process.display_name + ": "@ + error
    }
}

pub open spec fn hint(click_retry: bool) -> Seq<char> {
    if click_retry {
        "click to retry"@
    } else {
        "press any key to retry"@
    }
}

impl RegistryView {
    pub open spec fn wf(self) -> bool {
        forall|pane: PaneId| #[trigger]
            self.slots.dom().contains(pane) ==> self.slots[pane].wf()
    }

    /// The session that is running in a pane.
    pub open spec fn session(self, pane: PaneId) -> Option<SessionView> {
        if self.slots.dom().contains(pane) {
            match self.slots[pane].state {
                StateView::Running { session, .. } => Some(session),
                _ => None,
            }
        } else {
            None
        }
    }

    /// The start that is running in a pane.
    pub open spec fn current(self, pane: PaneId) -> Option<SessionIdentity> {
        if self.slots.dom().contains(pane) {
            match self.slots[pane].state {
                StateView::Running { identity, .. } => Some(identity),
                _ => None,
            }
        } else {
            None
        }
    }

    pub open spec fn with_slot(self, pane: PaneId, slot: SlotView) -> RegistryView {
        RegistryView { slots: self.slots.insert(pane, slot), ..self }
    }

    /// The registry with another state of the session that runs in a pane.
    pub open spec fn with_session(self, pane: PaneId, session: SessionView) -> RegistryView {
        match self.slots[pane].state {
            StateView::Running { identity, started_at, .. } => self.with_slot(
                pane,
                SlotView {
                    state: StateView::Running { identity, started_at, session },
                    ..self.slots[pane]
                },
            ),
            _ => self,
        }
    }

    /// The registry with the view of a pane frozen on its screen.
    pub open spec fn frozen(self, pane: PaneId) -> RegistryView {
        match self.session(pane) {
            Some(session) => self.with_session(pane, session.frozen_view()),
            None => self,
        }
    }

    /// The registry with what its program draws back in the view of a pane.
    pub open spec fn thawed(self, pane: PaneId) -> RegistryView {
        match self.session(pane) {
            Some(session) => self.with_session(pane, session.thawed()),
            None => self,
        }
    }

    /// The registry with the view of a pane scrolled up by `lines`.
    pub open spec fn scrolled(self, pane: PaneId, lines: int) -> RegistryView {
        match self.session(pane) {
            Some(session) => self.with_session(pane, session.scrolled_by(lines)),
            None => self,
        }
    }

    /// Whether numbers are left to start the backend of a pane.
    pub open spec fn can_start(self, pane: PaneId) -> bool {
        self.ids.shutting_down || (self.ids.next < u64::MAX && (self.slots.dom().contains(pane)
            ==> self.slots[pane].generation < u64::MAX))
    }

    /// Whether numbers are left to start all backends.
    pub open spec fn can_start_all(self) -> bool {
        self.ids.shutting_down || (self.ids.next + 4 <= u64::MAX && forall|pane: PaneId| #[trigger]
            self.slots.dom().contains(pane) ==> self.slots[pane].generation < u64::MAX)
    }

    pub open spec fn starts(self, pane: PaneId) -> bool {
        !self.ids.shutting_down && self.slots.dom().contains(pane)
    }

    /// The registry once a start was asked for.
    pub open spec fn starting(self, pane: PaneId) -> RegistryView {
        if self.starts(pane) {
            RegistryView {
                slots: self.slots.insert(
                    pane,
                    SlotView {
                        generation: (self.slots[pane].generation + 1) as u64,
                        ..self.slots[pane]
                    },
                ),
                ids: self.ids.allocated(),
            }
        } else {
            self
        }
    }

    pub open spec fn start_effect(self, pane: PaneId) -> Option<EffectView> {
        if self.starts(pane) {
            Some(
                EffectView::Spawn {
                    pane,
                    identity: SessionIdentity {
                        id: SessionId(self.ids.next),
                        generation: (self.slots[pane].generation + 1) as u64,
                    },
                    process: self.slots[pane].process,
                    size: self.slots[pane].size,
                },
            )
        } else {
            None
        }
    }

    /// Whether the report of a start is the one that the slot waits for.
    pub open spec fn expects(self, pane: PaneId, identity: SessionIdentity) -> bool {
        &&& self.starts(pane)
        &&& self.slots[pane].generation == identity.generation
        &&& self.slots[pane].state !is Running
    }

    pub open spec fn started(self, pane: PaneId, identity: SessionIdentity, now: Instant) -> RegistryView {
        if self.expects(pane, identity) {
            let slot = self.slots[pane];
            self.with_slot(
                pane,
                SlotView {
                    state: StateView::Running {
                        identity,
                        started_at: now,
                        session: SessionView::started(
                            slot.process.display_name,
                            slot.size,
                            SCROLLBACK_LINES,
                        ),
                    },
                    ..slot
                },
            )
        } else {
            self
        }
    }

    pub open spec fn not_started(
        self,
        pane: PaneId,
        identity: SessionIdentity,
        now: Instant,
        error: Seq<char>,
    ) -> RegistryView {
        if self.expects(pane, identity) {
            let slot = self.slots[pane];
            self.with_slot(
                pane,
                slot.failed(now, Duration { nanos: 0 }, slot.start_failure(error)),
            )
        } else {
            self
        }
    }

    /// Whether a fault is one of the session that is running.
    pub open spec fn concerned(self, pane: PaneId, identity: SessionIdentity) -> bool {
        !self.ids.shutting_down && self.current(pane) == Some(identity)
    }

    pub open spec fn faulted(
        self,
        pane: PaneId,
        identity: SessionIdentity,
        now: Instant,
        message: Seq<char>,
    ) -> RegistryView {
        if self.concerned(pane, identity) {
            match self.slots[pane].state {
                StateView::Running { started_at, .. } => self.with_slot(
                    pane,
                    self.slots[pane].failed(
                        now,
                        Duration { nanos: now.since(started_at) as u64 },
                        message,
                    ),
                ),
                _ => self,
            }
        } else {
            self
        }
    }

    pub open spec fn can_retry(self, pane: PaneId) -> bool {
        self.starts(pane) && self.slots[pane].state !is Running
    }

    /// The registry with the failures of a pane forgotten.
    pub open spec fn forgiven(self, pane: PaneId) -> RegistryView {
        self.with_slot(
            pane,
            SlotView {
                policy: PolicyView::fresh(),
                state: StateView::Starting,
                ..self.slots[pane]
            },
        )
    }

    pub open spec fn retried(self, pane: PaneId) -> RegistryView {
        if self.can_retry(pane) {
            self.forgiven(pane).starting(pane)
        } else {
            self
        }
    }

    pub open spec fn retry_effect(self, pane: PaneId) -> Option<EffectView> {
        if self.can_retry(pane) {
            self.forgiven(pane).start_effect(pane)
        } else {
            None
        }
    }

    pub open spec fn resized(self, pane: PaneId, size: TerminalSize) -> RegistryView {
        if self.slots.dom().contains(pane) {
            let slot = SlotView { size, ..self.slots[pane] };
            self.with_slot(
                pane,
                match slot.state {
                    StateView::Running { identity, started_at, session } => SlotView {
                        state: StateView::Running {
                            identity,
                            started_at,
                            session: session.resized(size),
                        },
                        ..slot
                    },
                    _ => slot,
                },
            )
        } else {
            self
        }
    }

    pub open spec fn resize_effect(self, pane: PaneId, size: TerminalSize) -> Option<EffectView> {
        match (self.current(pane), self.session(pane)) {
            (Some(identity), Some(session)) => if session.size == size {
                None
            } else {
                Some(EffectView::Resize { pane, identity, size })
            },
            _ => None,
        }
    }

    pub open spec fn write_effect(
        self,
        pane: PaneId,
        bytes: Option<Seq<u8>>,
        fault: BackendFault,
    ) -> Option<EffectView> {
        match (self.current(pane), bytes) {
            (Some(identity), Some(bytes)) => Some(
                EffectView::Write { pane, identity, bytes, fault },
            ),
            _ => None,
        }
    }

    pub open spec fn key_effect(self, pane: PaneId, key: KeyEvent) -> Option<EffectView> {
        self.write_effect(pane, key_bytes(key), BackendFault::Input)
    }

    pub open spec fn mouse_effect(self, pane: PaneId, event: MouseEvent) -> Option<EffectView> {
        match self.session(pane) {
            Some(session) => self.write_effect(
                pane,
                session.mouse_bytes(event),
                BackendFault::Mouse,
            ),
            None => None,
        }
    }

    /// The bytes that paste text into a pane.
    pub open spec fn pasted(self, pane: PaneId, text: Seq<char>) -> Option<Seq<u8>> {
        match self.session(pane) {
            Some(session) => paste_bytes(text, screen_bracketed_paste(session.live())),
            None => None,
        }
    }

    /// What the title of a pane says of a backend that is not running.
    pub open spec fn status_text(self, pane: PaneId, now: Instant, click_retry: bool) -> Option<
        Seq<char>,
    > {
        if self.slots.dom().contains(pane) {
            match self.slots[pane].state {
                StateView::Running { .. } => None,
                StateView::Starting => Some("starting…"@),
                StateView::Backoff { until, message } => Some(
                    message + "; retrying in "@ + decimal(
                        (until.since(now) / NANOS_PER_MILLI as int) as nat,
                    ) + "ms ("@ + hint(click_retry) + ")"@,
                ),
                StateView::Paused { message } => Some(
                    message + "; paused ("@ + hint(click_retry) + ")"@,
                ),
            }
        } else {
            None
        }
    }
}

fn joined(first: &str, second: &str, third: &str, fourth: &str) -> (text: String)
    ensures
        text@ == first@ + second@ + third@ + fourth@,
{
    let mut text = first.to_owned();
    text.append(second);
    text.append(third);
    text.append(fourth);
    text
}

/// What the user can do about a backend that is not running.
pub fn retry_hint(click_retry: bool) -> (text: &'static str)
    ensures
        text@ == hint(click_retry),
{
    if click_retry {
        "click to retry"
    } else {
        "press any key to retry"
    }
}

/// What the user is told of a fault.
pub fn fault_message(fault: BackendFault, error: &str) -> (message: String)
    ensures
        message@ == fault.message(error@),
{
    let mut message = match fault {
        BackendFault::Resize => "backend resize error: ".to_owned(),
        BackendFault::Input => "backend input error: ".to_owned(),
        BackendFault::Mouse => "backend mouse error: ".to_owned(),
        BackendFault::Paste => "backend paste error: ".to_owned(),
        BackendFault::Output => "backend error: ".to_owned(),
        BackendFault::Exit => return "backend exited".to_owned(),
    };
    message.append(error);
    message
}

impl SessionSlot {
    /// Records a failure and plans the restart.
    fn fail(&mut self, now: Instant, runtime: Duration, message: String)
        requires
            in_range(now),
        ensures
            final(self)@ == old(self)@.failed(now, runtime, message@),
    {
        self.state = match self.policy.failed(now, runtime) {
            RestartDecision::Backoff(delay) => SlotState::Backoff {
                until: now.plus(delay),
                message,
            },
            RestartDecision::Paused => SlotState::Paused { message },
        };
    }
}

/// A fault was reported for a pane that has no backend.
#[derive(Debug, Clone, Copy, PartialEq, Eq, Structural)]
pub struct UnknownPane;

impl SessionRegistry {
    pub fn new() -> (registry: SessionRegistry)
        ensures
            registry@ == (RegistryView { slots: Map::empty(), ids: SessionIds::spec_new() }),
            registry@.wf(),
    {
        let registry = SessionRegistry { slots: PaneMap::new(), ids: SessionIds::new() };
        assert(registry@.slots =~= Map::empty());
        registry
    }

    fn take(&mut self, pane: PaneId) -> (slot: Option<SessionSlot>)
        ensures
            slot is Some <==> old(self)@.slots.dom().contains(pane),
            slot matches Some(s) ==> s@ == old(self)@.slots[pane],
            final(self)@ == (RegistryView { slots: old(self)@.slots.remove(pane), ..old(self)@ }),
    {
        let slot = self.slots.take(pane);
        assert(self@.slots =~= old(self)@.slots.remove(pane));
        slot
    }

    fn put(&mut self, pane: PaneId, slot: SessionSlot)
        ensures
            final(self)@ == old(self)@.with_slot(pane, slot@),
    {
        self.slots.insert(pane, slot);
        assert(self@.slots =~= old(self)@.slots.insert(pane, slot@));
    }

    /// Gives a pane a backend, which is not started yet.
    pub fn add(&mut self, pane: PaneId, process: ProcessSpec, size: TerminalSize)
        requires
            old(self)@.wf(),
            size.safe(),
        ensures
            final(self)@ == old(self)@.with_slot(pane, SlotView::waiting(process@, size)),
            final(self)@.wf(),
    {
        self.put(
            pane,
            SessionSlot {
                process,
                size,
                generation: 0,
                policy: RestartPolicy::default(),
                state: SlotState::Starting,
            },
        );
    }

    /// The session that is running in a pane.
    pub fn get(&self, pane: PaneId) -> (session: Option<&TerminalSession>)
        ensures
            session is Some <==> self@.session(pane) is Some,
            session matches Some(s) ==> self@.session(pane) == Some(s@),
    {
        match self.slots.get(pane) {
            Some(slot) => match &slot.state {
                SlotState::Running { session, .. } => Some(session),
                _ => None,
            },
            None => None,
        }
    }

    /// The start that is running in a pane.
    pub fn running(&self, pane: PaneId) -> (identity: Option<SessionIdentity>)
        ensures
            identity == self@.current(pane),
    {
        match self.slots.get(pane) {
            Some(slot) => match &slot.state {
                SlotState::Running { identity, .. } => Some(*identity),
                _ => None,
            },
            None => None,
        }
    }

    /// The name of the backend of a pane.
    pub fn display_name(&self, pane: PaneId) -> (name: Option<&str>)
        ensures
            name is Some <==> self@.slots.dom().contains(pane),
            name matches Some(text) ==> text@ == self@.slots[pane].process.display_name,
    {
        match self.slots.get(pane) {
            Some(slot) => Some(slot.process.display_name.as_str()),
            None => None,
        }
    }

    /// Whether numbers are left to start all backends.
    pub fn can_start_all(&self) -> (can: bool)
        ensures
            can == self@.can_start_all(),
    {
        if self.ids.is_shutting_down() {
            return true;
        }
        if self.ids.next > u64::MAX - 4 {
            return false;
        }
        let left = self.has_generations(PaneId::Sidebar) && self.has_generations(PaneId::Editor)
            && self.has_generations(PaneId::Agent) && self.has_generations(PaneId::Bottom);
        assert(left == forall|pane: PaneId| #[trigger]
            self@.slots.dom().contains(pane) ==> self@.slots[pane].generation < u64::MAX) by {
            assert forall|pane: PaneId| left && #[trigger] self@.slots.dom().contains(
                pane,
            ) implies self@.slots[pane].generation < u64::MAX by {
                match pane {
                    PaneId::Sidebar => {},
                    PaneId::Editor => {},
                    PaneId::Agent => {},
                    PaneId::Bottom => {},
                }
            }
        }
        left
    }

    fn has_generations(&self, pane: PaneId) -> (has: bool)
        ensures
            has == (self@.slots.dom().contains(pane) ==> self@.slots[pane].generation < u64::MAX),
    {
        match self.slots.get(pane) {
            Some(slot) => slot.generation < u64::MAX,
            None => true,
        }
    }

    /// Sets the size of a pane's terminal, whether its backend is running or
    /// not.
    pub fn resize_slot(&mut self, pane: PaneId, size: TerminalSize) -> (effect: Option<Effect>)
        requires
            old(self)@.wf(),
            size.safe(),
        ensures
            final(self)@ == old(self)@.resized(pane, size),
            final(self)@.wf(),
            effect is Some <==> old(self)@.resize_effect(pane, size) is Some,
            effect matches Some(e) ==> old(self)@.resize_effect(pane, size) == Some(e@),
    {
        let mut slot = match self.take(pane) {
            Some(slot) => slot,
            None => {
                assert(self@ =~= old(self)@);
                return None;
            },
        };
        assert(slot@.wf());
        slot.size = size;
        let mut effect: Option<Effect> = None;
        slot.state = match slot.state {
            SlotState::Running { identity, started_at, mut session } => {
                if session.resize(size) {
                    effect = Some(Effect::Resize { pane, identity, size });
                }
                SlotState::Running { identity, started_at, session }
            },
            other => other,
        };
        self.put(pane, slot);
        assert(self@ =~= old(self)@.resized(pane, size));
        effect
    }

    /// Freezes the view of a pane on its screen.
    pub fn freeze(&mut self, pane: PaneId)
        requires
            old(self)@.wf(),
        ensures
            final(self)@ == old(self)@.frozen(pane),
            final(self)@.wf(),
    {
        if let Some(mut slot) = self.take(pane) {
            assert(slot@.wf());
            slot.state = match slot.state {
                SlotState::Running { identity, started_at, mut session } => {
                    session.begin_selection_view();
                    SlotState::Running { identity, started_at, session }
                },
                other => other,
            };
            self.put(pane, slot);
        }
        assert(self@ =~= old(self)@.frozen(pane));
    }

    /// Brings what its program draws back into the view of a pane.
    pub fn thaw(&mut self, pane: PaneId)
        requires
            old(self)@.wf(),
        ensures
            final(self)@ == old(self)@.thawed(pane),
            final(self)@.wf(),
    {
        if let Some(mut slot) = self.take(pane) {
            assert(slot@.wf());
            slot.state = match slot.state {
                SlotState::Running { identity, started_at, mut session } => {
                    session.reset_scrollback();
                    SlotState::Running { identity, started_at, session }
                },
                other => other,
            };
            self.put(pane, slot);
        }
        assert(self@ =~= old(self)@.thawed(pane));
    }

    /// Scrolls the view of a pane; tells whether it moved.
    pub fn scroll(&mut self, pane: PaneId, lines: i32) -> (moved: bool)
        requires
            old(self)@.wf(),
        ensures
            final(self)@ == old(self)@.scrolled(pane, lines as int),
            final(self)@.wf(),
            moved == match old(self)@.session(pane) {
                Some(session) => session.scroll_goal(lines as int) != screen_scrollback(
                    session.shown(),
                ),
                None => false,
            },
    {
        let mut moved: bool = false;
        if let Some(mut slot) = self.take(pane) {
            assert(slot@.wf());
            slot.state = match slot.state {
                SlotState::Running { identity, started_at, mut session } => {
                    moved = session.scroll_viewport(lines);
                    SlotState::Running { identity, started_at, session }
                },
                other => other,
            };
            self.put(pane, slot);
        }
        assert(self@ =~= old(self)@.scrolled(pane, lines as int));
        moved
    }

    /// Tells a backend of a key; tells whether it is running.
    pub fn send_key(&self, pane: PaneId, key: KeyEvent) -> (result: (bool, Option<Effect>))
        ensures
            result.0 == (self@.current(pane) is Some),
            result.1 is Some <==> self@.key_effect(pane, key) is Some,
            result.1 matches Some(e) ==> self@.key_effect(pane, key) == Some(e@),
    {
        match self.slots.get(pane) {
            Some(slot) => match &slot.state {
                SlotState::Running { identity, session, .. } => {
                    let effect = match session.send_key(key) {
                        Some(bytes) => Some(
                            Effect::Write {
                                pane,
                                identity: *identity,
                                bytes,
                                fault: BackendFault::Input,
                            },
                        ),
                        None => None,
                    };
                    (true, effect)
                },
                _ => (false, None),
            },
            None => (false, None),
        }
    }

    /// Tells a backend of a mouse event; tells whether it is running.
    pub fn send_mouse(&self, pane: PaneId, event: MouseEvent) -> (result: (bool, Option<Effect>))
        ensures
            result.0 == (self@.current(pane) is Some),
            result.1 is Some <==> self@.mouse_effect(pane, event) is Some,
            result.1 matches Some(e) ==> self@.mouse_effect(pane, event) == Some(e@),
    {
        match self.slots.get(pane) {
            Some(slot) => match &slot.state {
                SlotState::Running { identity, session, .. } => {
                    let effect = match session.send_mouse(event) {
                        Some(bytes) => Some(
                            Effect::Write {
                                pane,
                                identity: *identity,
                                bytes,
                                fault: BackendFault::Mouse,
                            },
                        ),
                        None => None,
                    };
                    (true, effect)
                },
                _ => (false, None),
            },
            None => (false, None),
        }
    }

    /// Pastes text into a backend. There is no result where none is running.
    pub fn send_paste(&self, pane: PaneId, contents: &str) -> (result: Option<
        Result<Effect, PasteError>,
    >)
        ensures
            result is Some <==> self@.current(pane) is Some,
            result matches Some(Ok(e)) ==> self@.write_effect(
                pane,
                self@.pasted(pane, contents@),
                BackendFault::Paste,
            ) == Some(e@),
            result matches Some(Err(error)) ==> {
                &&& self@.pasted(pane, contents@) is None
                &&& error is MultilineUnsupported
            },
    {
        match self.slots.get(pane) {
            Some(slot) => match &slot.state {
                SlotState::Running { identity, session, .. } => match session.send_paste(contents) {
                    Ok(bytes) => Some(
                        Ok(
                            Effect::Write {
                                pane,
                                identity: *identity,
                                bytes,
                                fault: BackendFault::Paste,
                            },
                        ),
                    ),
                    Err(error) => Some(Err(error)),
                },
                _ => None,
            },
            None => None,
        }
    }

    /// What the title of a pane says of a backend that is not running.
    pub fn status(&self, pane: PaneId, now: Instant, click_retry: bool) -> (status: Option<String>)
        ensures
            status is Some <==> self@.status_text(pane, now, click_retry) is Some,
            status matches Some(text) ==> Some(text@) == self@.status_text(pane, now, click_retry),
    {
        match self.slots.get(pane) {
            None => None,
            Some(slot) => match &slot.state {
                SlotState::Running { .. } => None,
                SlotState::Starting => Some("starting…".to_owned()),
                SlotState::Backoff { until, message } => {
                    let mut text = message.clone();
                    text.append("; retrying in ");
                    text.append(
                        decimal_text(until.saturating_duration_since(now).as_millis()).as_str(),
                    );
                    text.append("ms (");
                    text.append(retry_hint(click_retry));
                    text.append(")");
                    Some(text)
                },
                SlotState::Paused { message } => Some(
                    joined(message.as_str(), "; paused (", retry_hint(click_retry), ")"),
                ),
            },
        }
    }

    /// Reads output of a backend; the effects write the answers. Output of a
    /// session that is no longer running is dropped.
    pub fn poll_output(&mut self, pane: PaneId, identity: SessionIdentity, output: &[u8]) -> (
        effects: Vec<Effect>)
        requires
            old(self)@.wf(),
        ensures
            final(self)@ == old(self)@.read(pane, identity, output@),
            effect_views(effects@) == old(self)@.output_effects(pane, identity, output@),
            final(self)@.wf(),
    {
        let mut effects: Vec<Effect> = Vec::new();
        if self.ids.is_shutting_down() {
            assert(effect_views(effects@) =~= Seq::empty());
            return effects;
        }
        let current: bool = match self.running(pane) {
            Some(running) => running.matches(identity),
            None => false,
        };
        if !current {
            assert(effect_views(effects@) =~= Seq::empty());
            return effects;
        }
        let mut slot = match self.take(pane) {
            Some(slot) => slot,
            None => return effects,
        };
        assert(slot@.wf());
        let mut responses: Vec<String> = Vec::new();
        slot.state = match slot.state {
            SlotState::Running { identity, started_at, mut session } => {
                responses = session.poll_output(output);
                SlotState::Running { identity, started_at, session }
            },
            other => other,
        };
        self.put(pane, slot);
        assert(self@ =~= old(self)@.read(pane, identity, output@));
        let mut i: usize = 0;
        while i < responses.len()
            invariant
                i <= responses@.len(),
                effects@.len() == i,
                forall|j: int|
                    0 <= j < i ==> (#[trigger] effects@[j])@ == (EffectView::Write {
                        pane,
                        identity,
                        bytes: encode_utf8(responses@[j]@),
                        fault: BackendFault::Output,
                    }),
            decreases responses@.len() - i,
        {
            let bytes = bytes_of(responses[i].as_str());
            effects.push(Effect::Write { pane, identity, bytes, fault: BackendFault::Output });
            i += 1;
        }
        proof {
            let expected = old(self)@.output_effects(pane, identity, output@);
            let told = answers(output@, screen_cursor(self@.session(pane)->0.live()));
            assert(texts(responses@) == told);
            assert forall|j: int| 0 <= j < told.len() implies told[j] == responses@[j]@ by {
                assert(texts(responses@)[j] == responses@[j]@);
            }
            assert(effect_views(effects@) =~= expected);
        }
        effects
    }

    /// Ends a session that failed and plans its restart. A report of an earlier
    /// start is dropped: it must not end the session that took its place.
    pub fn handle_failure(
        &mut self,
        pane: PaneId,
        identity: SessionIdentity,
        now: Instant,
        message: String,
    ) -> (result: Result<Option<Effect>, UnknownPane>)
        requires
            old(self)@.wf(),
            in_range(now),
        ensures
            final(self)@ == old(self)@.faulted(pane, identity, now, message@),
            final(self)@.wf(),
            result is Err <==> !old(self)@.ids.shutting_down && !old(self)@.slots.dom().contains(
                pane,
            ),
            result matches Ok(effect) ==> match effect {
                Some(e) => old(self)@.concerned(pane, identity) && e@ == (EffectView::Terminate {
                    pane,
                    identity,
                }),
                None => !old(self)@.concerned(pane, identity),
            },
    {
        if self.ids.is_shutting_down() {
            return Ok(None);
        }
        let mut slot = match self.take(pane) {
            Some(slot) => slot,
            None => {
                assert(self@ =~= old(self)@);
                return Err(UnknownPane);
            },
        };
        assert(slot@.wf());
        let mut ended: bool = false;
        if let SlotState::Running { identity: current, started_at, .. } = &slot.state {
            if current.matches(identity) {
                let runtime = now.saturating_duration_since(*started_at);
                slot.fail(now, runtime, message);
                ended = true;
            }
        }
        self.put(pane, slot);
        assert(self@ =~= old(self)@.faulted(pane, identity, now, message@));
        if ended {
            Ok(Some(Effect::Terminate { pane, identity }))
        } else {
            Ok(None)
        }
    }

    /// Asks for a start of a pane's backend.
    pub fn spawn(&mut self, pane: PaneId) -> (effect: Option<Effect>)
        requires
            old(self)@.wf(),
            old(self)@.can_start(pane),
        ensures
            final(self)@ == old(self)@.starting(pane),
            final(self)@.wf(),
            effect is Some <==> old(self)@.start_effect(pane) is Some,
            effect matches Some(e) ==> old(self)@.start_effect(pane) == Some(e@),
    {
        if self.ids.is_shutting_down() {
            return None;
        }
        let mut slot = match self.take(pane) {
            Some(slot) => slot,
            None => {
                assert(self@ =~= old(self)@);
                return None;
            },
        };
        assert(slot@.wf());
        slot.generation = slot.generation + 1;
        let mut effect: Option<Effect> = None;
        if let Some(identity) = self.ids.allocate(slot.generation) {
            effect = Some(
                Effect::Spawn { pane, identity, process: slot.process.copy(), size: slot.size },
            );
        }
        self.put(pane, slot);
        assert(self@ =~= old(self)@.starting(pane));
        effect
    }

    /// Takes the report of a start: the process is there, or what went wrong.
    /// Tells whether the report was waited for; a process that nobody waits for
    /// has to be ended.
    pub fn spawned(
        &mut self,
        pane: PaneId,
        identity: SessionIdentity,
        now: Instant,
        error: Option<&str>,
    ) -> (accepted: bool)
        requires
            old(self)@.wf(),
            in_range(now),
        ensures
            accepted == old(self)@.expects(pane, identity),
            final(self)@ == match error {
                None => old(self)@.started(pane, identity, now),
                Some(text) => old(self)@.not_started(pane, identity, now, text@),
            },
            final(self)@.wf(),
    {
        if self.ids.is_shutting_down() {
            return false;
        }
        let mut slot = match self.take(pane) {
            Some(slot) => slot,
            None => {
                assert(self@ =~= old(self)@);
                return false;
            },
        };
        assert(slot@.wf());
        let waiting: bool = match &slot.state {
            SlotState::Running { .. } => false,
            _ => slot.generation == identity.generation,
        };
        if waiting {
            match error {
                None => {
                    let session = TerminalSession::new(
                        slot.process.display_name.as_str(),
                        slot.size,
                        SCROLLBACK_LINES,
                    );
                    slot.state = SlotState::Running { identity, started_at: now, session };
                },
                Some(text) => {
                    let message = joined(
                        "failed to start ",
                        slot.process.display_name.as_str(),
                        ": ",
                        text,
                    );
                    slot.fail(now, Duration::zero(), message);
                },
            }
        }
        self.put(pane, slot);
        assert(self@ =~= match error {
            None => old(self)@.started(pane, identity, now),
            Some(text) => old(self)@.not_started(pane, identity, now, text@),
        });
        waiting
    }

    /// Forgets the failures of a backend that is not running and starts it.
    pub fn retry(&mut self, pane: PaneId) -> (effect: Option<Effect>)
        requires
            old(self)@.wf(),
            old(self)@.can_start(pane),
        ensures
            final(self)@ == old(self)@.retried(pane),
            final(self)@.wf(),
            effect is Some <==> old(self)@.retry_effect(pane) is Some,
            effect matches Some(e) ==> old(self)@.retry_effect(pane) == Some(e@),
    {
        if self.ids.is_shutting_down() {
            return None;
        }
        let mut slot = match self.take(pane) {
            Some(slot) => slot,
            None => {
                assert(self@ =~= old(self)@);
                return None;
            },
        };
        assert(slot@.wf());
        if let SlotState::Running { .. } = &slot.state {
            self.put(pane, slot);
            assert(self@ =~= old(self)@);
            return None;
        }
        slot.policy.reset();
        slot.state = SlotState::Starting;
        self.put(pane, slot);
        assert(self@ =~= old(self)@.forgiven(pane));
        self.spawn(pane)
    }
}

impl RegistryView {
    pub open spec fn read(self, pane: PaneId, identity: SessionIdentity, output: Seq<u8>) -> RegistryView {
        if self.concerned(pane, identity) {
            self.with_session(pane, self.session(pane)->0.read(output))
        } else {
            self
        }
    }

    /// The answers to output, as they are written to the program.
    pub open spec fn output_effects(
        self,
        pane: PaneId,
        identity: SessionIdentity,
        output: Seq<u8>,
    ) -> Seq<EffectView> {
        if self.concerned(pane, identity) {
            let after = self.session(pane)->0.read(output);
            let told = answers(output, screen_cursor(after.live()));
            Seq::new(
                told.len(),
                |i: int|
                    EffectView::Write {
                        pane,
                        identity,
                        bytes: encode_utf8(told[i]),
                        fault: BackendFault::Output,
                    },
            )
        } else {
            Seq::empty()
        }
    }
}

impl RegistryView {
    pub open spec fn stopped(self, pane: PaneId) -> RegistryView {
        if self.slots.dom().contains(pane) {
            self.with_slot(
                pane,
                SlotView {
                    state: StateView::Paused { message: "shut down"@ },
                    ..self.slots[pane]
                },
            )
        } else {
            self
        }
    }

    pub open spec fn stop_effect(self, pane: PaneId) -> Option<EffectView> {
        match self.current(pane) {
            Some(identity) => Some(EffectView::Terminate { pane, identity }),
            None => None,
        }
    }

    /// The registry once it is shut down: every backend has ended and none will
    /// be started.
    pub open spec fn shut(self) -> RegistryView {
        RegistryView {
            slots: self.slots.map_values(
                |slot: SlotView|
                    SlotView { state: StateView::Paused { message: "shut down"@ }, ..slot },
            ),
            ids: SessionIds { shutting_down: true, ..self.ids },
        }
    }

    pub open spec fn shut_effects(self) -> Seq<EffectView> {
        one_or_none(self.stop_effect(PaneId::Editor)) + one_or_none(
            self.stop_effect(PaneId::Agent),
        ) + one_or_none(self.stop_effect(PaneId::Bottom)) + one_or_none(
            self.stop_effect(PaneId::Sidebar),
        )
    }

    pub open spec fn is_due(self, pane: PaneId, now: Instant) -> bool {
        self.slots.dom().contains(pane) && self.slots[pane].due(now)
    }

    pub open spec fn respawned(self, pane: PaneId, now: Instant) -> RegistryView {
        if self.is_due(pane, now) {
            self.starting(pane)
        } else {
            self
        }
    }

    pub open spec fn respawn_effect(self, pane: PaneId, now: Instant) -> Option<EffectView> {
        if self.is_due(pane, now) {
            self.start_effect(pane)
        } else {
            None
        }
    }

    /// The registry once all restarts whose time has come were asked for.
    pub open spec fn polled(self, now: Instant) -> RegistryView {
        self.respawned(PaneId::Editor, now).respawned(PaneId::Agent, now).respawned(
            PaneId::Bottom,
            now,
        ).respawned(PaneId::Sidebar, now)
    }

    pub open spec fn poll_effects(self, now: Instant) -> Seq<EffectView> {
        let first = self.respawned(PaneId::Editor, now);
        let second = first.respawned(PaneId::Agent, now);
        let third = second.respawned(PaneId::Bottom, now);
        one_or_none(self.respawn_effect(PaneId::Editor, now)) + one_or_none(
            first.respawn_effect(PaneId::Agent, now),
        ) + one_or_none(second.respawn_effect(PaneId::Bottom, now)) + one_or_none(
            third.respawn_effect(PaneId::Sidebar, now),
        )
    }

    pub open spec fn all_starting(self) -> RegistryView {
        self.starting(PaneId::Editor).starting(PaneId::Agent).starting(PaneId::Bottom).starting(
            PaneId::Sidebar,
        )
    }

    pub open spec fn all_start_effects(self) -> Seq<EffectView> {
        let first = self.starting(PaneId::Editor);
        let second = first.starting(PaneId::Agent);
        let third = second.starting(PaneId::Bottom);
        one_or_none(self.start_effect(PaneId::Editor)) + one_or_none(
            first.start_effect(PaneId::Agent),
        ) + one_or_none(second.start_effect(PaneId::Bottom)) + one_or_none(
            third.start_effect(PaneId::Sidebar),
        )
    }

    /// Every session that runs has a number that was given out.
    pub open spec fn numbered(self) -> bool {
        forall|pane: PaneId| #[trigger]
            self.current(pane) matches Some(identity) ==> identity.id.0 < self.ids.next
    }
}

impl SessionRegistry {
    fn stop(&mut self, pane: PaneId, effects: &mut Vec<Effect>)
        requires
            old(self)@.wf(),
        ensures
            final(self)@ == old(self)@.stopped(pane),
            final(self)@.wf(),
            effect_views(final(effects)@) == effect_views(old(effects)@) + one_or_none(
                old(self)@.stop_effect(pane),
            ),
    {
        let effect = match self.running(pane) {
            Some(identity) => Some(Effect::Terminate { pane, identity }),
            None => None,
        };
        push_effect(effects, effect);
        if let Some(mut slot) = self.take(pane) {
            slot.state = SlotState::Paused { message: "shut down".to_owned() };
            self.put(pane, slot);
        }
        assert(self@ =~= old(self)@.stopped(pane));
    }

    /// Ends all backends for good.
    pub fn shutdown(&mut self) -> (effects: Vec<Effect>)
        requires
            old(self)@.wf(),
        ensures
            final(self)@ == old(self)@.shut(),
            final(self)@.wf(),
            effect_views(effects@) == old(self)@.shut_effects(),
    {
        let mut effects: Vec<Effect> = Vec::new();
        assert(effect_views(effects@) =~= Seq::empty());
        self.ids.shutdown();
        assert(self@.slots == old(self)@.slots);
        self.stop(PaneId::Editor, &mut effects);
        self.stop(PaneId::Agent, &mut effects);
        self.stop(PaneId::Bottom, &mut effects);
        self.stop(PaneId::Sidebar, &mut effects);
        assert(effect_views(effects@) =~= old(self)@.shut_effects());
        assert(self@ =~= old(self)@.shut());
        effects
    }

    fn respawn(&mut self, pane: PaneId, now: Instant, effects: &mut Vec<Effect>)
        requires
            old(self)@.wf(),
            old(self)@.can_start(pane),
        ensures
            final(self)@ == old(self)@.respawned(pane, now),
            final(self)@.wf(),
            effect_views(final(effects)@) == effect_views(old(effects)@) + one_or_none(
                old(self)@.respawn_effect(pane, now),
            ),
    {
        let due: bool = match self.slots.get(pane) {
            Some(slot) => match &slot.state {
                SlotState::Backoff { until, .. } => now.nanos >= until.nanos,
                _ => false,
            },
            None => false,
        };
        let effect = if due {
            self.spawn(pane)
        } else {
            None
        };
        push_effect(effects, effect);
    }

    /// Asks for the restarts whose time has come.
    pub fn poll(&mut self, now: Instant) -> (effects: Vec<Effect>)
        requires
            old(self)@.wf(),
            old(self)@.can_start_all(),
        ensures
            final(self)@ == old(self)@.polled(now),
            final(self)@.wf(),
            effect_views(effects@) == old(self)@.poll_effects(now),
    {
        let mut effects: Vec<Effect> = Vec::new();
        assert(effect_views(effects@) =~= Seq::empty());
        self.respawn(PaneId::Editor, now, &mut effects);
        self.respawn(PaneId::Agent, now, &mut effects);
        self.respawn(PaneId::Bottom, now, &mut effects);
        self.respawn(PaneId::Sidebar, now, &mut effects);
        assert(effect_views(effects@) =~= old(self)@.poll_effects(now));
        effects
    }

    /// Asks for a start of every backend.
    pub fn spawn_all(&mut self) -> (effects: Vec<Effect>)
        requires
            old(self)@.wf(),
            old(self)@.can_start_all(),
        ensures
            final(self)@ == old(self)@.all_starting(),
            final(self)@.wf(),
            effect_views(effects@) == old(self)@.all_start_effects(),
    {
        let mut effects: Vec<Effect> = Vec::new();
        assert(effect_views(effects@) =~= Seq::empty());
        let editor = self.spawn(PaneId::Editor);
        push_effect(&mut effects, editor);
        let agent = self.spawn(PaneId::Agent);
        push_effect(&mut effects, agent);
        let bottom = self.spawn(PaneId::Bottom);
        push_effect(&mut effects, bottom);
        let sidebar = self.spawn(PaneId::Sidebar);
        push_effect(&mut effects, sidebar);
        assert(effect_views(effects@) =~= old(self)@.all_start_effects());
        effects
    }
}

/// A report that does not belong to the session that is running changes
/// nothing, however late it comes.
pub proof fn stale_reports_are_dropped(
    registry: RegistryView,
    pane: PaneId,
    stale: SessionIdentity,
    now: Instant,
    message: Seq<char>,
    output: Seq<u8>,
)
    requires
        registry.current(pane) != Some(stale),
    ensures
        registry.faulted(pane, stale, now, message) == registry,
        registry.read(pane, stale, output) == registry,
        registry.output_effects(pane, stale, output).len() == 0,
{
}

/// After the shutdown nothing is running, and nothing is started by a retry, a
/// planned restart or a late report.
pub proof fn shutdown_is_final(
    registry: RegistryView,
    pane: PaneId,
    identity: SessionIdentity,
    now: Instant,
)
    ensures
        registry.shut().current(pane) is None,
        registry.shut().retried(pane) == registry.shut(),
        registry.shut().retry_effect(pane) is None,
        registry.shut().polled(now) == registry.shut(),
        registry.shut().poll_effects(now).len() == 0,
        registry.shut().started(pane, identity, now) == registry.shut(),
{
}

/// A backend that failed is not running, and the other panes do not notice.
pub proof fn faults_stay_in_their_pane(
    registry: RegistryView,
    pane: PaneId,
    other: PaneId,
    identity: SessionIdentity,
    now: Instant,
    message: Seq<char>,
)
    requires
        registry.concerned(pane, identity),
        other != pane,
    ensures
        registry.faulted(pane, identity, now, message).current(pane) is None,
        registry.faulted(pane, identity, now, message).session(other) == registry.session(other),
        registry.faulted(pane, identity, now, message).current(other) == registry.current(other),
{
}

/// A planned restart is asked for exactly when its time has come.
pub proof fn restarts_wait_for_their_time(registry: RegistryView, pane: PaneId, now: Instant)
    requires
        !registry.ids.shutting_down,
        registry.slots.dom().contains(pane),
        registry.slots[pane].state is Backoff,
    ensures
        registry.respawn_effect(pane, now) is Some <==> now.nanos
            >= registry.slots[pane].state->until.nanos,
{
}

/// No two sessions have the same number: a start gets one that no session that
/// runs has, and this stays so.
pub proof fn session_numbers_are_unique(
    registry: RegistryView,
    pane: PaneId,
    other: PaneId,
    now: Instant,
)
    requires
        registry.numbered(),
        registry.starts(pane),
        registry.can_start(pane),
    ensures
        registry.starting(pane).numbered(),
        registry.start_effect(pane) matches Some(EffectView::Spawn { identity, .. }) && {
            &&& registry.current(other) matches Some(running) ==> running.id != identity.id
            &&& registry.starting(pane).started(pane, identity, now).numbered()
        },
{
    let after = registry.starting(pane);
    let identity = SessionIdentity {
        id: SessionId(registry.ids.next),
        generation: (registry.slots[pane].generation + 1) as u64,
    };
    assert forall|p: PaneId|
        (#[trigger] after.current(p) matches Some(running) ==> running.id.0 < after.ids.next) by {
        assert(after.current(p) == registry.current(p));
    }
    let running = after.started(pane, identity, now);
    assert forall|p: PaneId|
        (#[trigger] running.current(p) matches Some(known) ==> known.id.0 < running.ids.next) by {
        if p != pane {
            assert(running.current(p) == after.current(p));
        } else if !after.expects(pane, identity) {
            assert(running.current(p) == after.current(p));
        }
    }
}

} // verus!
