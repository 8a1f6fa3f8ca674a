//! The runtime of the workbench.
//!
//! Events and reports go in, and what is to be done about them comes out as
//! effects. Carrying them out, in order, is left to the caller, who reports how
//! it went.

use vstd::prelude::*;
use vstd::string::*;

use crate::app::command::LaunchMode;
use crate::app::effect::{effect_views, one_or_none, push_effect, BackendFault, Effect};
use crate::app::gesture::{
    activated_layout_handle, canceled_layout_config, edge_scroll_direction, layout_drag_config,
    mouse_at, pointer_content_position, PendingLayoutGesture, PendingMouseGesture,
};
use crate::app::machine::{
    copies, pastes, quits, LoadView, RuntimeView, EDGE_SCROLL_LINES, EDGE_SCROLL_NANOS,
    MOUSE_WHEEL_LINES,
};
use crate::app::registry::{fault_message, in_range, SessionRegistry, UnknownPane};
use crate::app::supervisor::SessionIdentity;
use crate::backend::agent::PiBackend;
use crate::backend::editor::NvimBackend;
use crate::backend::shell::ShellBackend;
use crate::backend::{checked_process_spec, BackendKind, BackendSpec};
use crate::event::{KeyCode, KeyEvent, MouseButton, MouseEvent, MouseEventKind};
use crate::geometry::Rect;
use crate::terminal::process::{ProcessSpec, ProcessView};
use crate::text::chars_of;
use crate::time::{Duration, Instant};
use crate::ui::terminal::terminal_content_size;
use crate::workbench::hit_test::{hit_test, LayoutHandle, MouseTarget};
use crate::workbench::layout::{
    WorkbenchLayout, WorkbenchLayoutConfig, MIN_TERMINAL_HEIGHT, MIN_TERMINAL_WIDTH,
};
use crate::workbench::pane::PaneId;
use crate::workbench::persistence::LayoutIntent;
use crate::workbench::state::WorkbenchState;
use crate::workspace::Workspace;

verus! {

#[derive(Debug)]
pub enum Event {
    Key(KeyEvent),
    Paste(String),
    Mouse(MouseEvent),
    /// An event that the workbench does not act on.
    Other,
}

/// What became of a layout that was kept.
#[derive(Debug)]
pub enum LayoutLoad {
    /// Layouts are not kept.
    Unused,
    /// Layouts cannot be kept.
    Unavailable(String),
    Missing,
    Found(LayoutIntent),
    /// A layout was kept but is of no use.
    Ignored(String),
}

impl View for LayoutLoad {
    type V = LoadView;

    open spec fn view(&self) -> LoadView {
        match self {
            LayoutLoad::Unused => LoadView::Unused,
            LayoutLoad::Unavailable(error) => LoadView::Unavailable(error@),
            LayoutLoad::Missing => LoadView::Missing,
            LayoutLoad::Found(intent) => LoadView::Found(*intent),
            LayoutLoad::Ignored(error) => LoadView::Ignored(error@),
        }
    }
}

pub struct AppRuntime {
    pub launch_mode: LaunchMode,
    pub workbench: WorkbenchState,
    pub layout_config: WorkbenchLayoutConfig,
    pub layout: Option<WorkbenchLayout>,
    pub sessions: SessionRegistry,
    pub status: Option<String>,
    pub viewport_area: Rect,
    pub pending_mouse: Option<PendingMouseGesture>,
    pub pending_layout: Option<PendingLayoutGesture>,
    pub keeps_layout: bool,
    pub outbox: Vec<Effect>,
}

impl View for AppRuntime {
    type V = RuntimeView;

    open spec fn view(&self) -> RuntimeView {
        RuntimeView {
            mode: self.launch_mode,
            workbench: self.workbench@,
            config: self.layout_config,
            layout: self.layout,
            sessions: self.sessions@,
            status: match self.status {
                Some(status) => Some(status@),
                None => None,
            },
            viewport: self.viewport_area,
            mouse: self.pending_mouse,
            gesture: self.pending_layout,
            keeps_layout: self.keeps_layout,
            outbox: effect_views(self.outbox@),
        }
    }
}

pub fn is_quit(key: KeyEvent) -> (result: bool)
    ensures
        result == quits(key),
{
    key.code == KeyCode::Char('q') && key.modifiers.control
}

pub fn should_copy_selection(key: KeyEvent, has_selection: bool) -> (result: bool)
    ensures
        result == copies(key, has_selection),
{
    key.code == KeyCode::Char('c') && (key.modifiers.command || (has_selection
        && key.modifiers.control))
}

pub fn is_system_paste(key: KeyEvent) -> (result: bool)
    ensures
        result == pastes(key),
{
    key.code == KeyCode::Char('v') && key.modifiers.command
}

fn starts_with(text: &str, prefix: &str) -> (result: bool)
    ensures
        result == prefix@.is_prefix_of(text@),
{
    let chars = chars_of(text);
    let wanted = chars_of(prefix);
    if wanted.len() > chars.len() {
        return false;
    }
    let mut i: usize = 0;
    while i < wanted.len()
        invariant
            chars@ == text@,
            wanted@ == prefix@,
            i <= prefix@.len() <= text@.len(),
            forall|j: int| 0 <= j < i ==> prefix@[j] == text@[j],
        decreases prefix@.len() - i,
    {
        if wanted[i] != chars[i] {
            assert(text@.subrange(0, prefix@.len() as int)[i as int] != prefix@[i as int]);
            return false;
        }
        i += 1;
    }
    assert(text@.subrange(0, prefix@.len() as int) =~= prefix@);
    true
}

fn said(prefix: &str, error: &str) -> (text: String)
    ensures
        text@ == prefix@ + error@,
{
    let mut text = prefix.to_owned();
    text.append(error);
    text
}

/// What a process is to be, if it is known.
pub open spec fn process_view(process: Option<ProcessSpec>) -> Option<ProcessView> {
    match process {
        Some(process) => Some(process@),
        None => None,
    }
}

/// The process of the agent: the one that its profile asks for, or the agent as
/// it is where there is no profile.
pub open spec fn agent_process(profile: Option<ProcessView>, root: Seq<u8>) -> ProcessView {
    match profile {
        Some(process) => process,
        None => PiBackend.spec_process(root),
    }
}

fn agent_spec(agent: Option<ProcessSpec>, workspace: &Workspace) -> (process: ProcessSpec)
    ensures
        process@ == agent_process(process_view(agent), workspace.root@),
{
    match agent {
        Some(process) => process,
        None => checked_process_spec(&PiBackend, BackendKind::Agent, workspace),
    }
}

impl AppRuntime {
    /// Opens the workbench. The layout that was kept is in place before the
    /// viewport is divided and the backends are asked for.
    pub fn new(
        area: Rect,
        load: LayoutLoad,
        workspace: &Workspace,
        shell: &ShellBackend,
        agent: Option<ProcessSpec>,
    ) -> (runtime: AppRuntime)
        ensures
            runtime@ == RuntimeView::opened(
                area,
                load@,
                NvimBackend.spec_process(workspace.root@),
                agent_process(process_view(agent), workspace.root@),
                shell.spec_process(workspace.root@),
            ),
            runtime@.wf(),
    {
        let mut workbench = WorkbenchState::default();
        let mut layout_config = WorkbenchLayoutConfig::default();
        let mut status: Option<String> = None;
        let mut keeps_layout: bool = true;
        match &load {
            LayoutLoad::Found(intent) => {
                layout_config = intent.config;
                workbench.set_manual_collapse(intent.sidebar_collapsed, intent.bottom_collapsed);
            },
            LayoutLoad::Missing => {},
            LayoutLoad::Ignored(error) => {
                status = Some(said("saved layout ignored: ", error.as_str()));
            },
            LayoutLoad::Unavailable(error) => {
                status = Some(said("layout persistence unavailable: ", error.as_str()));
                keeps_layout = false;
            },
            LayoutLoad::Unused => {
                keeps_layout = false;
            },
        }
        workbench.update_auto_collapse(area, layout_config);
        let layout = WorkbenchLayout::calculate_visible(
            area,
            layout_config,
            workbench.visibility(),
        );
        let mut sessions = SessionRegistry::new();
        sessions.add(
            PaneId::Editor,
            checked_process_spec(&NvimBackend, BackendKind::Editor, workspace),
            terminal_content_size(layout.editor),
        );
        sessions.add(
            PaneId::Agent,
            agent_spec(agent, workspace),
            terminal_content_size(layout.agent),
        );
        sessions.add(
            PaneId::Bottom,
            checked_process_spec(shell, BackendKind::Shell, workspace),
            terminal_content_size(layout.bottom),
        );
        let outbox = sessions.spawn_all();
        AppRuntime {
            launch_mode: LaunchMode::Workbench,
            workbench,
            layout_config,
            layout: Some(layout),
            sessions,
            status,
            viewport_area: area,
            pending_mouse: None,
            pending_layout: None,
            keeps_layout,
            outbox,
        }
    }

    /// Opens a single backend that has the viewport for itself.
    pub fn single(
        launch_mode: LaunchMode,
        area: Rect,
        workspace: &Workspace,
        shell: &ShellBackend,
        agent: Option<ProcessSpec>,
    ) -> (runtime: AppRuntime)
        requires
            launch_mode != LaunchMode::Workbench,
        ensures
            runtime@ == RuntimeView::opened_single(
                launch_mode,
                area,
                match launch_mode {
                    LaunchMode::Nvim => NvimBackend.spec_process(workspace.root@),
                    LaunchMode::Pi => agent_process(process_view(agent), workspace.root@),
                    _ => shell.spec_process(workspace.root@),
                },
            ),
            runtime@.wf(),
    {
        let process = match launch_mode {
            LaunchMode::Nvim => checked_process_spec(&NvimBackend, BackendKind::Editor, workspace),
            LaunchMode::Pi => agent_spec(agent, workspace),
            _ => checked_process_spec(shell, BackendKind::Shell, workspace),
        };
        let mut sessions = SessionRegistry::new();
        sessions.add(PaneId::Editor, process, terminal_content_size(area));
        let outbox = sessions.spawn_all();
        AppRuntime {
            launch_mode,
            workbench: WorkbenchState::default(),
            layout_config: WorkbenchLayoutConfig::default(),
            layout: None,
            sessions,
            status: None,
            viewport_area: area,
            pending_mouse: None,
            pending_layout: None,
            keeps_layout: false,
            outbox,
        }
    }

    /// Hands over what is to be done.
    pub fn take_effects(&mut self) -> (effects: Vec<Effect>)
        ensures
            effect_views(effects@) == old(self)@.outbox,
            final(self)@ == (RuntimeView { outbox: Seq::empty(), ..old(self)@ }),
    {
        let mut effects: Vec<Effect> = Vec::new();
        std::mem::swap(&mut effects, &mut self.outbox);
        assert(effect_views(self.outbox@) =~= Seq::empty());
        effects
    }

    fn emit(&mut self, effect: Option<Effect>)
        ensures
            final(self)@ == old(self)@.emitting(
                one_or_none(
                    match effect {
                        Some(effect) => Some(effect@),
                        None => None,
                    },
                ),
            ),
    {
        push_effect(&mut self.outbox, effect);
    }

    fn emit_all(&mut self, effects: Vec<Effect>)
        ensures
            final(self)@ == old(self)@.emitting(effect_views(effects@)),
    {
        let mut effects = effects;
        let ghost all = effects@;
        self.outbox.append(&mut effects);
        assert(effect_views(self.outbox@) =~= effect_views(old(self).outbox@) + effect_views(all));
    }

    fn set_status(&mut self, message: String)
        ensures
            final(self)@ == old(self)@.saying(Some(message@)),
    {
        self.status = Some(message);
    }

    /// Asks for the restarts whose time has come.
    pub fn poll_sessions_at(&mut self, now: Instant)
        requires
            old(self)@.wf(),
            old(self)@.sessions.can_start_all(),
        ensures
            final(self)@ == (RuntimeView {
                sessions: old(self)@.sessions.polled(now),
                ..old(self)@
            }).emitting(old(self)@.sessions.poll_effects(now)),
            final(self)@.wf(),
    {
        let effects = self.sessions.poll(now);
        self.emit_all(effects);
    }

    /// Reads output of a backend.
    pub fn session_output(&mut self, pane: PaneId, identity: SessionIdentity, output: &[u8])
        requires
            old(self)@.wf(),
        ensures
            final(self)@ == (RuntimeView {
                sessions: old(self)@.sessions.read(pane, identity, output@),
                ..old(self)@
            }).emitting(old(self)@.sessions.output_effects(pane, identity, output@)),
            final(self)@.wf(),
    {
        let effects = self.sessions.poll_output(pane, identity, output);
        self.emit_all(effects);
    }

    /// Takes the report of a start; tells whether it was waited for. A process
    /// that nobody waits for has to be ended.
    pub fn session_spawned(
        &mut self,
        pane: PaneId,
        identity: SessionIdentity,
        now: Instant,
        error: Option<&str>,
    ) -> (accepted: bool)
        requires
            old(self)@.wf(),
            in_range(now),
        ensures
            accepted == old(self)@.sessions.expects(pane, identity),
            final(self)@ == (RuntimeView {
                sessions: match error {
                    None => old(self)@.sessions.started(pane, identity, now),
                    Some(text) => old(self)@.sessions.not_started(pane, identity, now, text@),
                },
                ..old(self)@
            }),
            final(self)@.wf(),
    {
        self.sessions.spawned(pane, identity, now, error)
    }

    /// Takes the report that a backend failed or ended.
    pub fn session_failed(
        &mut self,
        pane: PaneId,
        identity: SessionIdentity,
        fault: BackendFault,
        now: Instant,
        error: &str,
    ) -> (result: Result<(), UnknownPane>)
        requires
            old(self)@.wf(),
            in_range(now),
        ensures
            final(self)@ == old(self)@.faulted(pane, identity, fault, now, error@),
            final(self)@.wf(),
            result is Err <==> !old(self)@.sessions.ids.shutting_down
                && !old(self)@.sessions.slots.dom().contains(pane),
    {
        let message = fault_message(fault, error);
        match self.sessions.handle_failure(pane, identity, now, message) {
            Ok(effect) => {
                self.emit(effect);
                assert(self@ =~= old(self)@.faulted(pane, identity, fault, now, error@));
                Ok(())
            },
            Err(error) => Err(error),
        }
    }

    /// Takes the report of a write.
    pub fn write_finished(
        &mut self,
        pane: PaneId,
        identity: SessionIdentity,
        fault: BackendFault,
        now: Instant,
        error: Option<&str>,
    ) -> (result: Result<(), UnknownPane>)
        requires
            old(self)@.wf(),
            in_range(now),
        ensures
            final(self)@.wf(),
            error is None ==> final(self)@ == old(self)@.written(fault) && result is Ok,
            error matches Some(text) ==> {
                &&& result is Err <==> !old(self)@.sessions.ids.shutting_down
                    && !old(self)@.sessions.slots.dom().contains(pane)
                &&& result is Ok ==> final(self)@ == old(self)@.not_written(
                    pane,
                    identity,
                    fault,
                    now,
                    text@,
                )
                &&& result is Err ==> final(self)@ == old(self)@
            },
    {
        match error {
            None => {
                if fault == BackendFault::Paste {
                    self.status = None;
                }
                Ok(())
            },
            Some(text) => {
                match self.session_failed(pane, identity, fault, now, text) {
                    Ok(()) => {},
                    Err(error) => return Err(error),
                }
                if fault == BackendFault::Paste {
                    self.set_status("paste failed; backend will restart".to_owned());
                }
                Ok(())
            },
        }
    }

    /// Ends all backends and every gesture.
    pub fn shutdown(&mut self)
        requires
            old(self)@.wf(),
        ensures
            final(self)@ == old(self)@.shut(),
            final(self)@.wf(),
    {
        self.pending_mouse = None;
        self.cancel_layout_gesture();
        let effects = self.sessions.shutdown();
        self.emit_all(effects);
    }

    pub fn resize(&mut self, area: Rect)
        requires
            old(self)@.wf(),
        ensures
            final(self)@ == old(self)@.laid_out(area, true),
            final(self)@.wf(),
    {
        self.resize_internal(area, true)
    }

    fn resize_pane(&mut self, pane: PaneId, area: Rect)
        requires
            old(self)@.wf(),
        ensures
            final(self)@ == old(self)@.with_room(pane, area),
            final(self)@.wf(),
    {
        if area.width >= MIN_TERMINAL_WIDTH && area.height >= MIN_TERMINAL_HEIGHT {
            let effect = self.sessions.resize_slot(pane, terminal_content_size(area));
            self.emit(effect);
        }
    }

    fn resize_internal(&mut self, area: Rect, clear_selection: bool)
        requires
            old(self)@.wf(),
        ensures
            final(self)@ == old(self)@.laid_out(area, clear_selection),
            final(self)@.wf(),
    {
        if self.viewport_area != area {
            self.cancel_layout_gesture();
            self.viewport_area = area;
        }
        if self.launch_mode.is_workbench() {
            self.workbench.update_auto_collapse(area, self.layout_config);
            let layout = WorkbenchLayout::calculate_visible(
                area,
                self.layout_config,
                self.workbench.visibility(),
            );
            let unchanged: bool = match self.layout {
                Some(known) => known == layout,
                None => false,
            };
            if !unchanged {
                self.pending_mouse = None;
                if clear_selection {
                    self.clear_selection();
                }
            }
            self.resize_pane(PaneId::Editor, layout.editor);
            self.resize_pane(PaneId::Agent, layout.agent);
            self.resize_pane(PaneId::Bottom, layout.bottom);
            self.layout = Some(layout);
        } else {
            let effect = self.sessions.resize_slot(PaneId::Editor, terminal_content_size(area));
            self.emit(effect);
        }
    }

    fn cancel_layout_gesture(&mut self)
        ensures
            final(self)@ == old(self)@.canceled(),
    {
        if let Some(config) = canceled_layout_config(&mut self.pending_layout) {
            self.layout_config = config;
        }
    }

    fn input_pane(&self) -> (pane: PaneId)
        ensures
            pane == self@.input_pane(),
    {
        if self.launch_mode.is_workbench() {
            self.workbench.focused_pane()
        } else {
            PaneId::Editor
        }
    }

    fn retry(&mut self, pane: PaneId)
        requires
            old(self)@.wf(),
            old(self)@.sessions.can_start(pane),
        ensures
            final(self)@ == old(self)@.retried(pane),
            final(self)@.wf(),
    {
        let effect = self.sessions.retry(pane);
        self.emit(effect);
    }

    /// Acts on an event; tells whether the workbench stays open.
    pub fn handle_event(&mut self, event: Event, now: Instant) -> (open: bool)
        requires
            old(self)@.wf(),
            old(self)@.sessions.can_start_all(),
            in_range(now),
        ensures
            final(self)@.wf(),
            match event {
                Event::Key(key) => final(self)@ == old(self)@.key_pressed(key) && open == !quits(
                    key,
                ),
                Event::Paste(text) => final(self)@ == old(self)@.paste_arrived(text@) && open,
                Event::Mouse(mouse) => open && final(self)@ == if old(self)@.mode
                    == LaunchMode::Workbench {
                    old(self)@.mouse_event(mouse, now)
                } else {
                    old(self)@
                },
                Event::Other => final(self)@ == old(self)@ && open,
            },
    {
        match event {
            Event::Key(key) => self.handle_key(key),
            Event::Paste(contents) => {
                self.pending_mouse = None;
                self.cancel_layout_gesture();
                self.clear_selection();
                self.paste_into_focused(contents.as_str());
                true
            },
            Event::Mouse(mouse) => {
                if self.launch_mode.is_workbench() {
                    self.handle_mouse_event(mouse, now);
                }
                true
            },
            Event::Other => true,
        }
    }

    fn handle_key(&mut self, key: KeyEvent) -> (open: bool)
        requires
            old(self)@.wf(),
            old(self)@.sessions.can_start_all(),
        ensures
            final(self)@ == old(self)@.key_pressed(key),
            final(self)@.wf(),
            open == !quits(key),
    {
        self.pending_mouse = None;
        self.cancel_layout_gesture();
        if is_quit(key) {
            self.shutdown();
            return false;
        }
        if should_copy_selection(key, self.workbench.selection().is_some()) {
            self.copy_selection();
            return true;
        }
        self.clear_selection();
        if is_system_paste(key) {
            self.emit(Some(Effect::ReadClipboard));
            return true;
        }
        self.send_key(key);
        true
    }

    /// Tells the focused backend of a key, or starts it where it is not running.
    fn send_key(&mut self, key: KeyEvent)
        requires
            old(self)@.wf(),
            old(self)@.sessions.can_start_all(),
        ensures
            final(self)@ == old(self)@.key_delivered(key),
            final(self)@.wf(),
    {
        let pane = self.input_pane();
        let (delivered, effect) = self.sessions.send_key(pane, key);
        if delivered {
            self.emit(effect);
        } else {
            self.retry(pane);
        }
    }

    /// Puts what is selected on the clipboard.
    pub fn copy_selection(&mut self)
        requires
            old(self)@.wf(),
        ensures
            final(self)@ == old(self)@.copied(),
            final(self)@.wf(),
    {
        let selection = match self.workbench.selection() {
            Some(selection) => selection,
            None => return,
        };
        let contents = match self.sessions.get(selection.pane()) {
            Some(session) => session.selected_text(selection.range()),
            None => {
                self.set_status("selected pane is unavailable".to_owned());
                return;
            },
        };
        self.emit(Some(Effect::CopyText(contents)));
    }

    /// Asks for what is on the clipboard, to paste it into the focused pane.
    pub fn paste_system_clipboard(&mut self)
        requires
            old(self)@.wf(),
        ensures
            final(self)@ == old(self)@.paste_asked(),
            final(self)@.wf(),
    {
        self.clear_selection();
        self.emit(Some(Effect::ReadClipboard));
    }

    /// Takes a press of the second button: over the content of a pane it ends
    /// what was begun with the first and moves the focus. Tells whether it was
    /// over the content of a pane.
    pub fn press_secondary(&mut self, column: u16, row: u16) -> (over_content: bool)
        requires
            old(self)@.wf(),
        ensures
            over_content == (old(self)@.content_under(column, row) is Some),
            final(self)@ == old(self)@.secondary_pressed(column, row),
            final(self)@.wf(),
    {
        let layout = match self.layout {
            Some(layout) => layout,
            None => return false,
        };
        match hit_test(layout, column, row) {
            Some(MouseTarget::Content { pane, .. }) => {
                self.pending_mouse = None;
                self.cancel_layout_gesture();
                self.workbench.focus_pane(pane);
                true
            },
            _ => false,
        }
    }

    /// Takes the report that text was put on the clipboard.
    pub fn copy_finished(&mut self, error: Option<&str>)
        ensures
            final(self)@ == old(self)@.saying(
                match error {
                    Some(text) => Some("clipboard error: "@ + text@),
                    None => None,
                },
            ),
    {
        match error {
            Some(text) => {
                self.set_status(said("clipboard error: ", text));
            },
            None => {
                self.status = None;
            },
        }
    }

    fn clear_selection(&mut self)
        requires
            old(self)@.sessions.wf(),
        ensures
            final(self)@ == old(self)@.unselected(),
            final(self)@.sessions.wf(),
            old(self)@.wf() ==> final(self)@.wf(),
    {
        if let Some(selection) = self.workbench.selection() {
            self.sessions.thaw(selection.pane());
        }
        self.workbench.clear_selection();
    }

    fn handle_mouse_event(&mut self, event: MouseEvent, now: Instant)
        requires
            old(self)@.wf(),
            old(self)@.sessions.can_start_all(),
            in_range(now),
        ensures
            final(self)@ == old(self)@.mouse_event(event, now),
            final(self)@.wf(),
    {
        let layout = match self.layout {
            Some(layout) => layout,
            None => return,
        };
        let target = hit_test(layout, event.column, event.row);
        match event.kind {
            MouseEventKind::Down(MouseButton::Left) => {
                self.press_mouse(layout, target, event, now);
            },
            MouseEventKind::Drag(MouseButton::Left) => {
                self.drag_mouse(event);
            },
            MouseEventKind::Up(MouseButton::Left) => {
                self.release_mouse(target, event);
            },
            MouseEventKind::ScrollUp
            | MouseEventKind::ScrollDown
            | MouseEventKind::ScrollLeft
            | MouseEventKind::ScrollRight => {
                self.route_mouse_wheel(target, event);
            },
            MouseEventKind::Moved => {
                self.forward_mouse_motion(target, event);
            },
            _ => {},
        }
    }

    fn press_mouse(
        &mut self,
        layout: WorkbenchLayout,
        target: Option<MouseTarget>,
        event: MouseEvent,
        now: Instant,
    )
        requires
            old(self)@.wf(),
            in_range(now),
        ensures
            final(self)@ == old(self)@.pressed(layout, target, event, now),
            final(self)@.wf(),
    {
        self.cancel_layout_gesture();
        let target = match target {
            Some(target) => target,
            None => return,
        };
        match target {
            MouseTarget::Handle(handle) => {
                self.pending_mouse = None;
                self.pending_layout = Some(
                    PendingLayoutGesture::Handle { handle, origin: event, moved: false },
                );
            },
            MouseTarget::Divider(divider) => {
                self.pending_mouse = None;
                self.pending_layout = Some(
                    PendingLayoutGesture::Drag {
                        divider,
                        origin: event,
                        layout,
                        config: self.layout_config,
                    },
                );
            },
            _ => {
                self.clear_selection();
                if let Some(pane) = target.pane() {
                    self.workbench.focus_pane(pane);
                }
                self.pending_mouse = Some(
                    PendingMouseGesture {
                        target,
                        down: event,
                        current: event,
                        dragging: false,
                        next_edge_scroll: now.plus(Duration { nanos: EDGE_SCROLL_NANOS }),
                    },
                );
            },
        }
    }

    fn drag_mouse(&mut self, event: MouseEvent)
        requires
            old(self)@.wf(),
        ensures
            final(self)@ == old(self)@.dragged_to(event),
            final(self)@.wf(),
    {
        match self.pending_layout {
            Some(PendingLayoutGesture::Handle { handle, origin, moved }) => {
                let moved: bool = moved || event.column != origin.column || event.row != origin.row;
                self.pending_layout = Some(PendingLayoutGesture::Handle { handle, origin, moved });
                return;
            },
            Some(PendingLayoutGesture::Drag { .. }) => {
                self.update_layout_drag(event);
                return;
            },
            None => {},
        }
        let mut pending = match self.pending_mouse {
            Some(pending) => pending,
            None => return,
        };
        if !pending.dragging {
            pending.dragging = self.begin_mouse_selection(pending.target);
        }
        pending.current = event;
        if pending.dragging {
            self.update_mouse_selection(event);
        }
        self.pending_mouse = Some(pending);
    }

    fn release_mouse(&mut self, target: Option<MouseTarget>, event: MouseEvent)
        requires
            old(self)@.wf(),
            old(self)@.sessions.can_start_all(),
        ensures
            final(self)@ == old(self)@.released(target, event),
            final(self)@.wf(),
    {
        if let Some(gesture) = self.pending_layout.take() {
            assert(self@ == (RuntimeView { gesture: None, ..old(self)@ }));
            self.finish_layout_gesture(gesture, target);
            return;
        }
        assert(self@ == old(self)@);
        let pending = match self.pending_mouse.take() {
            Some(pending) => pending,
            None => return,
        };
        assert(self@ == (RuntimeView { mouse: None, ..old(self)@ }));
        if pending.dragging {
            self.update_mouse_selection(event);
        } else {
            self.finish_mouse_click(pending, event);
        }
    }

    fn finish_layout_gesture(
        &mut self,
        gesture: PendingLayoutGesture,
        target: Option<MouseTarget>,
    )
        requires
            old(self)@.wf(),
        ensures
            final(self)@ == old(self)@.gesture_done(gesture, target),
            final(self)@.wf(),
    {
        match gesture {
            PendingLayoutGesture::Handle { .. } => {
                if let Some(handle) = activated_layout_handle(gesture, target) {
                    match handle {
                        LayoutHandle::Sidebar => {
                            self.workbench.toggle_sidebar();
                        },
                        LayoutHandle::Bottom => {
                            self.workbench.toggle_bottom();
                        },
                    }
                    self.resize_internal(self.viewport_area, false);
                    self.save_layout_intent();
                }
            },
            PendingLayoutGesture::Drag { .. } => {
                // Drag motion updates the preview only. Mouse-up is
                // the sole divider commit point.
                self.save_layout_intent();
            },
        }
    }

    fn update_layout_drag(&mut self, event: MouseEvent)
        requires
            old(self)@.wf(),
        ensures
            final(self)@ == old(self)@.layout_dragged(event),
            final(self)@.wf(),
    {
        if let Some(PendingLayoutGesture::Drag { divider, origin, layout, config }) =
            self.pending_layout {
            self.layout_config = layout_drag_config(divider, origin, event, layout, config);
            self.resize_internal(self.viewport_area, false);
        }
    }

    fn begin_mouse_selection(&mut self, target: MouseTarget) -> (begun: bool)
        requires
            old(self)@.wf(),
        ensures
            begun == old(self)@.can_select(target),
            final(self)@ == old(self)@.selecting(target),
            final(self)@.wf(),
    {
        let (pane, row, col): (PaneId, u16, u16) = match target {
            MouseTarget::Content { pane, row, col } => (pane, row, col),
            _ => return false,
        };
        if self.sessions.get(pane).is_none() {
            return false;
        }
        self.sessions.freeze(pane);
        if let Some(session) = self.sessions.get(pane) {
            let anchor = session.viewport_point(row, col);
            self.workbench.begin_selection(anchor);
        }
        self.status = None;
        true
    }

    fn update_mouse_selection(&mut self, event: MouseEvent)
        requires
            old(self)@.wf(),
        ensures
            final(self)@ == old(self)@.selection_moved(event),
            final(self)@.wf(),
    {
        let layout = match self.layout {
            Some(layout) => layout,
            None => return,
        };
        let selection = match self.workbench.selection() {
            Some(selection) => selection,
            None => return,
        };
        let pane = selection.pane();
        let (row, col): (u16, u16) = match pointer_content_position(layout, pane, event) {
            Some(position) => position,
            None => return,
        };
        let head = match self.sessions.get(pane) {
            Some(session) => session.viewport_point(row, col),
            None => return,
        };
        self.workbench.set_selection_head(head);
    }

    /// Scrolls a selection whose pointer rests at the edge of its pane.
    pub fn tick_mouse_selection(&mut self, now: Instant)
        requires
            old(self)@.wf(),
            in_range(now),
        ensures
            final(self)@ == old(self)@.ticked(now),
            final(self)@.wf(),
    {
        let mut pending = match self.pending_mouse {
            Some(pending) => pending,
            None => return,
        };
        if !pending.dragging || now.nanos < pending.next_edge_scroll.nanos {
            return;
        }
        pending.next_edge_scroll = now.plus(Duration { nanos: EDGE_SCROLL_NANOS });
        self.pending_mouse = Some(pending);
        let layout = match self.layout {
            Some(layout) => layout,
            None => return,
        };
        let selection = match self.workbench.selection() {
            Some(selection) => selection,
            None => return,
        };
        let pane = selection.pane();
        let direction: i32 = edge_scroll_direction(layout, pane, pending.current);
        if direction == 0 {
            return;
        }
        if self.sessions.scroll(pane, direction * EDGE_SCROLL_LINES) {
            self.update_mouse_selection(pending.current);
        }
    }

    fn finish_mouse_click(&mut self, pending: PendingMouseGesture, release: MouseEvent)
        requires
            old(self)@.wf(),
            old(self)@.sessions.can_start_all(),
        ensures
            final(self)@ == old(self)@.clicked(pending, release),
            final(self)@.wf(),
    {
        let (pane, row, col): (PaneId, u16, u16) = match pending.target {
            MouseTarget::Content { pane, row, col } => (pane, row, col),
            _ => return,
        };
        if self.sessions.get(pane).is_none() {
            self.retry(pane);
            return;
        }
        let (release_row, release_col): (u16, u16) = match self.layout {
            Some(layout) => match pointer_content_position(layout, pane, release) {
                Some(position) => position,
                None => (row, col),
            },
            None => (row, col),
        };
        let (_, down) = self.sessions.send_mouse(pane, mouse_at(pending.down, row, col));
        let (_, up) = self.sessions.send_mouse(pane, mouse_at(release, release_row, release_col));
        self.emit(down);
        self.emit(up);
    }

    fn forward_mouse_motion(&mut self, target: Option<MouseTarget>, event: MouseEvent)
        requires
            old(self)@.wf(),
        ensures
            final(self)@ == old(self)@.pointed(target, event),
            final(self)@.wf(),
    {
        if let Some(MouseTarget::Content { pane, row, col }) = target {
            let (_, effect) = self.sessions.send_mouse(pane, mouse_at(event, row, col));
            self.emit(effect);
        }
    }

    fn route_mouse_wheel(&mut self, target: Option<MouseTarget>, event: MouseEvent)
        requires
            old(self)@.wf(),
        ensures
            final(self)@ == old(self)@.wheeled(target, event),
            final(self)@.wf(),
    {
        let (pane, row, col): (PaneId, u16, u16) = match target {
            Some(MouseTarget::Content { pane, row, col }) => (pane, row, col),
            _ => return,
        };
        let selection_owns_wheel: bool = match self.workbench.selection() {
            Some(selection) => selection.pane() == pane,
            None => false,
        };
        let reporting: bool = match self.sessions.get(pane) {
            Some(session) => session.mouse_reporting(),
            None => return,
        };
        let lines: i32 = match event.kind {
            MouseEventKind::ScrollUp => MOUSE_WHEEL_LINES,
            MouseEventKind::ScrollDown => -MOUSE_WHEEL_LINES,
            _ => 0,
        };
        if selection_owns_wheel && lines != 0 {
            self.sessions.scroll(pane, lines);
        } else if reporting {
            let (_, effect) = self.sessions.send_mouse(pane, mouse_at(event, row, col));
            self.emit(effect);
        } else if lines != 0 {
            self.sessions.scroll(pane, lines);
        }
    }

    /// Takes what the clipboard holds, and pastes it.
    pub fn clipboard_read(&mut self, contents: Result<&str, &str>)
        requires
            old(self)@.wf(),
        ensures
            final(self)@ == match contents {
                Ok(text) => old(self)@.pasted(text@),
                Err(error) => old(self)@.saying(Some("clipboard error: "@ + error@)),
            },
            final(self)@.wf(),
    {
        match contents {
            Ok(text) => {
                self.paste_into_focused(text);
            },
            Err(error) => {
                self.set_status(said("clipboard error: ", error));
            },
        }
    }

    fn paste_into_focused(&mut self, contents: &str)
        requires
            old(self)@.wf(),
        ensures
            final(self)@ == old(self)@.pasted(contents@),
            final(self)@.wf(),
    {
        let pane = self.input_pane();
        match self.sessions.send_paste(pane, contents) {
            None => {
                self.set_status("focused pane does not accept paste".to_owned());
            },
            Some(Ok(effect)) => {
                self.emit(Some(effect));
            },
            Some(Err(error)) => {
                self.set_status(said("paste rejected: ", error.message().as_str()));
            },
        }
    }

    fn save_layout_intent(&mut self)
        requires
            old(self)@.wf(),
        ensures
            final(self)@ == old(self)@.layout_kept(),
            final(self)@.wf(),
    {
        if self.keeps_layout {
            let intent = self.workbench.layout_intent(self.layout_config);
            self.emit(Some(Effect::SaveLayout(intent)));
        }
    }

    /// Takes the report that a layout was kept.
    pub fn layout_saved(&mut self, error: Option<&str>)
        ensures
            final(self)@ == match error {
                None => old(self)@.layout_saved(),
                Some(text) => old(self)@.saying(Some("failed to save layout: "@ + text@)),
            },
    {
        match error {
            None => {
                let complains: bool = match &self.status {
                    Some(status) => starts_with(status.as_str(), "failed to save layout:")
                        || starts_with(status.as_str(), "saved layout ignored:"),
                    None => false,
                };
                if complains {
                    self.status = None;
                }
            },
            Some(text) => {
                self.set_status(said("failed to save layout: ", text));
            },
        }
    }
}

} // verus!
