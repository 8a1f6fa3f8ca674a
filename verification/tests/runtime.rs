use ami_code::app::command::LaunchMode;
use ami_code::app::effect::{BackendFault, Effect};
use ami_code::app::frontend::Frontend;
use ami_code::app::gesture::{
    activated_layout_handle, canceled_layout_config, edge_scroll_direction, layout_drag_config,
    PendingLayoutGesture,
};
use ami_code::app::registry::{fault_message, retry_hint, SessionRegistry};
use ami_code::app::runtime::{
    is_quit, is_system_paste, should_copy_selection, AppRuntime, Event, LayoutLoad,
};
use ami_code::app::supervisor::SessionIdentity;
use ami_code::app::title::{session_title, session_title_with_handle};
use ami_code::backend::shell::ShellBackend;
use ami_code::event::{
    KeyCode, KeyEvent, KeyModifiers, MouseButton, MouseEvent, MouseEventKind,
};
use ami_code::geometry::Rect;
use ami_code::path::FilePath;
use ami_code::terminal::process::{ProcessSpec, TerminalSize};
use ami_code::time::{Duration, Instant};
use ami_code::ui::terminal::PaneBody;
use ami_code::workbench::hit_test::{
    layout_handle_position, LayoutDivider, LayoutHandle, MouseTarget,
};
use ami_code::workbench::layout::{
    WorkbenchLayout, WorkbenchLayoutConfig, MIN_TERMINAL_HEIGHT, MIN_TERMINAL_WIDTH,
};
use ami_code::workbench::pane::PaneId;
use ami_code::workbench::persistence::LayoutIntent;
use ami_code::workspace::Workspace;

const NOW: Instant = Instant { nanos: 5_000_000_000 };

fn control() -> KeyModifiers {
    KeyModifiers {
        control: true,
        ..KeyModifiers::none()
    }
}

fn command() -> KeyModifiers {
    KeyModifiers {
        command: true,
        ..KeyModifiers::none()
    }
}

fn key(code: KeyCode) -> Event {
    Event::Key(KeyEvent::new(code, KeyModifiers::none()))
}

fn pointer(kind: MouseEventKind, column: u16, row: u16) -> Event {
    Event::Mouse(MouseEvent {
        kind,
        column,
        row,
        modifiers: KeyModifiers::none(),
    })
}

fn sleeping_shell_spec() -> ProcessSpec {
    let mut spec = ProcessSpec::new("/bin/sh").display_name("shell");
    spec.args = vec!["-c".to_string(), "sleep 30".to_string()];
    spec
}

fn running_registry() -> (SessionRegistry, SessionIdentity) {
    let mut registry = SessionRegistry::new();
    registry.add(
        PaneId::Editor,
        sleeping_shell_spec(),
        TerminalSize::new(20, 5),
    );
    let effects = registry.spawn_all();
    assert_eq!(effects.len(), 1);
    let identity = match &effects[0] {
        Effect::Spawn {
            pane,
            identity,
            process,
            size,
        } => {
            assert_eq!(*pane, PaneId::Editor);
            assert_eq!(process.program, "/bin/sh");
            assert_eq!(*size, TerminalSize::new(20, 5));
            *identity
        }
        other => panic!("expected a start, got {other:?}"),
    };
    assert!(registry.spawned(PaneId::Editor, identity, NOW, None));
    (registry, identity)
}

fn workspace() -> Workspace {
    Workspace::at(FilePath::from_text("/work"))
}

fn shell() -> ShellBackend {
    ShellBackend::system_default(Some("/bin/zsh"))
}

/// A workbench of 120 by 40 cells whose three backends run.
fn running_workbench(load: LayoutLoad) -> (AppRuntime, Vec<(PaneId, SessionIdentity)>) {
    let mut runtime =
        AppRuntime::new(Rect::new(0, 0, 120, 40), load, &workspace(), &shell(), None);
    let mut running = Vec::new();
    for effect in runtime.take_effects() {
        match effect {
            Effect::Spawn { pane, identity, .. } => {
                assert!(runtime.session_spawned(pane, identity, NOW, None));
                running.push((pane, identity));
            }
            other => panic!("expected a start, got {other:?}"),
        }
    }
    assert_eq!(running.len(), 3);
    (runtime, running)
}

fn identity_of(running: &[(PaneId, SessionIdentity)], pane: PaneId) -> SessionIdentity {
    running.iter().find(|entry| entry.0 == pane).unwrap().1
}

fn written(effects: &[Effect]) -> Vec<(PaneId, Vec<u8>)> {
    effects
        .iter()
        .map(|effect| match effect {
            Effect::Write { pane, bytes, .. } => (*pane, bytes.clone()),
            other => panic!("expected a write, got {other:?}"),
        })
        .collect()
}

#[test]
fn stale_generation_does_not_stop_current_session() {
    let (mut registry, current) = running_registry();
    let stale = SessionIdentity {
        generation: current.generation.saturating_sub(1),
        ..current
    };

    assert!(registry
        .handle_failure(PaneId::Editor, stale, NOW, "stale exit".to_string())
        .unwrap()
        .is_none());

    assert_eq!(registry.running(PaneId::Editor), Some(current));
    registry.shutdown();
}

#[test]
fn shutdown_suppresses_retry_and_due_respawn() {
    let (mut registry, identity) = running_registry();
    let effects = registry.shutdown();
    assert!(matches!(
        effects[..],
        [Effect::Terminate { identity: ended, .. }] if ended == identity
    ));
    assert!(registry.retry(PaneId::Editor).is_none());
    assert!(registry
        .poll(NOW.plus(Duration::from_secs(60)))
        .is_empty());

    assert_eq!(registry.running(PaneId::Editor), None);
    assert!(registry
        .status(PaneId::Editor, NOW, true)
        .unwrap()
        .ends_with("; paused (click to retry)"));
}

#[test]
fn unavailable_status_uses_reachable_retry_hint() {
    assert_eq!(retry_hint(true), "click to retry");
    assert_eq!(retry_hint(false), "press any key to retry");
}

#[test]
fn bounds_status_to_available_title_width() {
    assert_eq!(
        session_title("pi", Some("clipboard unavailable"), 20),
        "pi — clipboard un…"
    );
    assert_eq!(session_title("nvim", None, 20), "nvim");
    assert_eq!(
        session_title_with_handle("shell", None, 20, true),
        "  shell"
    );
    assert!(!session_title("shell", None, 20).contains("Ctrl+Q"));
}

#[test]
fn recognizes_system_clipboard_keys() {
    assert!(should_copy_selection(
        KeyEvent::new(KeyCode::Char('c'), command()),
        false,
    ));
    assert!(should_copy_selection(
        KeyEvent::new(KeyCode::Char('c'), control()),
        true,
    ));
    assert!(is_system_paste(KeyEvent::new(
        KeyCode::Char('v'),
        command()
    )));
    assert!(!should_copy_selection(
        KeyEvent::new(KeyCode::Char('c'), control()),
        false,
    ));
}

fn mouse(column: u16, row: u16) -> MouseEvent {
    MouseEvent {
        kind: MouseEventKind::Drag(MouseButton::Left),
        column,
        row,
        modifiers: KeyModifiers::none(),
    }
}

#[test]
fn layout_drags_use_snapshot_delta_capture_and_clamp_all_terminals() {
    let config = WorkbenchLayoutConfig::default();
    let layout = WorkbenchLayout::calculate(Rect::new(0, 0, 120, 40), config);

    // A move is calculated from the down snapshot, not a prior move.
    let sidebar = layout_drag_config(
        LayoutDivider::SidebarMain,
        mouse(layout.editor.x, 2),
        mouse(layout.editor.x + 10, 2),
        layout,
        config,
    );
    assert_eq!(sidebar.sidebar_width, config.sidebar_width + 10);

    // The editor/agent divider follows the captured pointer cell exactly.
    let split = layout_drag_config(
        LayoutDivider::EditorAgent,
        mouse(layout.agent.x, 2),
        mouse(layout.agent.x + 7, 2),
        layout,
        config,
    );
    assert_eq!(split.editor_width, Some(layout.editor.width + 7));
    let split_layout = WorkbenchLayout::calculate(Rect::new(0, 0, 120, 40), split);
    assert_eq!(split_layout.editor.width, layout.editor.width + 7);

    // Coordinates far outside the pane remain captured and clamp both sides
    // to a bordered-terminal minimum.
    let clamped_split = layout_drag_config(
        LayoutDivider::EditorAgent,
        mouse(layout.agent.x, 2),
        mouse(u16::MAX, 2),
        layout,
        config,
    );
    let clamped_layout = WorkbenchLayout::calculate(Rect::new(0, 0, 120, 40), clamped_split);
    assert!(clamped_layout.editor.width >= MIN_TERMINAL_WIDTH);
    assert!(clamped_layout.agent.width >= MIN_TERMINAL_WIDTH);

    let bottom = layout_drag_config(
        LayoutDivider::EditorBottom,
        mouse(30, layout.bottom.y),
        mouse(30, 0),
        layout,
        config,
    );
    let bottom_layout = WorkbenchLayout::calculate(Rect::new(0, 0, 120, 40), bottom);
    assert!(bottom_layout.editor.height >= MIN_TERMINAL_HEIGHT);
    assert!(bottom_layout.bottom.height >= MIN_TERMINAL_HEIGHT);
}

#[test]
fn handle_release_requires_an_unmoved_pointer_on_the_same_handle() {
    let origin = mouse(24, 0);
    let handle = PendingLayoutGesture::Handle {
        handle: LayoutHandle::Sidebar,
        origin,
        moved: false,
    };
    assert_eq!(
        activated_layout_handle(handle, Some(MouseTarget::Handle(LayoutHandle::Sidebar))),
        Some(LayoutHandle::Sidebar)
    );

    let moved = PendingLayoutGesture::Handle {
        handle: LayoutHandle::Sidebar,
        origin,
        moved: true,
    };
    assert_eq!(
        activated_layout_handle(moved, Some(MouseTarget::Handle(LayoutHandle::Sidebar))),
        None
    );
    assert_eq!(
        activated_layout_handle(handle, Some(MouseTarget::Sidebar)),
        None
    );
}

#[test]
fn canceled_drag_returns_its_snapshot_for_rollback() {
    let snapshot = WorkbenchLayoutConfig::default();
    let layout = WorkbenchLayout::calculate(Rect::new(0, 0, 120, 40), snapshot);
    let mut pending = Some(PendingLayoutGesture::Drag {
        divider: LayoutDivider::EditorAgent,
        origin: mouse(layout.agent.x, 2),
        layout,
        config: snapshot,
    });

    assert_eq!(canceled_layout_config(&mut pending), Some(snapshot));
    assert!(pending.is_none());

    let mut handle = Some(PendingLayoutGesture::Handle {
        handle: LayoutHandle::Sidebar,
        origin: mouse(1, 0),
        moved: false,
    });
    assert_eq!(canceled_layout_config(&mut handle), None);
    assert!(handle.is_none());
}

#[test]
fn detects_vertical_selection_edges() {
    let layout =
        WorkbenchLayout::calculate(Rect::new(0, 0, 120, 40), WorkbenchLayoutConfig::default());
    let event = |row| MouseEvent {
        kind: MouseEventKind::Drag(MouseButton::Left),
        column: layout.editor.x + 2,
        row,
        modifiers: KeyModifiers::none(),
    };

    assert_eq!(edge_scroll_direction(layout, PaneId::Editor, event(1)), 1);
    assert_eq!(edge_scroll_direction(layout, PaneId::Editor, event(10)), 0);
    assert_eq!(
        edge_scroll_direction(layout, PaneId::Editor, event(layout.editor.bottom() - 2)),
        -1
    );
}

#[test]
fn keys_go_to_the_focused_pane_alone() {
    let (mut runtime, running) = running_workbench(LayoutLoad::Missing);
    assert!(runtime.handle_event(key(KeyCode::Char('a')), NOW));
    assert_eq!(
        written(&runtime.take_effects()),
        [(PaneId::Editor, b"a".to_vec())]
    );

    // A press over the agent moves the focus; its release is a click.
    let agent = runtime.layout.unwrap().agent;
    let (x, y) = (agent.x + 3, agent.y + 3);
    runtime.handle_event(pointer(MouseEventKind::Down(MouseButton::Left), x, y), NOW);
    runtime.handle_event(pointer(MouseEventKind::Up(MouseButton::Left), x, y), NOW);
    runtime.handle_event(key(KeyCode::Enter), NOW);
    assert_eq!(
        written(&runtime.take_effects()),
        [(PaneId::Agent, b"\r".to_vec())]
    );
    assert_eq!(
        runtime.sessions.running(PaneId::Agent),
        Some(identity_of(&running, PaneId::Agent))
    );
}

#[test]
fn quitting_ends_every_backend_once() {
    let (mut runtime, running) = running_workbench(LayoutLoad::Missing);
    assert!(is_quit(KeyEvent::new(KeyCode::Char('q'), control())));
    assert!(!runtime.handle_event(
        Event::Key(KeyEvent::new(KeyCode::Char('q'), control())),
        NOW
    ));
    let ended: Vec<_> = runtime
        .take_effects()
        .iter()
        .map(|effect| match effect {
            Effect::Terminate { pane, identity } => (*pane, *identity),
            other => panic!("expected an end, got {other:?}"),
        })
        .collect();
    assert_eq!(ended, running);
    runtime.handle_event(key(KeyCode::Enter), NOW);
    runtime.poll_sessions_at(NOW.plus(Duration::from_secs(60)));
    assert!(runtime.take_effects().is_empty());
}

#[test]
fn failed_backends_wait_and_start_again() {
    let (mut runtime, running) = running_workbench(LayoutLoad::Missing);
    let identity = identity_of(&running, PaneId::Agent);
    runtime
        .session_failed(PaneId::Agent, identity, BackendFault::Exit, NOW, "")
        .unwrap();
    assert!(matches!(
        runtime.take_effects()[..],
        [Effect::Terminate { pane: PaneId::Agent, .. }]
    ));
    assert_eq!(
        runtime
            .sessions
            .status(PaneId::Agent, NOW, true)
            .unwrap(),
        "backend exited; retrying in 250ms (click to retry)"
    );
    // The others go on.
    assert!(runtime.sessions.running(PaneId::Editor).is_some());
    assert!(runtime.sessions.running(PaneId::Bottom).is_some());

    runtime.poll_sessions_at(NOW.plus(Duration::from_millis(249)));
    assert!(runtime.take_effects().is_empty());
    runtime.poll_sessions_at(NOW.plus(Duration::from_millis(250)));
    match &runtime.take_effects()[..] {
        [Effect::Spawn {
            pane,
            identity: next,
            ..
        }] => {
            assert_eq!(*pane, PaneId::Agent);
            assert_eq!(next.generation, identity.generation + 1);
        }
        other => panic!("expected a start, got {other:?}"),
    }
}

#[test]
fn faults_are_told_by_their_kind() {
    assert_eq!(
        fault_message(BackendFault::Resize, "no"),
        "backend resize error: no"
    );
    assert_eq!(
        fault_message(BackendFault::Input, "no"),
        "backend input error: no"
    );
    assert_eq!(
        fault_message(BackendFault::Mouse, "no"),
        "backend mouse error: no"
    );
    assert_eq!(
        fault_message(BackendFault::Paste, "no"),
        "backend paste error: no"
    );
    assert_eq!(
        fault_message(BackendFault::Output, "no"),
        "backend error: no"
    );
    assert_eq!(fault_message(BackendFault::Exit, "no"), "backend exited");
}

#[test]
fn unknown_panes_are_reported() {
    let (mut registry, identity) = running_registry();
    assert!(registry
        .handle_failure(PaneId::Agent, identity, NOW, "gone".to_string())
        .is_err());
    registry.shutdown();
    assert!(registry
        .handle_failure(PaneId::Agent, identity, NOW, "gone".to_string())
        .unwrap()
        .is_none());
}

#[test]
fn starts_that_fail_are_told_in_the_pane() {
    let mut runtime = AppRuntime::single(
        LaunchMode::Nvim,
        Rect::new(0, 0, 80, 24),
        &workspace(),
        &shell(),
        None,
    );
    let identity = match &runtime.take_effects()[..] {
        [Effect::Spawn {
            identity,
            process,
            size,
            ..
        }] => {
            assert_eq!(process.program, "nvim");
            assert_eq!(*size, TerminalSize::new(78, 22));
            *identity
        }
        other => panic!("expected a start, got {other:?}"),
    };
    assert!(runtime.session_spawned(PaneId::Editor, identity, NOW, Some("not found")));
    assert_eq!(
        runtime
            .sessions
            .status(PaneId::Editor, NOW, false)
            .unwrap(),
        "failed to start nvim: not found; retrying in 250ms (press any key to retry)"
    );
    let picture = runtime.render(Rect::new(0, 0, 80, 24), &[], None, NOW);
    assert_eq!(picture.panes.len(), 1);
    assert!(picture.panes[0].painted.title.starts_with("nvim — failed"));
    assert!(matches!(
        &picture.panes[0].painted.body,
        PaneBody::Message { text, .. } if text.starts_with("failed to start nvim: not found")
    ));
    // A key starts it at once.
    runtime.handle_event(key(KeyCode::Char('x')), NOW);
    assert!(matches!(
        runtime.take_effects()[..],
        [Effect::Spawn { .. }]
    ));
}

#[test]
fn output_is_drawn_and_questions_are_answered() {
    let (mut runtime, running) = running_workbench(LayoutLoad::Missing);
    let identity = identity_of(&running, PaneId::Editor);
    runtime.session_output(PaneId::Editor, identity, b"hello\x1b[5n");
    assert_eq!(
        written(&runtime.take_effects()),
        [(PaneId::Editor, b"\x1b[0n".to_vec())]
    );
    let picture = runtime.render(Rect::new(0, 0, 120, 40), &[], None, NOW);
    assert!(picture.notice.is_none());
    assert!(picture.sidebar.is_some());
    let panes: Vec<_> = picture.panes.iter().map(|pane| pane.pane).collect();
    assert_eq!(panes, [PaneId::Editor, PaneId::Agent, PaneId::Bottom]);
    assert_eq!(picture.panes[0].painted.title, "nvim");
    assert_eq!(picture.panes[2].painted.title, "  shell");
    let first_row = match &picture.panes[0].painted.body {
        PaneBody::Screen(lines) => lines[0]
            .spans
            .iter()
            .map(|span| span.content.as_str())
            .collect::<String>(),
        other => panic!("expected a screen, got {other:?}"),
    };
    assert!(first_row.starts_with("hello "));
    assert_eq!(picture.controls.len(), 2);

    // Output of an earlier start is dropped.
    let stale = SessionIdentity {
        generation: identity.generation + 7,
        ..identity
    };
    runtime.session_output(PaneId::Editor, stale, b"\x1b[5n");
    assert!(runtime.take_effects().is_empty());
}

#[test]
fn selections_are_copied_as_they_were_seen() {
    let (mut runtime, running) = running_workbench(LayoutLoad::Missing);
    let identity = identity_of(&running, PaneId::Editor);
    runtime.session_output(PaneId::Editor, identity, b"alpha beta");
    let editor = runtime.layout.unwrap().editor;
    let (x, y) = (editor.x + 1, editor.y + 1);
    runtime.handle_event(pointer(MouseEventKind::Down(MouseButton::Left), x, y), NOW);
    runtime.handle_event(
        pointer(MouseEventKind::Drag(MouseButton::Left), x + 4, y),
        NOW,
    );
    // What arrives meanwhile does not change what is selected.
    runtime.session_output(PaneId::Editor, identity, b"\x1b[H\x1b[2Jother");
    runtime.handle_event(
        pointer(MouseEventKind::Up(MouseButton::Left), x + 4, y),
        NOW,
    );
    runtime.take_effects();
    runtime.handle_event(Event::Key(KeyEvent::new(KeyCode::Char('c'), control())), NOW);
    match &runtime.take_effects()[..] {
        [Effect::CopyText(text)] => assert_eq!(text, "alpha"),
        other => panic!("expected a copy, got {other:?}"),
    }
    runtime.copy_finished(Some("no clipboard"));
    assert_eq!(
        runtime.status.as_deref(),
        Some("clipboard error: no clipboard")
    );
    runtime.copy_finished(None);
    assert_eq!(runtime.status, None);
}

#[test]
fn pastes_need_a_backend_and_may_be_refused() {
    let (mut runtime, running) = running_workbench(LayoutLoad::Missing);
    runtime.handle_event(Event::Paste("one\ntwo".to_string()), NOW);
    assert!(runtime.take_effects().is_empty());
    assert_eq!(
        runtime.status.as_deref(),
        Some("paste rejected: multi-line paste requires backend bracketed-paste support")
    );
    let identity = identity_of(&running, PaneId::Editor);
    runtime.session_output(PaneId::Editor, identity, b"\x1b[?2004h");
    runtime.handle_event(Event::Paste("one\ntwo".to_string()), NOW);
    assert_eq!(
        written(&runtime.take_effects()),
        [(PaneId::Editor, b"\x1b[200~one\ntwo\x1b[201~".to_vec())]
    );
    runtime
        .write_finished(PaneId::Editor, identity, BackendFault::Paste, NOW, None)
        .unwrap();
    assert_eq!(runtime.status, None);
    runtime
        .write_finished(
            PaneId::Editor,
            identity,
            BackendFault::Paste,
            NOW,
            Some("broken pipe"),
        )
        .unwrap();
    assert_eq!(
        runtime.status.as_deref(),
        Some("paste failed; backend will restart")
    );
    runtime.take_effects();
    runtime.handle_event(Event::Paste("more".to_string()), NOW);
    assert_eq!(
        runtime.status.as_deref(),
        Some("focused pane does not accept paste")
    );
}

#[test]
fn system_pastes_ask_for_the_clipboard() {
    let (mut runtime, _) = running_workbench(LayoutLoad::Missing);
    runtime.handle_event(Event::Key(KeyEvent::new(KeyCode::Char('v'), command())), NOW);
    assert!(matches!(
        runtime.take_effects()[..],
        [Effect::ReadClipboard]
    ));
}

#[test]
fn drags_keep_the_layout_when_the_button_comes_up() {
    let (mut runtime, _) = running_workbench(LayoutLoad::Missing);
    let before = runtime.layout_config;
    let x = runtime.layout.unwrap().agent.x;
    runtime.handle_event(pointer(MouseEventKind::Down(MouseButton::Left), x, 5), NOW);
    runtime.handle_event(
        pointer(MouseEventKind::Drag(MouseButton::Left), x + 4, 5),
        NOW,
    );
    let preview = runtime.take_effects();
    assert!(!preview.is_empty());
    assert!(preview
        .iter()
        .all(|effect| matches!(effect, Effect::Resize { .. })));
    runtime.handle_event(
        pointer(MouseEventKind::Up(MouseButton::Left), x + 4, 5),
        NOW,
    );
    match &runtime.take_effects()[..] {
        [Effect::SaveLayout(intent)] => {
            assert_eq!(intent.config, runtime.layout_config);
            assert_ne!(intent.config, before);
        }
        other => panic!("expected the layout, got {other:?}"),
    }

    // A key in the middle of a drag takes it back.
    let kept = runtime.layout_config;
    let x = runtime.layout.unwrap().agent.x;
    runtime.handle_event(pointer(MouseEventKind::Down(MouseButton::Left), x, 5), NOW);
    runtime.handle_event(
        pointer(MouseEventKind::Drag(MouseButton::Left), x + 9, 5),
        NOW,
    );
    assert_ne!(runtime.layout_config, kept);
    runtime.handle_event(key(KeyCode::Esc), NOW);
    assert_eq!(runtime.layout_config, kept);
}

#[test]
fn handles_collapse_panes_and_keep_the_layout() {
    let (mut runtime, _) = running_workbench(LayoutLoad::Missing);
    let (x, y) = layout_handle_position(runtime.layout.unwrap(), LayoutHandle::Sidebar);
    runtime.handle_event(pointer(MouseEventKind::Down(MouseButton::Left), x, y), NOW);
    runtime.handle_event(pointer(MouseEventKind::Up(MouseButton::Left), x, y), NOW);
    assert_eq!(runtime.layout.unwrap().sidebar.width, 0);
    let effects = runtime.take_effects();
    match effects.last() {
        Some(Effect::SaveLayout(intent)) => assert!(intent.sidebar_collapsed),
        other => panic!("expected the layout, got {other:?}"),
    }
}

#[test]
fn kept_layouts_are_used_and_complaints_are_shown() {
    let intent = LayoutIntent {
        config: WorkbenchLayoutConfig {
            sidebar_width: 30,
            editor_width: Some(40),
            bottom_height: 10,
        },
        sidebar_collapsed: false,
        bottom_collapsed: true,
    };
    let (runtime, _) = running_workbench(LayoutLoad::Found(intent));
    let layout = runtime.layout.unwrap();
    assert_eq!(layout.sidebar.width, 30);
    assert_eq!(layout.editor.width, 40);
    assert_eq!(layout.bottom.height, 0);

    let (mut ignored, _) = running_workbench(LayoutLoad::Ignored("bad file".to_string()));
    assert_eq!(
        ignored.status.as_deref(),
        Some("saved layout ignored: bad file")
    );
    ignored.layout_saved(None);
    assert_eq!(ignored.status, None);
    ignored.layout_saved(Some("disk full"));
    assert_eq!(
        ignored.status.as_deref(),
        Some("failed to save layout: disk full")
    );

    let (unavailable, _) = running_workbench(LayoutLoad::Unavailable("no home".to_string()));
    assert_eq!(
        unavailable.status.as_deref(),
        Some("layout persistence unavailable: no home")
    );
    assert!(!unavailable.keeps_layout);
}

fn shows_compact_notice(runtime: &AppRuntime, area: Rect) -> bool {
    let picture = runtime.render(area, &[], None, NOW);
    let notice = matches!(
        &picture.notice,
        Some(PaneBody::Message { text, .. })
            if text == "workbench needs at least 6 columns × 3 rows"
    );
    assert_eq!(notice, picture.panes.is_empty());
    assert!(!notice || picture.sidebar.is_none());
    notice
}

/// The titles of the panes that are painted.
fn titles(runtime: &AppRuntime, area: Rect) -> Vec<String> {
    let picture = runtime.render(area, &[], None, NOW);
    assert!(picture.notice.is_none());
    picture
        .panes
        .iter()
        .map(|pane| pane.painted.title.trim().to_string())
        .collect()
}

fn quits(runtime: &mut AppRuntime) -> bool {
    let quit = Event::Key(KeyEvent::new(KeyCode::Char('q'), control()));
    !runtime.handle_event(quit, NOW)
}

#[test]
fn viewport_matrix_starts_and_quits_without_panics() {
    for (cols, rows) in [(160, 50), (120, 40), (100, 30), (80, 24)] {
        let area = Rect::new(0, 0, cols, rows);
        let mut runtime =
            AppRuntime::new(area, LayoutLoad::Missing, &workspace(), &shell(), None);
        let effects = runtime.take_effects();
        assert_eq!(effects.len(), 3, "{cols}x{rows}");
        for effect in effects {
            match effect {
                Effect::Spawn { pane, identity, .. } => {
                    assert!(runtime.session_spawned(pane, identity, NOW, None));
                }
                other => panic!("expected a start, got {other:?}"),
            }
        }
        assert_eq!(titles(&runtime, area), ["nvim", "pi", "shell"], "{cols}x{rows}");
        let picture = runtime.render(area, &[], None, NOW);
        assert_eq!(picture.sidebar.is_some(), cols >= 120, "{cols}x{rows}");
        assert!(quits(&mut runtime), "{cols}x{rows}");
    }

    let area = Rect::new(0, 0, 5, 2);
    let mut compact = AppRuntime::new(area, LayoutLoad::Missing, &workspace(), &shell(), None);
    assert!(shows_compact_notice(&compact, area));
    assert!(quits(&mut compact));
}

#[test]
fn workbench_recovers_after_compact_resize() {
    let (mut runtime, running) = running_workbench(LayoutLoad::Missing);
    assert_eq!(titles(&runtime, Rect::new(0, 0, 120, 40)), ["nvim", "pi", "shell"]);

    let compact = Rect::new(0, 0, 5, 2);
    runtime.resize(compact);
    assert!(shows_compact_notice(&runtime, compact));

    let wide = Rect::new(0, 0, 160, 50);
    runtime.resize(wide);
    assert!(!shows_compact_notice(&runtime, wide));
    assert_eq!(titles(&runtime, wide), ["nvim", "pi", "shell"]);
    assert!(runtime.render(wide, &[], None, NOW).sidebar.is_some());
    // The backends were not started again.
    for (pane, identity) in running {
        assert_eq!(runtime.sessions.running(pane), Some(identity));
    }
    assert!(quits(&mut runtime));
}

#[test]
fn right_clicks_open_a_menu_that_owns_the_input() {
    let (runtime, _) = running_workbench(LayoutLoad::Missing);
    let mut frontend = Frontend::new(runtime);

    // Over the content of the editor.
    assert!(frontend.handle_event(
        pointer(MouseEventKind::Down(MouseButton::Right), 29, 4),
        NOW
    ));
    let menu = frontend.menu.unwrap();
    assert_eq!((menu.area().x, menu.area().y), (29, 4));
    assert!(!menu.copy_enabled);

    // A press outside closes it and is consumed.
    frontend.handle_event(pointer(MouseEventKind::Down(MouseButton::Left), 1, 1), NOW);
    frontend.handle_event(pointer(MouseEventKind::Up(MouseButton::Left), 1, 1), NOW);
    assert!(frontend.menu.is_none());
    assert!(frontend.runtime.workbench.is_focused(PaneId::Editor));
    assert!(frontend.runtime.take_effects().is_empty());

    // Over the shell, which takes the focus. A key closes the menu and goes
    // nowhere; the next one reaches the shell.
    frontend.handle_event(
        pointer(MouseEventKind::Down(MouseButton::Right), 29, 34),
        NOW,
    );
    assert!(frontend.menu.is_some());
    frontend.handle_event(key(KeyCode::Char('x')), NOW);
    assert!(frontend.menu.is_none());
    frontend.handle_event(key(KeyCode::Enter), NOW);
    assert_eq!(
        written(&frontend.runtime.take_effects()),
        [(PaneId::Bottom, b"\r".to_vec())]
    );

    // The second command pastes.
    frontend.handle_event(
        pointer(MouseEventKind::Down(MouseButton::Right), 29, 4),
        NOW,
    );
    frontend.handle_event(pointer(MouseEventKind::Moved, 31, 6), NOW);
    assert!(frontend.menu.unwrap().hovered().is_some());
    frontend.handle_event(pointer(MouseEventKind::Down(MouseButton::Left), 31, 6), NOW);
    assert!(frontend.menu.is_none());
    assert!(matches!(
        frontend.runtime.take_effects()[..],
        [Effect::ReadClipboard]
    ));

    // It does not outlive its viewport, and quitting works while it is open.
    frontend.handle_event(
        pointer(MouseEventKind::Down(MouseButton::Right), 29, 4),
        NOW,
    );
    frontend.resize(Rect::new(0, 0, 121, 40));
    assert!(frontend.menu.is_none());
    frontend.handle_event(
        pointer(MouseEventKind::Down(MouseButton::Right), 29, 4),
        NOW,
    );
    assert!(frontend.menu.is_some());
    assert!(!frontend.handle_event(
        Event::Key(KeyEvent::new(KeyCode::Char('q'), control())),
        NOW
    ));
}

#[test]
fn menus_copy_what_is_selected() {
    let (mut runtime, running) = running_workbench(LayoutLoad::Missing);
    let identity = identity_of(&running, PaneId::Editor);
    runtime.session_output(PaneId::Editor, identity, b"alpha beta");
    let editor = runtime.layout.unwrap().editor;
    let (x, y) = (editor.x + 1, editor.y + 1);
    let mut frontend = Frontend::new(runtime);
    frontend.handle_event(pointer(MouseEventKind::Down(MouseButton::Left), x, y), NOW);
    frontend.handle_event(
        pointer(MouseEventKind::Drag(MouseButton::Left), x + 4, y),
        NOW,
    );
    frontend.handle_event(
        pointer(MouseEventKind::Up(MouseButton::Left), x + 4, y),
        NOW,
    );
    frontend.handle_event(
        pointer(MouseEventKind::Down(MouseButton::Right), x, y),
        NOW,
    );
    assert!(frontend.menu.unwrap().copy_enabled);
    frontend.runtime.take_effects();
    frontend.handle_event(
        pointer(MouseEventKind::Down(MouseButton::Left), x + 2, y + 1),
        NOW,
    );
    match &frontend.runtime.take_effects()[..] {
        [Effect::CopyText(text)] => assert_eq!(text, "alpha"),
        other => panic!("expected a copy, got {other:?}"),
    }
}

#[test]
fn agents_run_as_their_profile_asks() {
    let mut agent = ProcessSpec::new("pi").display_name("pi");
    agent.args = vec!["--no-approve".to_string()];
    let mut runtime = AppRuntime::single(
        LaunchMode::Pi,
        Rect::new(0, 0, 80, 24),
        &workspace(),
        &shell(),
        Some(agent),
    );
    match &runtime.take_effects()[..] {
        [Effect::Spawn { process, .. }] => assert_eq!(process.args, ["--no-approve"]),
        other => panic!("expected a start, got {other:?}"),
    }
}

#[test]
fn wheels_scroll_the_history() {
    let (mut runtime, running) = running_workbench(LayoutLoad::Missing);
    let identity = identity_of(&running, PaneId::Editor);
    let mut output = Vec::new();
    for line in 0..100 {
        output.extend_from_slice(format!("line {line}\r\n").as_bytes());
    }
    runtime.session_output(PaneId::Editor, identity, &output);
    let editor = runtime.layout.unwrap().editor;
    let (x, y) = (editor.x + 2, editor.y + 2);
    runtime.handle_event(pointer(MouseEventKind::ScrollUp, x, y), NOW);
    assert_eq!(
        runtime
            .sessions
            .get(PaneId::Editor)
            .unwrap()
            .screen()
            .scrollback(),
        3
    );
    runtime.handle_event(pointer(MouseEventKind::ScrollDown, x, y), NOW);
    runtime.handle_event(pointer(MouseEventKind::ScrollDown, x, y), NOW);
    assert_eq!(
        runtime
            .sessions
            .get(PaneId::Editor)
            .unwrap()
            .screen()
            .scrollback(),
        0
    );

    // A program that asked for the mouse is told of the wheel instead.
    runtime.session_output(PaneId::Editor, identity, b"\x1b[?1000h\x1b[?1006h");
    runtime.take_effects();
    runtime.handle_event(pointer(MouseEventKind::ScrollUp, x, y), NOW);
    assert_eq!(
        written(&runtime.take_effects()),
        [(PaneId::Editor, b"\x1b[<64;2;2M".to_vec())]
    );
}
