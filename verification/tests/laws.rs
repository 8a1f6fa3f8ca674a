use ami_code::app::effect::Effect;
use ami_code::app::gesture::{layout_drag_config, pointer_content_position};
use ami_code::app::runtime::{AppRuntime, Event, LayoutLoad};
use ami_code::backend::shell::ShellBackend;
use ami_code::bytes::hex;
use ami_code::event::{KeyCode, KeyEvent, KeyModifiers, MouseButton, MouseEvent, MouseEventKind};
use ami_code::geometry::Rect;
use ami_code::path::FilePath;
use ami_code::terminal::input::encode_key;
use ami_code::terminal::paste;
use ami_code::time::{Duration, Instant};
use ami_code::workbench::hit_test::{hit_test, LayoutDivider, MouseTarget};
use ami_code::workbench::layout::{
    WorkbenchLayout, WorkbenchLayoutConfig, MIN_TERMINAL_HEIGHT, MIN_TERMINAL_WIDTH,
};
use ami_code::workbench::pane::PaneId;
use ami_code::workbench::state::WorkbenchState;
use ami_code::workbench::tabs::{shell_tab_geometry, ShellTabs};
use ami_code::workspace::git::{parse_git_porcelain_v2, GitStatus};
use ami_code::workspace::order::{listing_order, SortKey};
use ami_code::workspace::Workspace;

const NOW: Instant = Instant { nanos: 5_000_000_000 };

fn pointer(kind: MouseEventKind, column: u16, row: u16) -> MouseEvent {
    MouseEvent {
        kind,
        column,
        row,
        modifiers: KeyModifiers::none(),
    }
}

fn workbench() -> AppRuntime {
    let mut runtime = AppRuntime::new(
        Rect::new(0, 0, 120, 40),
        LayoutLoad::Missing,
        &Workspace::at(FilePath::from_text("/work")),
        &ShellBackend::system_default(None),
        None,
    );
    for effect in runtime.take_effects() {
        if let Effect::Spawn { pane, identity, .. } = effect {
            assert!(runtime.session_spawned(pane, identity, NOW, None));
        }
    }
    runtime
}

#[test]
fn every_cell_of_a_viewport_belongs_to_one_pane() {
    let area = Rect::new(3, 2, 70, 20);
    let layout = WorkbenchLayout::calculate(area, WorkbenchLayoutConfig::default());
    let panes = [layout.sidebar, layout.editor, layout.agent, layout.bottom];
    for column in 0..80 {
        for row in 0..30 {
            let owners = panes
                .iter()
                .filter(|pane| {
                    column >= pane.x
                        && column < pane.right()
                        && row >= pane.y
                        && row < pane.bottom()
                })
                .count();
            let inside = column >= area.x
                && column < area.right()
                && row >= area.y
                && row < area.bottom();
            assert_eq!(owners, usize::from(inside));
            assert_eq!(hit_test(layout, column, row).is_some(), inside);
        }
    }
}

#[test]
fn tabs_lie_side_by_side_before_the_plus() {
    let mut tabs = ShellTabs::default();
    for _ in 0..5 {
        assert!(tabs.can_open());
        tabs.new_tab();
    }
    // The plus takes the only inner cell of a pane three columns wide.
    let (geometry, plus) = shell_tab_geometry(Rect::new(4, 0, 3, 6), &tabs);
    assert!(geometry.is_empty());
    assert_eq!(plus, Some((5, 1)));
    for width in 4..60 {
        let (geometry, plus) = shell_tab_geometry(Rect::new(4, 0, width, 6), &tabs);
        let (plus_x, _) = plus.unwrap();
        for pair in geometry.windows(2) {
            assert!(pair[0].x + pair[0].width <= pair[1].x);
        }
        if let Some(last) = geometry.last() {
            assert!(last.x + last.width <= plus_x);
        }
        assert!(geometry.iter().any(|tab| tab.id == tabs.active()));
    }
}

#[test]
fn tabs_are_part_of_the_workbench() {
    let mut state = WorkbenchState::default();
    let first = state.shell_tabs().active();
    let second = state.shell_tabs_mut().new_tab();
    assert_eq!(state.shell_tabs().active(), second);
    assert_eq!(state.shell_tabs().ids(), [first, second]);
}

#[test]
fn drags_do_not_add_up_and_leave_room() {
    let config = WorkbenchLayoutConfig::default();
    let area = Rect::new(0, 0, 120, 40);
    let layout = WorkbenchLayout::calculate(area, config);
    let drag = MouseEventKind::Drag(MouseButton::Left);
    for divider in [
        LayoutDivider::SidebarMain,
        LayoutDivider::EditorAgent,
        LayoutDivider::EditorBottom,
    ] {
        let origin = pointer(drag, 60, 28);
        for (column, row) in [(0, 0), (60, 28), (119, 39), (u16::MAX, u16::MAX)] {
            let next = layout_drag_config(divider, origin, pointer(drag, column, row), layout, config);
            let moved = WorkbenchLayout::calculate(area, next);
            for pane in [moved.editor, moved.agent] {
                assert!(pane.width >= MIN_TERMINAL_WIDTH);
                assert!(pane.height >= MIN_TERMINAL_HEIGHT);
            }
        }
    }
}

#[test]
fn pointers_are_held_in_the_terminal() {
    let layout =
        WorkbenchLayout::calculate(Rect::new(0, 0, 120, 40), WorkbenchLayoutConfig::default());
    let (row, col) = pointer_content_position(
        layout,
        PaneId::Editor,
        pointer(MouseEventKind::Moved, u16::MAX, u16::MAX),
    )
    .unwrap();
    assert_eq!(row, layout.editor.height - 3);
    assert_eq!(col, layout.editor.width - 3);
    assert_eq!(
        pointer_content_position(
            layout,
            PaneId::Editor,
            pointer(MouseEventKind::Moved, 0, 0)
        ),
        Some((0, 0))
    );
    assert_eq!(
        pointer_content_position(
            layout,
            PaneId::Sidebar,
            pointer(MouseEventKind::Moved, 0, 0)
        ),
        None
    );
}

#[test]
fn selections_scroll_at_the_edge_of_their_pane() {
    let mut runtime = workbench();
    let identity = runtime.sessions.running(PaneId::Editor).unwrap();
    let mut output = Vec::new();
    for line in 0..100 {
        output.extend_from_slice(format!("line {line}\r\n").as_bytes());
    }
    runtime.session_output(PaneId::Editor, identity, &output);
    let editor = runtime.layout.unwrap().editor;
    let x = editor.x + 3;
    runtime.handle_event(
        Event::Mouse(pointer(
            MouseEventKind::Down(MouseButton::Left),
            x,
            editor.y + 5,
        )),
        NOW,
    );
    runtime.handle_event(
        Event::Mouse(pointer(
            MouseEventKind::Drag(MouseButton::Left),
            x,
            editor.y + 1,
        )),
        NOW,
    );
    let offset = |runtime: &AppRuntime| {
        runtime
            .sessions
            .get(PaneId::Editor)
            .unwrap()
            .screen()
            .scrollback()
    };
    runtime.tick_mouse_selection(NOW.plus(Duration::from_millis(49)));
    assert_eq!(offset(&runtime), 0);
    runtime.tick_mouse_selection(NOW.plus(Duration::from_millis(50)));
    assert_eq!(offset(&runtime), 1);
    runtime.tick_mouse_selection(NOW.plus(Duration::from_millis(99)));
    assert_eq!(offset(&runtime), 1);
    runtime.tick_mouse_selection(NOW.plus(Duration::from_millis(100)));
    assert_eq!(offset(&runtime), 2);
    let range = runtime.workbench.selection_range(PaneId::Editor).unwrap();
    assert_eq!(range.start.row, -2);
    assert_eq!(range.end.row, 4);
}

#[test]
fn clipboards_are_pasted_or_told_of() {
    let mut runtime = workbench();
    runtime.clipboard_read(Ok("hi"));
    match &runtime.take_effects()[..] {
        [Effect::Write { pane, bytes, .. }] => {
            assert_eq!(*pane, PaneId::Editor);
            assert_eq!(bytes, b"hi");
        }
        other => panic!("expected a write, got {other:?}"),
    }
    runtime.clipboard_read(Err("empty"));
    assert_eq!(runtime.status.as_deref(), Some("clipboard error: empty"));
}

#[test]
fn single_backends_are_not_told_of_the_mouse() {
    let mut runtime = AppRuntime::single(
        ami_code::app::command::LaunchMode::Shell,
        Rect::new(0, 0, 80, 24),
        &Workspace::at(FilePath::from_text("/work")),
        &ShellBackend::system_default(None),
        None,
    );
    runtime.take_effects();
    runtime.handle_event(
        Event::Mouse(pointer(MouseEventKind::Down(MouseButton::Left), 5, 5)),
        NOW,
    );
    runtime.handle_event(Event::Other, NOW);
    assert!(runtime.take_effects().is_empty());
    assert!(runtime.pending_mouse.is_none());
}

#[test]
fn control_letters_do_not_tell_case() {
    for (lower, upper) in ('a'..='z').zip('A'..='Z') {
        let control = KeyModifiers {
            control: true,
            ..KeyModifiers::none()
        };
        let code = encode_key(KeyEvent::new(KeyCode::Char(lower), control)).unwrap();
        assert_eq!(
            encode_key(KeyEvent::new(KeyCode::Char(upper), control)),
            Some(code.clone())
        );
        assert!((1..=26).contains(&code[0]));
    }
}

#[test]
fn pastes_cannot_end_their_frame() {
    let pasted = paste::encode("x\x1b[201~\x07\u{9b}201~y", true).unwrap();
    let inner = &pasted[6..pasted.len() - 6];
    assert!(!inner.contains(&0x1b));
    assert_eq!(inner, b"x[201~201~y");
}

#[test]
fn hexadecimal_digits_come_in_pairs() {
    assert_eq!(hex(b""), "");
    assert_eq!(hex(&[0x00, 0x0f, 0xf0, 0xff]), "000ff0ff");
}

#[test]
fn listings_put_directories_first_and_sort_by_bytes() {
    let keys: Vec<SortKey> = [("b", false), ("Z", false), ("a", true), ("b", true)]
        .into_iter()
        .map(|(name, directory)| SortKey {
            name: name.as_bytes().to_vec(),
            directory,
        })
        .collect();
    assert_eq!(listing_order(&keys), [2, 3, 1, 0]);
}

#[test]
fn records_of_git_are_independent() {
    let one = parse_git_porcelain_v2(b"? a\0").unwrap();
    let both = parse_git_porcelain_v2(b"? a\0? b\0").unwrap();
    assert_eq!(one.len(), 1);
    assert_eq!(both.len(), 2);
    assert_eq!(both[0].path, one[0].path);
    assert!(both
        .iter()
        .all(|change| change.status == GitStatus::Untracked));
}

#[test]
fn content_is_counted_from_its_first_cell() {
    let layout =
        WorkbenchLayout::calculate(Rect::new(0, 0, 120, 40), WorkbenchLayoutConfig::default());
    assert_eq!(
        hit_test(layout, layout.agent.x + 4, layout.agent.y + 6),
        Some(MouseTarget::Content {
            pane: PaneId::Agent,
            row: 5,
            col: 3
        })
    );
}
