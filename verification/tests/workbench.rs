use ami_code::app::spike::{
    inner_terminal_size, pane_title, size_for_area, EmbeddedCommand, KeyAction, KeyFocus, KeyMode,
};
use ami_code::app::state::App;
use ami_code::event::{KeyCode, KeyEvent, KeyModifiers};
use ami_code::geometry::Rect;
use ami_code::path::FilePath;
use ami_code::terminal::process::TerminalSize;
use ami_code::terminal::selection::{TerminalPoint, TerminalRange};
use ami_code::workbench::focus::{Direction, FocusGraph};
use ami_code::workbench::hit_test::{
    hit_test, layout_handle_position, LayoutDivider, LayoutHandle, MouseTarget,
};
use ami_code::workbench::layout::{
    WorkbenchLayout, WorkbenchLayoutConfig, WorkbenchVisibility, MIN_SHELL_PANE_HEIGHT,
    MIN_TERMINAL_HEIGHT, MIN_TERMINAL_WIDTH,
};
use ami_code::workbench::mode::Mode;
use ami_code::workbench::pane::PaneId;
use ami_code::workbench::persistence::{
    LayoutError, LayoutIntent, LayoutStore, StateFile, MAX_SAVED_PANE_SIZE, SCHEMA_VERSION,
};
use ami_code::workbench::selection::PaneSelection;
use ami_code::workbench::state::WorkbenchState;
use ami_code::workbench::tabs::{
    shell_tab_geometry, shell_tab_hit_test, ShellTabId, ShellTabTarget, ShellTabs,
};
use ami_code::workspace::state_dir::Environment;
use ami_code::workspace::Workspace;

fn layout() -> WorkbenchLayout {
    WorkbenchLayout::calculate(Rect::new(0, 0, 120, 40), WorkbenchLayoutConfig::default())
}

#[test]
fn maps_terminal_content_to_local_coordinates() {
    assert_eq!(
        hit_test(layout(), 25, 1),
        Some(MouseTarget::Content {
            pane: PaneId::Editor,
            row: 0,
            col: 0
        })
    );
}

#[test]
fn chrome_has_priority_and_handles_have_priority_over_dividers() {
    let layout = layout();
    assert_eq!(
        hit_test(layout, layout.sidebar.x + 1, layout.sidebar.y),
        Some(MouseTarget::Handle(LayoutHandle::Sidebar))
    );
    assert_eq!(
        hit_test(layout, layout.bottom.x + 1, layout.bottom.y),
        Some(MouseTarget::Handle(LayoutHandle::Bottom))
    );
    assert_eq!(
        hit_test(layout, layout.editor.x, 2),
        Some(MouseTarget::Divider(LayoutDivider::SidebarMain))
    );
    assert_eq!(
        hit_test(layout, layout.agent.x, 2),
        Some(MouseTarget::Divider(LayoutDivider::EditorAgent))
    );
    assert_eq!(
        hit_test(layout, layout.editor.x + 2, layout.bottom.y),
        Some(MouseTarget::Divider(LayoutDivider::EditorBottom))
    );
}

#[test]
fn hidden_panes_keep_a_restore_handle() {
    let layout = WorkbenchLayout::calculate_visible(
        Rect::new(0, 0, 120, 40),
        WorkbenchLayoutConfig::default(),
        WorkbenchVisibility {
            sidebar: false,
            bottom: false,
        },
    );
    for handle in [LayoutHandle::Sidebar, LayoutHandle::Bottom] {
        let (column, row) = layout_handle_position(layout, handle);
        assert_eq!(
            hit_test(layout, column, row),
            Some(MouseTarget::Handle(handle))
        );
    }
}

#[test]
fn uses_55_45_post_sidebar_geometry() {
    let area = Rect::new(0, 0, 160, 50);
    let layout = WorkbenchLayout::calculate(area, WorkbenchLayoutConfig::default());

    assert_eq!(layout.sidebar.width, 24);
    assert_eq!((layout.editor.width, layout.agent.width), (75, 61));
    assert_eq!(layout.bottom.height, 12);
    assert_eq!(layout.agent.height, 50);
    assert_eq!(layout.bottom.y, 38);
    assert_eq!(layout.bottom.x, layout.editor.x);
    assert_eq!(layout.bottom.width, layout.editor.width);
}

#[test]
fn exhaustive_small_viewports_are_contained_and_visible_terminals_are_nonzero() {
    let config = WorkbenchLayoutConfig::default();
    for width in 0..=80 {
        for height in 0..=24 {
            let area = Rect::new(7, 9, width, height);
            for visibility in [
                WorkbenchVisibility {
                    sidebar: false,
                    bottom: false,
                },
                WorkbenchVisibility {
                    sidebar: true,
                    bottom: false,
                },
                WorkbenchVisibility {
                    sidebar: false,
                    bottom: true,
                },
                WorkbenchVisibility {
                    sidebar: true,
                    bottom: true,
                },
            ] {
                let layout = WorkbenchLayout::calculate_visible(area, config, visibility);
                for pane in [layout.sidebar, layout.editor, layout.agent, layout.bottom] {
                    assert!(pane.right() <= area.right());
                    assert!(pane.bottom() <= area.bottom());
                }
                for pane in [layout.editor, layout.agent] {
                    if pane.width != 0 || pane.height != 0 {
                        assert!(pane.width >= MIN_TERMINAL_WIDTH);
                        assert!(pane.height >= MIN_TERMINAL_HEIGHT);
                    }
                }
                if layout.bottom.width != 0 || layout.bottom.height != 0 {
                    assert!(layout.bottom.width >= MIN_TERMINAL_WIDTH);
                    assert!(layout.bottom.height >= MIN_SHELL_PANE_HEIGHT);
                }
            }
        }
    }
}

#[test]
fn editor_agent_width_is_cell_exact_after_manual_drag() {
    let config = WorkbenchLayoutConfig {
        editor_width: Some(77),
        ..WorkbenchLayoutConfig::default()
    };
    let layout = WorkbenchLayout::calculate(Rect::new(0, 0, 160, 40), config);
    assert_eq!((layout.editor.width, layout.agent.width), (77, 59));
}

#[test]
fn shell_tab_row_requires_five_pane_rows() {
    let config = WorkbenchLayoutConfig {
        bottom_height: MIN_SHELL_PANE_HEIGHT,
        ..WorkbenchLayoutConfig::default()
    };
    let hidden = WorkbenchLayout::calculate_visible(
        Rect::new(0, 0, 120, 8),
        config,
        WorkbenchVisibility {
            sidebar: false,
            bottom: true,
        },
    );
    assert_eq!(hidden.bottom, Rect::default());

    let visible = WorkbenchLayout::calculate_visible(
        Rect::new(0, 0, 120, 9),
        config,
        WorkbenchVisibility {
            sidebar: false,
            bottom: true,
        },
    );
    assert_eq!(visible.editor.height, MIN_TERMINAL_HEIGHT);
    assert_eq!(visible.bottom.height, MIN_SHELL_PANE_HEIGHT);
}

#[test]
fn eighty_by_twenty_four_is_safe() {
    let config = WorkbenchLayoutConfig::default();
    let layout = WorkbenchLayout::calculate(Rect::new(0, 0, 80, 24), config);
    assert!(!layout.compact);
    assert_eq!((layout.editor.width, layout.agent.width), (31, 25));
    assert_eq!((layout.editor.height, layout.bottom.height), (12, 12));
}

#[test]
fn keeps_anchor_while_head_moves() {
    let anchor = TerminalPoint::new(1, 2);
    let mut selection = PaneSelection::new(PaneId::Editor, anchor);
    selection.set_head(TerminalPoint::new(0, 4));

    assert_eq!(selection.pane(), PaneId::Editor);
    assert_eq!(selection.head(), TerminalPoint::new(0, 4));
    assert_eq!(selection.range().start, TerminalPoint::new(0, 4));
    assert_eq!(selection.range().end, anchor);
}

#[test]
fn defaults_to_editor_focus() {
    let state = WorkbenchState::default();
    assert_eq!(state.focused_pane(), PaneId::Editor);
    assert!(state.pane(PaneId::Sidebar).is_some());
    assert!(state.pane(PaneId::Bottom).is_some());
}

#[test]
fn owns_selection_for_one_pane() {
    let mut state = WorkbenchState::default();
    state.begin_selection(TerminalPoint::new(2, 3));
    state.set_selection_head(TerminalPoint::new(4, 5));
    assert_eq!(
        state.selection_range(PaneId::Editor),
        Some(TerminalRange::inclusive(
            TerminalPoint::new(2, 3),
            TerminalPoint::new(4, 5)
        ))
    );
    assert_eq!(state.selection_range(PaneId::Agent), None);
    state.clear_selection();
    assert_eq!(state.selection(), None);
}

#[test]
fn auto_collapse_uses_thresholds_and_recovers() {
    let mut state = WorkbenchState::default();
    let config = WorkbenchLayoutConfig::default();
    state.update_auto_collapse(
        Rect::new(
            0,
            0,
            config.sidebar_shortage_width().saturating_sub(1),
            config.bottom_shortage_height().saturating_sub(1),
        ),
        config,
    );
    assert!(state.sidebar_collapse().is_automatically_collapsed());
    assert!(state.bottom_collapse().is_automatically_collapsed());
    state.update_auto_collapse(
        Rect::new(
            0,
            0,
            config.sidebar_shortage_width(),
            config.bottom_shortage_height(),
        ),
        config,
    );
    assert!(!state.sidebar_collapse().is_collapsed());
    assert!(!state.bottom_collapse().is_collapsed());
}

#[test]
fn responsive_breakpoints_hide_secondary_panes_before_backends() {
    let mut state = WorkbenchState::default();
    let config = WorkbenchLayoutConfig::default();
    for (cols, rows, sidebar, bottom) in [
        (120, 40, true, true),
        (100, 30, false, true),
        (120, 23, true, false),
        (120, 40, true, true),
        (80, 24, false, true),
        (160, 50, true, true),
    ] {
        let area = Rect::new(0, 0, cols, rows);
        state.update_auto_collapse(area, config);
        assert_eq!(state.visibility(), WorkbenchVisibility { sidebar, bottom });
        let layout = WorkbenchLayout::calculate_visible(area, config, state.visibility());
        assert!(layout.editor.width > 0 && layout.agent.width > 0, "{cols}x{rows}");
        assert_eq!(layout.sidebar.width > 0, sidebar, "{cols}x{rows}");
        assert_eq!(layout.bottom.height > 0, bottom, "{cols}x{rows}");
    }
}

#[test]
fn wide_secondary_panes_still_need_room() {
    let config = WorkbenchLayoutConfig {
        sidebar_width: 200,
        editor_width: None,
        bottom_height: 60,
    };
    assert_eq!(config.sidebar_shortage_width(), 208);
    assert_eq!(config.bottom_shortage_height(), 64);
}

#[test]
fn automatic_collapse_never_changes_serialized_manual_intent() {
    let mut state = WorkbenchState::default();
    state.toggle_sidebar();
    let config = WorkbenchLayoutConfig::default();
    let before = state.layout_intent(config);
    state.update_auto_collapse(Rect::new(0, 0, 1, 1), config);
    assert_eq!(state.layout_intent(config), before);
}

#[test]
fn manual_and_auto_collapse_follow_full_truth_table() {
    let config = WorkbenchLayoutConfig::default();
    for manual in [false, true] {
        for automatic in [false, true] {
            let mut state = WorkbenchState::default();
            if manual {
                state.toggle_sidebar();
            }
            let width = if automatic {
                config.sidebar_shortage_width().saturating_sub(1)
            } else {
                config.sidebar_shortage_width()
            };
            state.update_auto_collapse(Rect::new(0, 0, width, 24), config);
            assert_eq!(state.sidebar_collapse().is_manually_collapsed(), manual);
            assert_eq!(
                state.sidebar_collapse().is_automatically_collapsed(),
                automatic
            );
            assert_eq!(state.sidebar_collapse().is_collapsed(), manual || automatic);
        }
    }
}

#[test]
fn layout_toggle_preserves_unrelated_focus_and_selection() {
    let mut state = WorkbenchState::default();
    state.begin_selection(TerminalPoint::new(2, 3));
    state.set_selection_head(TerminalPoint::new(4, 5));

    state.toggle_sidebar();
    state.toggle_bottom();

    assert_eq!(state.focused_pane(), PaneId::Editor);
    assert_eq!(
        state.selection_range(PaneId::Editor),
        Some(TerminalRange::inclusive(
            TerminalPoint::new(2, 3),
            TerminalPoint::new(4, 5)
        ))
    );
}

#[test]
fn collapsing_focused_pane_returns_focus_to_editor() {
    let mut state = WorkbenchState::default();
    assert!(state.focus_pane(PaneId::Bottom));
    state.toggle_bottom();
    assert_eq!(state.focused_pane(), PaneId::Editor);
}

#[test]
fn close_active_prefers_right_then_previous_and_inactive_preserves_active() {
    let three_tabs = || {
        let mut tabs = ShellTabs::default();
        let two = tabs.new_tab();
        let three = tabs.new_tab();
        (tabs, two, three)
    };

    let (mut first, two, _) = three_tabs();
    first.select(ShellTabId(1));
    first.close(ShellTabId(1));
    assert_eq!(first.active(), two);

    let (mut middle, two, three) = three_tabs();
    middle.select(two);
    middle.close(two);
    assert_eq!(middle.active(), three);

    let (mut last, two, three) = three_tabs();
    last.close(three);
    assert_eq!(last.active(), two);

    let (mut inactive, _, three) = three_tabs();
    inactive.close(ShellTabId(1));
    assert_eq!(inactive.active(), three);
}

#[test]
fn closing_last_allocates_a_new_monotonic_identity() {
    let mut tabs = ShellTabs::default();
    let (_, replacement) = tabs.close(ShellTabId(1)).unwrap();
    assert_eq!(replacement, Some(ShellTabId(2)));
    assert_eq!(tabs.new_tab(), ShellTabId(3));
}

#[test]
fn display_numbers_follow_current_order_not_historical_ids() {
    let mut tabs = ShellTabs::default();
    let two = tabs.new_tab();
    let three = tabs.new_tab();
    tabs.close(two);
    let four = tabs.new_tab();

    let (geometry, _) = shell_tab_geometry(Rect::new(0, 0, 40, 10), &tabs);
    assert_eq!(
        geometry
            .iter()
            .map(|tab| (tab.id, tab.display_number))
            .collect::<Vec<_>>(),
        vec![(ShellTabId(1), 1), (three, 2), (four, 3)]
    );
}

#[test]
fn one_hundred_last_tab_replacements_never_reuse_identity() {
    let mut tabs = ShellTabs::default();
    let mut previous = tabs.active();
    for _ in 0..100 {
        let (_, replacement) = tabs.close(previous).unwrap();
        let replacement = replacement.expect("closing the last tab creates a replacement");
        assert!(replacement > previous);
        assert_eq!(tabs.len(), 1);
        assert_eq!(tabs.active(), replacement);
        let (geometry, _) = shell_tab_geometry(Rect::new(0, 0, 20, 6), &tabs);
        assert_eq!(geometry[0].display_number, 1);
        previous = replacement;
    }
    assert_eq!(previous, ShellTabId(101));
    assert_eq!(tabs.new_tab(), ShellTabId(102));
}

#[test]
fn geometry_distinguishes_body_close_plus_and_keeps_active_in_overflow() {
    let mut tabs = ShellTabs::default();
    for _ in 0..8 {
        tabs.new_tab();
    }
    let area = Rect::new(10, 4, 24, 10);
    let (geometry, plus) = shell_tab_geometry(area, &tabs);
    assert!(geometry.iter().any(|tab| tab.id == tabs.active()));
    let active = geometry.iter().find(|tab| tab.id == tabs.active()).unwrap();
    assert_eq!(
        shell_tab_hit_test(area, &tabs, active.x, 5),
        Some(ShellTabTarget::Body(active.id))
    );
    assert_eq!(
        shell_tab_hit_test(area, &tabs, active.close_x, 5),
        Some(ShellTabTarget::Close(active.id))
    );
    let (x, y) = plus.unwrap();
    assert_eq!(
        shell_tab_hit_test(area, &tabs, x, y),
        Some(ShellTabTarget::Plus)
    );
}

fn intent() -> LayoutIntent {
    LayoutIntent {
        config: WorkbenchLayoutConfig {
            sidebar_width: 31,
            editor_width: Some(67),
            bottom_height: 15,
        },
        sidebar_collapsed: true,
        bottom_collapsed: true,
    }
}

fn store(root: &str) -> LayoutStore {
    LayoutStore::new(&FilePath::from_text(root), &FilePath::from_text("/state"))
}

#[test]
fn roots_are_isolated_and_all_five_fields_roundtrip() {
    let first = store("/canonical/one");
    let second = store("/canonical/two");
    assert_ne!(first.path(), second.path());
    let saved = first.save(intent()).unwrap();
    assert_eq!(first.load(Some(&saved)).unwrap(), Some(intent()));
    assert_eq!(second.load(None).unwrap(), None);
    assert_eq!(
        second.load(Some(&saved)),
        Err(LayoutError::DifferentWorkspace)
    );
}

fn file(store: &LayoutStore) -> StateFile {
    StateFile {
        version: SCHEMA_VERSION,
        workspace_root: store.workspace_identity.clone(),
        sidebar_width: 24,
        editor_width: None,
        bottom_height: 12,
        sidebar_collapsed: false,
        bottom_collapsed: false,
    }
}

#[test]
fn corrupt_future_wrong_root_and_invalid_files_are_rejected() {
    let store = store("/canonical/one");
    assert!(store.load(Some(&file(&store))).unwrap().is_some());
    let cases = [
        (
            StateFile {
                version: SCHEMA_VERSION + 1,
                ..file(&store)
            },
            "unsupported saved layout version 2",
        ),
        (
            StateFile {
                workspace_root: "another-root".to_string(),
                ..file(&store)
            },
            "saved layout belongs to a different workspace",
        ),
        (
            StateFile {
                sidebar_width: 0,
                ..file(&store)
            },
            "saved sidebar width is below the terminal minimum",
        ),
        (
            StateFile {
                editor_width: Some(MAX_SAVED_PANE_SIZE + 1),
                ..file(&store)
            },
            "saved editor width exceeds the supported maximum",
        ),
        (
            StateFile {
                bottom_height: 0,
                ..file(&store)
            },
            "saved bottom height is below the terminal minimum",
        ),
    ];
    for (state, message) in cases {
        assert_eq!(store.load(Some(&state)).unwrap_err().message(), message);
    }
    let flawed = LayoutIntent {
        config: WorkbenchLayoutConfig {
            bottom_height: MAX_SAVED_PANE_SIZE + 1,
            ..WorkbenchLayoutConfig::default()
        },
        ..intent()
    };
    assert_eq!(
        store.save(flawed).unwrap_err().message(),
        "saved bottom height exceeds the supported maximum"
    );
}

#[test]
fn layouts_are_kept_below_the_place_for_state() {
    let store = LayoutStore::new(&FilePath::from_text("/a"), &FilePath::from_text("/state"));
    assert_eq!(store.workspace_identity, "unix:2f61");
    let path = store.path().to_text().unwrap();
    assert_eq!(
        path,
        "/state/layouts/b910de465efddbd46adaeb8b69a5accfa5e0a3953e9d96d256d1157f830ce3ca.json"
    );
    let temporary = store.unique_temp_path(12, 3).to_text().unwrap();
    let name = path.strip_prefix("/state/layouts/").unwrap();
    assert_eq!(temporary, format!("/state/layouts/.{name}.12.3.tmp"));
}

fn environment(state: Option<&str>, xdg: Option<&str>, home: Option<&str>) -> Environment {
    Environment {
        state_dir: state.map(FilePath::from_text),
        xdg_state_home: xdg.map(FilePath::from_text),
        home: home.map(FilePath::from_text),
        current_dir: None,
        macos: false,
    }
}

#[test]
fn layout_stores_follow_the_environment() {
    let root = FilePath::from_text("/w");
    let directory = |environment: Environment| {
        LayoutStore::from_environment(&root, &environment)
            .unwrap()
            .directory
            .to_text()
            .unwrap()
    };
    assert_eq!(
        directory(environment(Some("/s"), Some("/x"), Some("/h"))),
        "/s/layouts"
    );
    assert_eq!(
        directory(environment(None, Some("/x"), Some("/h"))),
        "/x/ami-code/layouts"
    );
    assert_eq!(
        directory(environment(None, None, Some("/h"))),
        "/h/.local/state/ami-code/layouts"
    );
    let mut mac = environment(None, None, Some("/h"));
    mac.macos = true;
    assert_eq!(
        directory(mac),
        "/h/Library/Application Support/ami-code/layouts"
    );
    let none = LayoutStore::from_environment(&root, &environment(None, None, None));
    assert_eq!(
        none.unwrap_err().message(),
        "no state directory: set AMI_CODE_STATE_DIR, XDG_STATE_HOME, or HOME"
    );
}

#[test]
fn focus_moves_to_the_neighbour_and_back() {
    let graph = FocusGraph::default();
    assert_eq!(
        graph.next(PaneId::Editor, Direction::Right),
        PaneId::Agent
    );
    assert_eq!(graph.next(PaneId::Agent, Direction::Left), PaneId::Editor);
    assert_eq!(graph.next(PaneId::Agent, Direction::Right), PaneId::Agent);
    assert_eq!(graph.next(PaneId::Editor, Direction::Down), PaneId::Bottom);
}

#[test]
fn apps_start_in_their_editor() {
    let app = App::new(Workspace::at(FilePath::from_text("/w")));
    assert_eq!(app.workspace().root().to_text().unwrap(), "/w");
    assert_eq!(app.mode(), Mode::Edit);
    assert_eq!(app.focused_pane(), PaneId::Editor);
}

#[test]
fn unsupervised_panes_take_keys_by_their_mode() {
    let control = KeyModifiers {
        control: true,
        ..KeyModifiers::none()
    };
    let plain = |code| KeyEvent::new(code, KeyModifiers::none());
    let mut focus = KeyFocus::new();
    assert!(matches!(
        focus.handle_key(plain(KeyCode::Char('l'))),
        KeyAction::Write { pane: PaneId::Editor, bytes } if bytes == b"l"
    ));
    assert!(matches!(
        focus.handle_key(KeyEvent::new(KeyCode::Char('l'), control)),
        KeyAction::Handled
    ));
    assert_eq!(focus.focused, PaneId::Agent);
    focus.handle_key(KeyEvent::new(KeyCode::Char(' '), control));
    assert_eq!(focus.mode, KeyMode::Control);
    assert!(matches!(
        focus.handle_key(plain(KeyCode::Char('h'))),
        KeyAction::Handled
    ));
    assert_eq!(focus.focused, PaneId::Editor);
    focus.handle_key(plain(KeyCode::Char('j')));
    assert_eq!(focus.focused, PaneId::Bottom);
    focus.handle_key(plain(KeyCode::Char('k')));
    focus.handle_key(plain(KeyCode::Char('h')));
    assert_eq!(focus.focused, PaneId::Sidebar);
    focus.handle_key(plain(KeyCode::Esc));
    assert_eq!(focus.mode, KeyMode::Edit);
    assert!(matches!(
        focus.handle_key(plain(KeyCode::Char('x'))),
        KeyAction::Handled
    ));
    assert!(matches!(
        focus.handle_key(KeyEvent::new(KeyCode::Char('q'), control)),
        KeyAction::Quit
    ));
}

#[test]
fn embedded_commands_run_in_the_current_directory() {
    let spec = EmbeddedCommand::Shell.process_spec(Some("/bin/zsh"), FilePath::from_text("/w"));
    assert_eq!(spec.program, "/bin/zsh");
    assert_eq!(spec.display_name, "shell");
    assert_eq!(spec.env_value("TERM").as_deref(), Some("xterm-256color"));
    assert_eq!(spec.cwd, Some(FilePath::from_text("/w")));
    assert_eq!(
        EmbeddedCommand::Shell
            .process_spec(None, FilePath::from_text("/w"))
            .program,
        "sh"
    );
    assert_eq!(
        EmbeddedCommand::Nvim
            .process_spec(None, FilePath::from_text("/w"))
            .program,
        "nvim"
    );
    assert_eq!(EmbeddedCommand::Pi.title(), "pi");
    assert_eq!(
        pane_title("pi"),
        "ami-code pi spike — Ctrl+Q to quit"
    );
    assert_eq!(inner_terminal_size(80, 24), (78, 22));
    assert_eq!(inner_terminal_size(1, 1), (2, 2));
    assert_eq!(size_for_area((22, 78), Rect::new(0, 0, 80, 24)), None);
    assert_eq!(
        size_for_area((22, 78), Rect::new(0, 0, 80, 25)),
        Some(TerminalSize::new(78, 23))
    );
}
