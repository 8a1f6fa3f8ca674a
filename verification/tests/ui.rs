use ami_code::geometry::Rect;
use ami_code::terminal::process::TerminalSize;
use ami_code::terminal::selection::{TerminalPoint, TerminalRange};
use ami_code::ui::context_menu::{
    menu_item_style, render_context_menu, ContextMenu, ContextMenuAction, MENU_HEIGHT,
};
use ami_code::ui::controls::render_layout_controls;
use ami_code::ui::sidebar::{
    git_color, git_marker, kind_marker, render_sidebar, sidebar_line, SidebarStyle,
};
use ami_code::ui::style::{Color, Line};
use ami_code::ui::terminal::{
    indexed_color, render_compact_workbench, render_shell_terminal_pane, render_terminal_pane,
    render_unavailable_terminal_pane, shell_terminal_content_size, styled_screen_lines, tab_label,
    terminal_content_size, PaneBody, ShellTerminalPaneView, TerminalPaneStyle,
};
use ami_code::workbench::hit_test::{layout_handle_position, LayoutHandle};
use ami_code::workbench::layout::{
    WorkbenchLayout, WorkbenchLayoutConfig, WorkbenchVisibility,
};
use ami_code::workbench::tabs::ShellTabs;
use ami_code::workspace::git::{GitDecoration, GitStatus};
use ami_code::workspace::rows::SidebarRow;
use ami_code::workspace::tree::EntryKind;

#[test]
fn content_size_excludes_border() {
    assert_eq!(
        terminal_content_size(Rect::new(0, 0, 120, 30)),
        TerminalSize::new(118, 28)
    );
    assert_eq!(
        terminal_content_size(Rect::new(0, 0, 1, 1)),
        TerminalSize::new(2, 2)
    );
    assert_eq!(
        shell_terminal_content_size(Rect::new(0, 0, 120, 30)),
        TerminalSize::new(118, 27)
    );
    assert_eq!(
        shell_terminal_content_size(Rect::new(0, 0, 20, 5)),
        TerminalSize::new(18, 2)
    );
}

#[test]
fn preserves_cell_colors_and_inverse() {
    let mut parser = vt100::Parser::new(1, 2, 0);
    parser.process(b"\x1b[31;44;7mA");
    let lines = styled_screen_lines(parser.screen(), None);
    let style = lines[0].spans[0].style;

    assert_eq!(style.fg, Some(Color::Blue));
    assert_eq!(style.bg, Some(Color::Red));
}

#[test]
fn preserves_rgb_colors_and_modifiers() {
    let mut parser = vt100::Parser::new(1, 2, 0);
    parser.process(b"\x1b[38;2;1;2;3;48;2;4;5;6;1;3;4mA");
    let lines = styled_screen_lines(parser.screen(), None);
    let style = lines[0].spans[0].style;

    assert_eq!(style.fg, Some(Color::Rgb(1, 2, 3)));
    assert_eq!(style.bg, Some(Color::Rgb(4, 5, 6)));
    assert!(style.bold);
    assert!(style.italic);
    assert!(style.underlined);
}

#[test]
fn renders_cursor_as_highlighted_cell() {
    let parser = vt100::Parser::new(1, 1, 0);
    let lines = styled_screen_lines(parser.screen(), None);
    let style = lines[0].spans[0].style;

    assert_eq!(style.fg, Some(Color::Black));
    assert_eq!(style.bg, Some(Color::LightYellow));
}

#[test]
fn highlights_selected_cells() {
    let mut parser = vt100::Parser::new(1, 3, 0);
    parser.process(b"abc");
    let selection = TerminalRange::inclusive(TerminalPoint::new(0, 1), TerminalPoint::new(0, 2));
    let lines = styled_screen_lines(parser.screen(), Some(selection));

    assert_ne!(lines[0].spans[0].style.bg, Some(Color::LightBlue));
    assert_eq!(lines[0].spans[1].style.bg, Some(Color::LightBlue));
    assert_eq!(lines[0].spans[2].style.bg, Some(Color::LightBlue));
}

fn text(line: &Line) -> String {
    line.spans.iter().map(|span| span.content.as_str()).collect()
}

#[test]
fn lines_hold_the_text_of_their_rows() {
    let mut parser = vt100::Parser::new(2, 6, 4);
    parser.process("a中\r\nb\x1b[2mc".as_bytes());
    let lines = styled_screen_lines(parser.screen(), None);
    assert_eq!(lines.len(), 2);
    assert_eq!(text(&lines[0]), "a中   ");
    assert_eq!(lines[0].spans.len(), 5);
    assert_eq!(text(&lines[1]), "bc    ");
    assert!(lines[1].spans[1].style.dim);
    assert!(!lines[1].spans[0].style.dim);
}

#[test]
fn selections_follow_the_history() {
    let mut parser = vt100::Parser::new(2, 3, 4);
    parser.process(b"1\r\n2\r\n3");
    parser.screen_mut().set_scrollback(1);
    let selection = TerminalRange::inclusive(TerminalPoint::new(-1, 0), TerminalPoint::new(-1, 0));
    let lines = styled_screen_lines(parser.screen(), Some(selection));
    assert_eq!(text(&lines[0]), "1  ");
    assert_eq!(lines[0].spans[0].style.bg, Some(Color::LightBlue));
    assert_ne!(lines[1].spans[0].style.bg, Some(Color::LightBlue));
}

#[test]
fn the_first_colors_have_names() {
    assert_eq!(indexed_color(0), Color::Black);
    assert_eq!(indexed_color(7), Color::Gray);
    assert_eq!(indexed_color(15), Color::White);
    assert_eq!(indexed_color(16), Color::Indexed(16));
    assert_eq!(indexed_color(255), Color::Indexed(255));
}

#[test]
fn labels_end_in_a_cross() {
    assert_eq!(tab_label(1, 7, true), "●1 ×  ×");
    assert_eq!(tab_label(2, 7, false), " 2 ×  ×");
    assert_eq!(tab_label(12345678, 7, false), " 12345×");
    assert_eq!(tab_label(1, 1, true), "×");
    assert_eq!(tab_label(1, 0, true), "");
}

#[test]
fn panes_show_a_screen_or_say_why_not() {
    let mut parser = vt100::Parser::new(2, 6, 4);
    parser.process(b"hi");
    let style = TerminalPaneStyle::default();
    let pane = render_terminal_pane(parser.screen(), "nvim", true, None, style);
    assert_eq!(pane.title, "nvim");
    assert_eq!(pane.border, Color::LightYellow);
    assert!(matches!(&pane.body, PaneBody::Screen(lines) if text(&lines[0]) == "hi    "));

    let missing = render_unavailable_terminal_pane("pi", "gone", false, style);
    assert_eq!(missing.border, Color::Cyan);
    assert!(matches!(
        &missing.body,
        PaneBody::Message { text, style } if text == "gone" && style.fg == Some(Color::Yellow)
    ));
    assert!(matches!(
        render_compact_workbench(),
        PaneBody::Message { text, .. } if text == "workbench needs at least 6 columns × 3 rows"
    ));
}

#[test]
fn shell_panes_have_tabs_above_their_screen() {
    let mut tabs = ShellTabs::default();
    tabs.new_tab();
    let area = Rect::new(2, 3, 30, 8);
    let view = ShellTerminalPaneView {
        screen: None,
        title: "shell",
        message: None,
        focused: false,
        selection: None,
        tabs: &tabs,
        style: TerminalPaneStyle::default(),
    };
    let painted = render_shell_terminal_pane(area, &view);
    assert_eq!(painted.marks.len(), 3);
    assert_eq!(painted.marks[0].area, Rect::new(3, 4, 7, 1));
    assert_eq!(painted.marks[0].content, " 1 ×  ×");
    assert_eq!(painted.marks[0].style.fg, Some(Color::Gray));
    assert_eq!(painted.marks[1].area, Rect::new(10, 4, 7, 1));
    assert_eq!(painted.marks[1].content, "●2 ×  ×");
    assert_eq!(painted.marks[1].style.bg, Some(Color::LightCyan));
    assert!(painted.marks[1].style.bold);
    assert_eq!(painted.marks[2].area, Rect::new(30, 4, 1, 1));
    assert_eq!(painted.marks[2].content, "+");
    assert_eq!(painted.content, Rect::new(3, 5, 28, 5));
    assert!(matches!(
        &painted.pane.body,
        PaneBody::Message { text, .. } if text == "unavailable"
    ));
}

#[test]
fn menu_clamps_to_viewport_and_owns_only_command_cells() {
    let menu = ContextMenu::new(Rect::new(5, 3, 20, 10), 24, 12, true);
    assert_eq!(menu.area(), Rect::new(13, 9, 12, 4));
    assert_eq!(menu.action_at(14, 10), Some(ContextMenuAction::Copy));
    assert_eq!(menu.action_at(14, 11), Some(ContextMenuAction::Paste));
    assert_eq!(menu.action_at(13, 10), None);
    assert_eq!(menu.action_at(14, 9), None);
}

#[test]
fn fixed_menu_disables_copy_without_changing_content_geometry() {
    let mut menu = ContextMenu::new(Rect::new(0, 0, 20, 10), 2, 2, false);
    assert_eq!(menu.area().height, MENU_HEIGHT);
    assert_eq!(menu.action_at(3, 3), None);
    assert_eq!(menu.action_at(3, 4), Some(ContextMenuAction::Paste));

    menu.update_hover(3, 3);
    assert_eq!(menu.hovered(), None);
    menu.update_hover(3, 4);
    assert_eq!(menu.hovered(), Some(ContextMenuAction::Paste));
    menu.update_hover(19, 9);
    assert_eq!(menu.hovered(), None);
}

#[test]
fn hover_follows_enabled_copy_and_paste_rows() {
    let mut menu = ContextMenu::new(Rect::new(0, 0, 20, 10), 2, 2, true);
    assert_eq!(menu.hovered(), None);
    menu.update_hover(3, 3);
    assert_eq!(menu.hovered(), Some(ContextMenuAction::Copy));
    menu.update_hover(3, 4);
    assert_eq!(menu.hovered(), Some(ContextMenuAction::Paste));
}

#[test]
fn menus_are_painted_with_their_commands() {
    let mut menu = ContextMenu::new(Rect::new(0, 0, 20, 10), 2, 2, false);
    menu.update_hover(3, 4);
    let painted = render_context_menu(menu);
    assert_eq!(painted.area, Rect::new(2, 2, 12, 4));
    assert_eq!(painted.border, Color::DarkGray);
    assert_eq!(painted.style.bg, Some(Color::Rgb(38, 38, 40)));
    assert_eq!(text(&painted.lines[0]), " Copy     ");
    assert_eq!(painted.lines[0].style, menu_item_style(false, false));
    assert_eq!(painted.lines[0].style.fg, Some(Color::DarkGray));
    assert_eq!(text(&painted.lines[1]), " Paste    ");
    assert_eq!(painted.lines[1].style.bg, Some(Color::White));
    assert!(painted.lines[1].style.bold);
    assert_eq!(menu_item_style(false, true).fg, Some(Color::White));
}

#[test]
fn maps_every_git_status_to_the_expected_marker() {
    assert_eq!(git_marker(Some(GitStatus::Modified)), Some('M'));
    assert_eq!(git_marker(Some(GitStatus::Added)), Some('A'));
    assert_eq!(git_marker(Some(GitStatus::Deleted)), Some('D'));
    assert_eq!(git_marker(Some(GitStatus::Renamed)), Some('R'));
    assert_eq!(git_marker(Some(GitStatus::Conflict)), Some('U'));
    assert_eq!(git_marker(Some(GitStatus::Untracked)), Some('?'));
    assert_eq!(git_marker(None), None);
}

fn row(kind: EntryKind) -> SidebarRow {
    SidebarRow {
        path: vec![b"src".to_vec(), b"main.rs".to_vec()],
        name: b"main.rs".to_vec(),
        depth: 2,
        kind,
        expanded: false,
        loading: false,
        selected: false,
        error: None,
        git: GitDecoration::default(),
    }
}

#[test]
fn rows_show_depth_marker_name_and_status() {
    let mut file = row(EntryKind::File);
    assert_eq!(text(&sidebar_line(&file)), "      main.rs");
    file.git.status = Some(GitStatus::Modified);
    file.selected = true;
    let line = sidebar_line(&file);
    assert_eq!(text(&line), "      main.rs M");
    assert_eq!(line.spans[3].style.fg, Some(Color::Yellow));
    assert_eq!(line.style.bg, Some(Color::DarkGray));
    assert!(line.style.bold);

    let mut directory = row(EntryKind::Directory);
    directory.depth = 0;
    directory.expanded = true;
    directory.git.dirty_descendant = true;
    assert_eq!(text(&sidebar_line(&directory)), "▾ main.rs *");
    directory.loading = true;
    assert_eq!(text(&sidebar_line(&directory)), "… main.rs *");
    directory.loading = false;
    directory.expanded = false;
    directory.error = Some("denied".to_string());
    let line = sidebar_line(&directory);
    assert_eq!(text(&line), "▸ main.rs ! denied *");
    assert_eq!(line.spans[1].style.fg, Some(Color::LightRed));

    let mut link = row(EntryKind::Symlink);
    link.depth = 0;
    link.error = Some("cycle".to_string());
    assert_eq!(text(&sidebar_line(&link)), "! main.rs @ ! cycle");
    assert_eq!(kind_marker(EntryKind::Deleted).as_deref(), Some(" ×"));
    assert_eq!(kind_marker(EntryKind::Other).as_deref(), Some(" ?"));
    assert_eq!(kind_marker(EntryKind::File), None);
    assert_eq!(git_color(None), Color::Reset);
    assert_eq!(git_color(Some(GitStatus::Untracked)), Color::Green);
    assert_eq!(git_color(Some(GitStatus::Conflict)), Color::LightRed);
}

#[test]
fn names_that_are_not_text_are_shown_with_replacements() {
    let mut file = row(EntryKind::File);
    file.depth = 0;
    file.name = b"a\xffb".to_vec();
    assert_eq!(text(&sidebar_line(&file)), "  a\u{fffd}b");
}

#[test]
fn sidebars_spell_out_an_error_when_they_are_empty() {
    let style = SidebarStyle::default();
    let empty = render_sidebar(&[], Some("no git"), true, style);
    assert_eq!(empty.title, "  sidebar !");
    assert_eq!(empty.border, Color::LightYellow);
    assert_eq!(empty.lines.len(), 1);
    assert_eq!(text(&empty.lines[0]), "! no git");
    assert_eq!(empty.lines[0].style.fg, Some(Color::LightRed));

    let rows = [row(EntryKind::File)];
    let full = render_sidebar(&rows, Some("no git"), false, style);
    assert_eq!(full.title, "  sidebar !");
    assert_eq!(full.border, Color::DarkGray);
    assert_eq!(full.lines.len(), 1);
    assert_eq!(text(&full.lines[0]), "      main.rs");
    assert_eq!(render_sidebar(&rows, None, false, style).title, "  sidebar");
}

#[test]
fn hidden_panes_have_their_arrow_at_their_handle() {
    let area = Rect::new(0, 0, 120, 40);
    let hidden = WorkbenchLayout::calculate_visible(
        area,
        WorkbenchLayoutConfig::default(),
        WorkbenchVisibility {
            sidebar: false,
            bottom: false,
        },
    );
    let marks = render_layout_controls(hidden);
    for (mark, handle) in marks.iter().zip([LayoutHandle::Sidebar, LayoutHandle::Bottom]) {
        let (x, y) = layout_handle_position(hidden, handle);
        assert_eq!(mark.area, Rect::new(x, y, 1, 1));
    }
    assert_eq!(marks[0].content, "▶");
    assert_eq!(marks[1].content, "▲");

    let shown = WorkbenchLayout::calculate(area, WorkbenchLayoutConfig::default());
    let marks = render_layout_controls(shown);
    assert_eq!(marks[0].content, "◀");
    assert_eq!(
        marks[0].area,
        Rect::new(shown.editor.x, shown.editor.y, 1, 1)
    );
    assert_eq!(marks[1].content, "▼");
    assert_eq!(marks[1].style.fg, Some(Color::DarkGray));

    let compact = WorkbenchLayout::calculate(
        Rect::new(0, 0, 5, 2),
        WorkbenchLayoutConfig::default(),
    );
    assert!(render_layout_controls(compact).is_empty());
}
