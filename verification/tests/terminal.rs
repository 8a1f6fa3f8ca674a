use ami_code::event::{
    KeyCode, KeyEvent, KeyModifiers, MouseButton, MouseEvent, MouseEventKind,
};
use ami_code::terminal::emulator::{MouseProtocolEncoding, MouseProtocolMode};
use ami_code::terminal::input::encode_key;
use ami_code::terminal::mouse;
use ami_code::terminal::paste::{self, PasteError};
use ami_code::terminal::process::{ProcessSpec, TerminalSize};
use ami_code::terminal::query::responses;
use ami_code::terminal::selection::{
    extract, max_scrollback, normalize_point, TerminalPoint, TerminalRange,
};
use ami_code::terminal::session::{viewport_scroll_target, TerminalSession};
use ami_code::text::trimmed;

fn plain(code: KeyCode) -> KeyEvent {
    KeyEvent::new(code, KeyModifiers::none())
}

fn control() -> KeyModifiers {
    KeyModifiers {
        control: true,
        ..KeyModifiers::none()
    }
}

#[test]
fn encodes_basic_keys() {
    assert_eq!(encode_key(plain(KeyCode::Char('a'))), Some(vec![b'a']));
    assert_eq!(encode_key(plain(KeyCode::Enter)), Some(vec![b'\r']));
    assert_eq!(encode_key(plain(KeyCode::Backspace)), Some(vec![0x7f]));
    assert_eq!(encode_key(plain(KeyCode::Esc)), Some(vec![0x1b]));
}

#[test]
fn encodes_direction_keys() {
    assert_eq!(encode_key(plain(KeyCode::Left)), Some(b"\x1b[D".to_vec()));
    assert_eq!(encode_key(plain(KeyCode::Right)), Some(b"\x1b[C".to_vec()));
    assert_eq!(encode_key(plain(KeyCode::Up)), Some(b"\x1b[A".to_vec()));
    assert_eq!(encode_key(plain(KeyCode::Down)), Some(b"\x1b[B".to_vec()));
}

#[test]
fn encodes_control_character() {
    assert_eq!(
        encode_key(KeyEvent::new(KeyCode::Char('c'), control())),
        Some(vec![3])
    );
}

#[test]
fn encodes_the_other_keys() {
    assert_eq!(encode_key(plain(KeyCode::Tab)), Some(b"\t".to_vec()));
    assert_eq!(encode_key(plain(KeyCode::Home)), Some(b"\x1b[H".to_vec()));
    assert_eq!(encode_key(plain(KeyCode::End)), Some(b"\x1b[F".to_vec()));
    assert_eq!(
        encode_key(plain(KeyCode::Delete)),
        Some(b"\x1b[3~".to_vec())
    );
    assert_eq!(
        encode_key(plain(KeyCode::Char('中'))),
        Some("中".as_bytes().to_vec())
    );
    assert_eq!(encode_key(plain(KeyCode::Other)), None);
    assert_eq!(encode_key(plain(KeyCode::Null)), None);
    assert_eq!(
        encode_key(KeyEvent::new(KeyCode::Char('Z'), control())),
        Some(vec![26])
    );
    assert_eq!(
        encode_key(KeyEvent::new(KeyCode::Char('1'), control())),
        None
    );
}

fn event(kind: MouseEventKind, column: u16, row: u16) -> MouseEvent {
    MouseEvent {
        kind,
        column,
        row,
        modifiers: KeyModifiers::none(),
    }
}

#[test]
fn encodes_sgr_press_release_and_wheel() {
    assert_eq!(
        mouse::encode(
            MouseProtocolMode::PressRelease,
            MouseProtocolEncoding::Sgr,
            event(MouseEventKind::Down(MouseButton::Left), 4, 2),
        ),
        Some(b"\x1b[<0;5;3M".to_vec())
    );
    assert_eq!(
        mouse::encode(
            MouseProtocolMode::PressRelease,
            MouseProtocolEncoding::Sgr,
            event(MouseEventKind::Up(MouseButton::Left), 4, 2),
        ),
        Some(b"\x1b[<0;5;3m".to_vec())
    );
    assert_eq!(
        mouse::encode(
            MouseProtocolMode::PressRelease,
            MouseProtocolEncoding::Sgr,
            event(MouseEventKind::ScrollUp, 4, 2),
        ),
        Some(b"\x1b[<64;5;3M".to_vec())
    );
}

#[test]
fn uses_legacy_release_button_code() {
    assert_eq!(
        mouse::encode(
            MouseProtocolMode::PressRelease,
            MouseProtocolEncoding::Default,
            event(MouseEventKind::Up(MouseButton::Left), 0, 0),
        ),
        Some(b"\x1b[M#!!".to_vec())
    );
}

#[test]
fn honors_protocol_mode_and_modifiers() {
    let mut drag = event(MouseEventKind::Drag(MouseButton::Left), 0, 0);
    drag.modifiers = control();
    assert_eq!(
        mouse::encode(
            MouseProtocolMode::ButtonMotion,
            MouseProtocolEncoding::Sgr,
            drag,
        ),
        Some(b"\x1b[<48;1;1M".to_vec())
    );
    assert_eq!(
        mouse::encode(
            MouseProtocolMode::PressRelease,
            MouseProtocolEncoding::Sgr,
            drag,
        ),
        None
    );
}

#[test]
fn enforces_utf8_extended_mouse_coordinate_limit() {
    assert!(mouse::encode(
        MouseProtocolMode::Press,
        MouseProtocolEncoding::Utf8,
        event(MouseEventKind::Down(MouseButton::Left), 2014, 0),
    )
    .is_some());
    assert_eq!(
        mouse::encode(
            MouseProtocolMode::Press,
            MouseProtocolEncoding::Utf8,
            event(MouseEventKind::Down(MouseButton::Left), 2015, 0),
        ),
        None
    );
}

#[test]
fn encodes_legacy_coordinates_and_rejects_overflow() {
    assert_eq!(
        mouse::encode(
            MouseProtocolMode::Press,
            MouseProtocolEncoding::Default,
            event(MouseEventKind::Down(MouseButton::Left), 0, 0),
        ),
        Some(b"\x1b[M !!".to_vec())
    );
    assert_eq!(
        mouse::encode(
            MouseProtocolMode::Press,
            MouseProtocolEncoding::Default,
            event(MouseEventKind::Down(MouseButton::Left), 500, 0),
        ),
        None
    );
}

#[test]
fn modes_that_ask_for_more_are_told_of_more() {
    let modes = [
        MouseProtocolMode::Off,
        MouseProtocolMode::Press,
        MouseProtocolMode::PressRelease,
        MouseProtocolMode::ButtonMotion,
        MouseProtocolMode::AnyMotion,
    ];
    let kinds = [
        MouseEventKind::Down(MouseButton::Middle),
        MouseEventKind::Up(MouseButton::Right),
        MouseEventKind::Drag(MouseButton::Left),
        MouseEventKind::Moved,
    ];
    for (mode_index, mode) in modes.into_iter().enumerate() {
        for (kind_index, kind) in kinds.into_iter().enumerate() {
            assert_eq!(
                mouse::encode(mode, MouseProtocolEncoding::Sgr, event(kind, 0, 0)).is_some(),
                mode_index > kind_index
            );
        }
    }
}

#[test]
fn preserves_plain_utf8_and_cjk_text() {
    assert_eq!(
        paste::encode("hello 中文", false).unwrap(),
        "hello 中文".as_bytes()
    );
}

#[test]
fn frames_multiline_text_for_bracketed_paste() {
    assert_eq!(
        paste::encode("one\ntwo", true).unwrap(),
        b"\x1b[200~one\ntwo\x1b[201~"
    );
}

#[test]
fn rejects_multiline_text_without_bracketed_paste() {
    assert!(matches!(
        paste::encode("one\ntwo", false),
        Err(PasteError::MultilineUnsupported)
    ));
}

#[test]
fn filters_control_characters_and_injected_delimiters() {
    assert_eq!(
        paste::encode("a\0\x1b[201~b\t\r\nc", true).unwrap(),
        b"\x1b[200~a[201~b\t\nc\x1b[201~"
    );
}

#[test]
fn paste_errors_are_told() {
    assert_eq!(
        PasteError::MultilineUnsupported.message(),
        "multi-line paste requires backend bracketed-paste support"
    );
    assert_eq!(
        PasteError::Write("broken pipe".to_string()).message(),
        "failed to write paste to PTY: broken pipe"
    );
}

#[test]
fn clamps_to_vt100_safe_minimum() {
    assert_eq!(TerminalSize::new(0, 0), TerminalSize::new(2, 2));
    assert_eq!(
        (TerminalSize::new(1, 1).cols, TerminalSize::new(1, 1).rows),
        (2, 2)
    );
}

#[test]
fn later_variables_replace_earlier_ones() {
    let spec = ProcessSpec::new("sh").env("A", "1").env("B", "2").env("A", "3");
    assert_eq!(spec.env_value("A").as_deref(), Some("3"));
    assert_eq!(spec.env_value("B").as_deref(), Some("2"));
    assert_eq!(spec.env_value("C"), None);
    assert_eq!(spec.env.len(), 2);
    assert_eq!(spec.copy(), spec);
}

#[test]
fn responds_to_device_status_query() {
    let parser = vt100::Parser::new(24, 80, 0);
    assert_eq!(responses(b"\x1b[5n", parser.screen()), vec!["\x1b[0n"]);
}

#[test]
fn ignores_regular_output() {
    let parser = vt100::Parser::new(24, 80, 0);
    assert!(responses(b"hello", parser.screen()).is_empty());
}

#[test]
fn reports_where_the_cursor_is() {
    let mut parser = vt100::Parser::new(24, 80, 0);
    parser.process(b"one\r\ntwo");
    assert_eq!(
        responses(b"\x1b[6n", parser.screen()),
        vec!["\x1b[2;4R"]
    );
}

#[test]
fn normalizes_ranges_and_contains_cells() {
    let range = TerminalRange::inclusive(TerminalPoint::new(2, 4), TerminalPoint::new(1, 3));
    assert_eq!(range.start, TerminalPoint::new(1, 3));
    assert_eq!(range.end, TerminalPoint::new(2, 4));
    assert!(range.contains(TerminalPoint::new(2, 0)));
    assert!(!range.contains(TerminalPoint::new(3, 0)));
}

#[test]
fn extracts_wrapped_text_without_soft_newline() {
    let mut parser = vt100::Parser::new(2, 4, 10);
    parser.process(b"abcdef");
    let range = TerminalRange::inclusive(TerminalPoint::new(0, 0), TerminalPoint::new(1, 1));
    assert_eq!(extract(parser.screen(), range), "abcdef");
}

#[test]
fn extracts_real_newlines_and_wide_cells() {
    let mut parser = vt100::Parser::new(3, 6, 10);
    parser.process("ab中文\r\ncd".as_bytes());
    let range = TerminalRange::inclusive(TerminalPoint::new(0, 0), TerminalPoint::new(1, 1));
    assert_eq!(extract(parser.screen(), range), "ab中文\ncd");
}

#[test]
fn includes_complete_wide_cell_from_either_half() {
    let mut parser = vt100::Parser::new(1, 6, 0);
    parser.process("a中b".as_bytes());

    let leading = TerminalRange::inclusive(TerminalPoint::new(0, 1), TerminalPoint::new(0, 1));
    let continuation =
        TerminalRange::inclusive(TerminalPoint::new(0, 2), TerminalPoint::new(0, 2));
    assert_eq!(extract(parser.screen(), leading), "中");
    assert_eq!(extract(parser.screen(), continuation), "中");
}

#[test]
fn extracts_across_scrollback() {
    let mut parser = vt100::Parser::new(2, 5, 10);
    parser.process(b"one\r\ntwo\r\ntri");
    assert!(max_scrollback(parser.screen()) > 0);
    let range = TerminalRange::inclusive(TerminalPoint::new(-1, 0), TerminalPoint::new(1, 2));
    assert_eq!(extract(parser.screen(), range), "one\ntwo\ntri");
}

#[test]
fn selected_text_does_not_depend_on_the_view() {
    let mut parser = vt100::Parser::new(2, 5, 10);
    parser.process(b"one\r\ntwo\r\ntri");
    let range = TerminalRange::inclusive(TerminalPoint::new(-1, 0), TerminalPoint::new(0, 1));
    let before = extract(parser.screen(), range);
    assert_eq!(before, "one\ntw");
    parser.screen_mut().set_scrollback(1);
    assert_eq!(extract(parser.screen(), range), before);
    assert_eq!(parser.screen().scrollback(), 1);
}

#[test]
fn points_leave_the_second_half_of_wide_characters() {
    let mut parser = vt100::Parser::new(1, 6, 0);
    parser.process("a中b".as_bytes());
    let half = TerminalPoint::new(0, 2);
    assert_eq!(
        normalize_point(parser.screen(), half, true),
        TerminalPoint::new(0, 3)
    );
    assert_eq!(
        normalize_point(parser.screen(), half, false),
        TerminalPoint::new(0, 1)
    );
    assert_eq!(
        normalize_point(parser.screen(), TerminalPoint::new(0, 3), true),
        TerminalPoint::new(0, 3)
    );
}

#[test]
fn clamps_viewport_scroll_to_history_bounds() {
    assert_eq!(viewport_scroll_target(5, 10, 3), 8);
    assert_eq!(viewport_scroll_target(5, 10, -8), 0);
    assert_eq!(viewport_scroll_target(8, 10, 8), 10);
}

#[test]
fn sessions_draw_answer_and_scroll() {
    let mut session = TerminalSession::new("shell", TerminalSize::new(10, 3), 100);
    assert_eq!(session.display_name(), "shell");
    assert_eq!(
        session.poll_output(b"1\r\n2\r\n3\r\n4\r\n5\x1b[6n"),
        vec!["\x1b[3;2R"]
    );
    assert_eq!(session.screen().contents(), "3\n4\n5");
    assert!(session.scroll_viewport(1));
    assert_eq!(session.screen().contents(), "2\n3\n4");
    assert!(session.scroll_viewport(9));
    assert!(!session.scroll_viewport(1));
    assert_eq!(session.screen().contents(), "1\n2\n3");
    assert_eq!(session.viewport_point(0, 0), TerminalPoint::new(-2, 0));
    session.reset_scrollback();
    assert_eq!(session.screen().contents(), "3\n4\n5");

    // A selection keeps the view that it began on.
    session.begin_selection_view();
    session.poll_output(b"\x1b[2J\x1b[Hnew");
    assert_eq!(session.screen().contents(), "3\n4\n5");
    let range = TerminalRange::inclusive(TerminalPoint::new(0, 0), TerminalPoint::new(1, 0));
    assert_eq!(session.selected_text(range), "3\n4");
    session.reset_scrollback();
    assert_eq!(session.screen().contents(), "new");

    // Mouse and paste follow what the program asked for.
    assert!(!session.mouse_reporting());
    assert_eq!(
        session.send_mouse(event(MouseEventKind::Down(MouseButton::Left), 1, 1)),
        None
    );
    session.poll_output(b"\x1b[?1000h\x1b[?1006h\x1b[?2004h");
    assert!(session.mouse_reporting());
    assert_eq!(
        session.send_mouse(event(MouseEventKind::Down(MouseButton::Left), 1, 1)),
        Some(b"\x1b[<0;2;2M".to_vec())
    );
    assert_eq!(
        session.send_paste("a\nb").unwrap(),
        b"\x1b[200~a\nb\x1b[201~"
    );
    assert_eq!(session.send_key(plain(KeyCode::Enter)), Some(b"\r".to_vec()));

    // A new size is told once.
    assert!(session.resize(TerminalSize::new(12, 4)));
    assert!(!session.resize(TerminalSize::new(12, 4)));
    assert_eq!(session.screen().size(), (4, 12));
}

#[test]
fn narrowing_clears_the_wide_characters_that_it_would_split() {
    let mut session = TerminalSession::new("shell", TerminalSize::new(10, 3), 100);
    session.poll_output("1\r\n2\r\n3\r\nab\u{4f60}c\r\nx\u{4f60}".as_bytes());
    session.scroll_viewport(1);
    assert!(session.resize(TerminalSize::new(3, 3)));
    assert_eq!(session.screen().size(), (3, 3));
    // The offset into the history stays.
    assert_eq!(session.screen().scrollback(), 1);
    session.reset_scrollback();
    assert_eq!(session.screen().contents(), "3\nab\nx\u{4f60}");
    assert_eq!(session.screen().cursor_position(), (2, 2));
    // The last column can be written, erased and removed.
    session.poll_output(b"\x1b[2;3H\x1b[K\x1b[2;3H\x1b[P\x1b[2;3Hz");
    assert_eq!(session.screen().contents(), "3\nabz\nx\u{4f60}");

    // What is not split stays as it is, also when rows get wider again.
    assert!(session.resize(TerminalSize::new(6, 3)));
    assert_eq!(session.screen().contents(), "3\nabz\nx\u{4f60}");
}

#[test]
fn narrowing_keeps_both_grids_whole() {
    let mut session = TerminalSession::new("nvim", TerminalSize::new(10, 3), 100);
    session.poll_output("ab\u{4f60}\x1b[?1049h\x1b[Hxyz\u{4f60}".as_bytes());
    assert!(session.resize(TerminalSize::new(3, 3)));
    assert!(session.screen().alternate_screen());
    assert_eq!(session.screen().contents(), "xyz");
    session.poll_output(b"\x1b[?1049l");
    assert_eq!(session.screen().contents(), "ab");
    session.poll_output(b"\x1b[1;3H\x1b[K\x1b[1;3Hz");
    assert_eq!(session.screen().contents(), "abz");

    // The grid that is drawn on may be the usual one.
    let mut session = TerminalSession::new("nvim", TerminalSize::new(10, 3), 100);
    session.poll_output("\x1b[?47hab\u{4f60}\x1b[?47l\x1b[Hxyz".as_bytes());
    assert!(session.resize(TerminalSize::new(3, 3)));
    assert_eq!(session.screen().contents(), "xyz");
    session.poll_output(b"\x1b[?47h");
    assert_eq!(session.screen().contents(), "ab");
    session.poll_output(b"\x1b[1;3H\x1b[K");
    assert_eq!(session.screen().contents(), "ab");
}

#[test]
fn narrowing_does_not_disturb_unfinished_sequences() {
    let mut session = TerminalSession::new("shell", TerminalSize::new(10, 3), 0);
    session.poll_output("ab\u{4f60}\x1b[2".as_bytes());
    assert!(session.resize(TerminalSize::new(3, 3)));
    session.poll_output(b";1Hc");
    assert_eq!(session.screen().contents(), "ab\nc");
}

#[test]
fn characters_wider_than_the_screen_give_way() {
    let mut session = TerminalSession::new("shell", TerminalSize::new(2, 2), 0);
    session.poll_output("a\u{17d8}".as_bytes());
    session.poll_output(b"\xe1\x9f");
    session.poll_output(b"\x98");
    session.poll_output(b"\xe1");
    session.poll_output(b"\x9f\x98");
    assert!(!session.screen().contents().contains('\u{17d8}'));
    session.resize(TerminalSize::new(3, 2));
    session.poll_output("\x1b[2J\x1b[H\u{17d8}".as_bytes());
    assert_eq!(session.screen().contents(), "\u{17d8}");
}

#[test]
fn tabs_can_be_read_on_the_widest_screens() {
    let size = TerminalSize::new(u16::MAX, 2);
    assert_eq!((size.cols, size.rows), (u16::MAX, 2));
    let mut session = TerminalSession::new("shell", size, 0);
    assert_eq!(session.screen().size(), (2, 65527));
    session.poll_output(b"\x1b[65535G\t\tx\t");
    assert_eq!(session.screen().cursor_position(), (0, 65526));

    // The program is told every size, though the screen stays as it is.
    assert!(session.resize(TerminalSize::new(65530, 2)));
    assert!(!session.resize(TerminalSize::new(65530, 2)));
    assert_eq!(session.screen().size(), (2, 65527));
    assert!(session.resize(TerminalSize::new(80, 2)));
    assert_eq!(session.screen().size(), (2, 80));
}

#[test]
fn selected_text_has_spaces_for_cells_without_text() {
    let mut session = TerminalSession::new("shell", TerminalSize::new(12, 2), 0);
    session.poll_output("\x1b[1;3Ha\u{4f60}\x1b[1;9Hb".as_bytes());
    let range = TerminalRange::inclusive(TerminalPoint::new(0, 1), TerminalPoint::new(0, 8));
    assert_eq!(session.selected_text(range), " a\u{4f60}   b");
}

#[test]
fn white_space_is_what_unicode_says() {
    assert_eq!(
        trimmed("\t\u{3000}\u{85}\u{2028}a b\u{a0}\u{2009}\u{1680}\u{205f}\n"),
        "a b"
    );
    assert_eq!(trimmed("\u{200b}a\u{180e}"), "\u{200b}a\u{180e}");
    assert_eq!(trimmed(" \r\n"), "");
}
