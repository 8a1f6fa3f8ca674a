//! Programs run without supervision: one in the whole terminal, or one in each
//! pane. The focus moves by keys alone.

use vstd::prelude::*;
use vstd::string::*;

use crate::app::machine::quits;
use crate::app::runtime::is_quit;
use crate::backend::shell::chosen_shell;
use crate::event::{KeyCode, KeyEvent};
use crate::geometry::{sat_sub, Rect};
use crate::path::FilePath;
use crate::terminal::input::{encode_key, key_bytes};
use crate::terminal::process::{ProcessSpec, ProcessView, TerminalSize};
use crate::text::text_view;
use crate::ui::terminal::{content_size, terminal_content_size};
use crate::workbench::focus::{neighbour, Direction, FocusGraph};
use crate::workbench::pane::PaneId;

verus! {

#[derive(Debug, Clone, Copy, PartialEq, Eq, Structural)]
pub enum EmbeddedCommand {
    Shell,
    Nvim,
    Pi,
}

impl EmbeddedCommand {
    pub open spec fn spec_title(self) -> Seq<char> {
        match self {
            EmbeddedCommand::Shell => "shell"@,
            EmbeddedCommand::Nvim => "nvim"@,
            EmbeddedCommand::Pi => "pi"@,
        }
    }

    /// The program to run; `shell` is what the environment names.
    pub open spec fn program(self, shell: Option<Seq<char>>) -> Seq<char> {
        match self {
            EmbeddedCommand::Shell => chosen_shell(shell),
            EmbeddedCommand::Nvim => "nvim"@,
            EmbeddedCommand::Pi => "pi"@,
        }
    }

    pub fn title(self) -> (title: &'static str)
        ensures
            title@ == self.spec_title(),
    {
        match self {
            EmbeddedCommand::Shell => "shell",
            EmbeddedCommand::Nvim => "nvim",
            EmbeddedCommand::Pi => "pi",
        }
    }

    pub fn process_spec(self, shell: Option<&str>, current_dir: FilePath) -> (spec: ProcessSpec)
        ensures
            spec@ == (ProcessView {
                display_name: self.spec_title(),
                env: Map::empty().insert("TERM"@, "xterm-256color"@),
                cwd: Some(current_dir@),
                ..ProcessView::plain(self.program(text_view(shell)))
            }),
    {
        let program = match self {
            EmbeddedCommand::Shell => match shell {
                Some(program) => program.to_owned(),
                None => "sh".to_owned(),
            },
            EmbeddedCommand::Nvim => "nvim".to_owned(),
            EmbeddedCommand::Pi => "pi".to_owned(),
        };
        ProcessSpec::new(program.as_str()).display_name(self.title()).env(
            "TERM",
            "xterm-256color",
        ).cwd(current_dir)
    }
}

/// The title of a pane.
pub fn pane_title(title: &str) -> (text: String)
    ensures
        text@ == "ami-code "@ + title@ + " spike — Ctrl+Q to quit"@,
{
    let mut text = "ami-code ".to_owned();
    text.append(title);
    text.append(" spike — Ctrl+Q to quit");
    text
}

/// What a border leaves of a terminal, columns first.
pub fn inner_terminal_size(cols: u16, rows: u16) -> (size: (u16, u16))
    ensures
        size == ({
            let inner = TerminalSize::spec_new(sat_sub(cols, 2), sat_sub(rows, 2));
            (inner.cols, inner.rows)
        }),
{
    let inner = TerminalSize::new(cols.saturating_sub(2), rows.saturating_sub(2));
    (inner.cols, inner.rows)
}

/// The size that a terminal takes when its pane has the given area, if that is
/// not the size that it has, rows and columns.
pub fn size_for_area(current: (u16, u16), area: Rect) -> (size: Option<TerminalSize>)
    ensures
        size == (if current == (content_size(area).rows, content_size(area).cols) {
            None
        } else {
            Some(content_size(area))
        }),
{
    let size = terminal_content_size(area);
    if current.0 != size.rows || current.1 != size.cols {
        Some(size)
    } else {
        None
    }
}

/// Whether keys go to the focused program or move the focus.
#[derive(Debug, Clone, Copy, PartialEq, Eq, Structural)]
pub enum KeyMode {
    Edit,
    Control,
}

impl KeyMode {
    pub open spec fn toggled(self) -> KeyMode {
        match self {
            KeyMode::Edit => KeyMode::Control,
            KeyMode::Control => KeyMode::Edit,
        }
    }

    pub fn toggle_control(self) -> (mode: KeyMode)
        ensures
            mode == self.toggled(),
    {
        match self {
            KeyMode::Edit => KeyMode::Control,
            KeyMode::Control => KeyMode::Edit,
        }
    }
}

/// Where a letter moves the focus.
pub open spec fn direction_of(code: KeyCode) -> Option<Direction> {
    match code {
        KeyCode::Char(character) => if character == 'h' {
            Some(Direction::Left)
        } else if character == 'j' {
            Some(Direction::Down)
        } else if character == 'k' {
            Some(Direction::Up)
        } else if character == 'l' {
            Some(Direction::Right)
        } else {
            None
        },
        _ => None,
    }
}

/// The pane that a letter moves the focus to.
pub open spec fn moved(focused: PaneId, code: KeyCode) -> PaneId {
    match direction_of(code) {
        Some(direction) => neighbour(focused, direction),
        None => focused,
    }
}

/// Whether a key moves the focus in either mode.
pub open spec fn is_global_focus_key(key: KeyEvent) -> bool {
    key.modifiers.control && direction_of(key.code) is Some
}

/// Whether a key changes the mode. Some terminals send a null for the control key
/// and a space.
pub open spec fn toggles_control(key: KeyEvent) -> bool {
    (key.code == KeyCode::Char(' ') && key.modifiers.control) || key.code == KeyCode::Null
}

fn direction(code: KeyCode) -> (direction: Option<Direction>)
    ensures
        direction == direction_of(code),
{
    match code {
        KeyCode::Char('h') => Some(Direction::Left),
        KeyCode::Char('j') => Some(Direction::Down),
        KeyCode::Char('k') => Some(Direction::Up),
        KeyCode::Char('l') => Some(Direction::Right),
        _ => None,
    }
}

pub fn is_control_toggle(key: KeyEvent) -> (result: bool)
    ensures
        result == toggles_control(key),
{
    (key.code == KeyCode::Char(' ') && key.modifiers.control) || key.code == KeyCode::Null
}

/// Moves the focus if the key does that in either mode; tells whether it does.
pub fn handle_global_focus_key(key: KeyEvent, focused: &mut PaneId) -> (handled: bool)
    ensures
        handled == is_global_focus_key(key),
        *final(focused) == (if is_global_focus_key(key) {
            moved(*old(focused), key.code)
        } else {
            *old(focused)
        }),
{
    if !key.modifiers.control {
        return false;
    }
    match direction(key.code) {
        Some(direction) => {
            *focused = FocusGraph.next(*focused, direction);
            true
        },
        None => false,
    }
}

/// A key while keys move the focus; escape gives them back to the program.
pub fn handle_control_key(key: KeyEvent, focused: &mut PaneId, mode: &mut KeyMode)
    ensures
        *final(focused) == moved(*old(focused), key.code),
        *final(mode) == (if key.code == KeyCode::Esc {
            KeyMode::Edit
        } else {
            *old(mode)
        }),
{
    if key.code == KeyCode::Esc {
        *mode = KeyMode::Edit;
    }
    if let Some(direction) = direction(key.code) {
        *focused = FocusGraph.next(*focused, direction);
    }
}

/// What is to be done about a key.
#[derive(Debug)]
pub enum KeyAction {
    Quit,
    /// Nothing, or it is done already.
    Handled,
    /// The bytes go to the program of the pane.
    Write { pane: PaneId, bytes: Vec<u8> },
}

pub enum KeyActionView {
    Quit,
    Handled,
    Write { pane: PaneId, bytes: Seq<u8> },
}

impl View for KeyAction {
    type V = KeyActionView;

    open spec fn view(&self) -> KeyActionView {
        match self {
            KeyAction::Quit => KeyActionView::Quit,
            KeyAction::Handled => KeyActionView::Handled,
            KeyAction::Write { pane, bytes } => KeyActionView::Write { pane: *pane, bytes: bytes@ },
        }
    }
}

/// The focus and the mode of unsupervised panes.
#[derive(Debug, Clone, Copy, PartialEq, Eq, Structural)]
pub struct KeyFocus {
    pub focused: PaneId,
    pub mode: KeyMode,
}

impl KeyFocus {
    pub open spec fn after_key(self, key: KeyEvent) -> KeyFocus {
        if quits(key) {
            self
        } else if is_global_focus_key(key) {
            KeyFocus { focused: moved(self.focused, key.code), ..self }
        } else if toggles_control(key) {
            KeyFocus { mode: self.mode.toggled(), ..self }
        } else if self.mode == KeyMode::Control {
            KeyFocus {
                focused: moved(self.focused, key.code),
                mode: if key.code == KeyCode::Esc {
                    KeyMode::Edit
                } else {
                    KeyMode::Control
                },
            }
        } else {
            self
        }
    }

    pub open spec fn key_action(self, key: KeyEvent) -> KeyActionView {
        if quits(key) {
            KeyActionView::Quit
        } else if is_global_focus_key(key) || toggles_control(key) || self.mode == KeyMode::Control
            || self.focused == PaneId::Sidebar {
            KeyActionView::Handled
        } else {
            match key_bytes(key) {
                Some(bytes) => KeyActionView::Write { pane: self.focused, bytes },
                None => KeyActionView::Handled,
            }
        }
    }

    /// The editor has the focus and reads the keys.
    pub fn new() -> (focus: KeyFocus)
        ensures
            focus == (KeyFocus { focused: PaneId::Editor, mode: KeyMode::Edit }),
    {
        KeyFocus { focused: PaneId::Editor, mode: KeyMode::Edit }
    }

    /// Takes a key; what is written goes to the pane that had the focus. No
    /// program runs in the sidebar.
    pub fn handle_key(&mut self, key: KeyEvent) -> (action: KeyAction)
        ensures
            *final(self) == old(self).after_key(key),
            action@ == old(self).key_action(key),
    {
        if is_quit(key) {
            return KeyAction::Quit;
        }
        if handle_global_focus_key(key, &mut self.focused) {
            return KeyAction::Handled;
        }
        if is_control_toggle(key) {
            self.mode = self.mode.toggle_control();
            return KeyAction::Handled;
        }
        match self.mode {
            KeyMode::Control => {
                handle_control_key(key, &mut self.focused, &mut self.mode);
                KeyAction::Handled
            },
            KeyMode::Edit => {
                if self.focused == PaneId::Sidebar {
                    return KeyAction::Handled;
                }
                match encode_key(key) {
                    Some(bytes) => KeyAction::Write { pane: self.focused, bytes },
                    None => KeyAction::Handled,
                }
            },
        }
    }
}

/// While keys move the focus, none of them reaches a program.
pub proof fn controlled_keys_are_not_written(focus: KeyFocus, key: KeyEvent)
    requires
        focus.mode == KeyMode::Control,
    ensures
        focus.key_action(key) !is Write,
{
}

/// Changing the mode twice changes nothing.
pub proof fn modes_toggle_back(mode: KeyMode)
    ensures
        mode.toggled().toggled() == mode,
{
}

/// While keys move the focus, the letters `h`, `j`, `k` and `l` move it left,
/// down, up and right, and escape gives the keys back to the program. With the
/// control key the letters move it at any time.
pub proof fn letters_move_the_focus(focus: KeyFocus, key: KeyEvent)
    requires
        !quits(key),
        !toggles_control(key),
    ensures
        ({
            let after = focus.after_key(key);
            let moves = focus.mode == KeyMode::Control || key.modifiers.control;
            &&& moves && key.code == KeyCode::Char('h') ==> after.focused == neighbour(
                focus.focused,
                Direction::Left,
            )
            &&& moves && key.code == KeyCode::Char('j') ==> after.focused == neighbour(
                focus.focused,
                Direction::Down,
            )
            &&& moves && key.code == KeyCode::Char('k') ==> after.focused == neighbour(
                focus.focused,
                Direction::Up,
            )
            &&& moves && key.code == KeyCode::Char('l') ==> after.focused == neighbour(
                focus.focused,
                Direction::Right,
            )
            &&& !moves ==> after == focus
            &&& after.mode != focus.mode <==> focus.mode == KeyMode::Control && key.code
                == KeyCode::Esc
        }),
{
}

/// A key that is not the workbench's own is written to the program that has the
/// focus, as that program reads it. Control and a space change who reads keys.
pub proof fn other_keys_are_written(focus: KeyFocus, key: KeyEvent)
    ensures
        ({
            let letter = key.code == KeyCode::Char('h') || key.code == KeyCode::Char('j') || key.code
                == KeyCode::Char('k') || key.code == KeyCode::Char('l');
            let own = quits(key) || toggles_control(key) || key.modifiers.control && letter;
            &&& focus.key_action(key) is Write <==> !own && focus.mode == KeyMode::Edit
                && focus.focused != PaneId::Sidebar && key_bytes(key) is Some
            &&& focus.key_action(key) matches KeyActionView::Write { pane, bytes } ==> pane
                == focus.focused && Some(bytes) == key_bytes(key)
            &&& focus.key_action(key) is Quit <==> quits(key)
            &&& toggles_control(key) && !quits(key) ==> focus.after_key(key).mode != focus.mode
                && focus.after_key(key).focused == focus.focused
        }),
{
}

} // verus!
