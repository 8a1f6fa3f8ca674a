//! A terminal that runs a program: what it shows and what it tells the program.
//!
//! While cells are selected the view is frozen on a copy of the screen, so that
//! output does not move the text under the selection.

use vstd::prelude::*;

use crate::event::{KeyEvent, MouseEvent};
use crate::geometry::{min_u16, sat_sub, smaller};
use crate::terminal::emulator::{
    cell_in_view, emulator_new, emulator_processed, emulator_screen, emulator_scrolled, history,
    mouse_encoding,
    mouse_mode, same_but_scrollback, same_modes, screen_bracketed_paste, screen_cursor,
    screen_mouse_encoding, screen_mouse_mode, screen_scrollback, screen_scrolled, screen_size,
    working, Emulator, MouseProtocolMode, MAX_COLUMNS,
};
use crate::terminal::fitting::{drawn_size, fit, fitted, read_on, readable, same_history};
use crate::terminal::input::{encode_key, key_bytes};
use crate::terminal::mouse;
use crate::terminal::paste::{self, paste_bytes, PasteError};
use crate::terminal::process::TerminalSize;
use crate::terminal::query::{self, answers};
use crate::terminal::selection::{
    self, cell_at, countable_history, normalized, selected, TerminalPoint, TerminalRange,
};
use crate::text::texts;

verus! {

pub struct TerminalSession {
    pub display_name: String,
    /// The size that the program is told.
    pub size: TerminalSize,
    pub emulator: Emulator,
    pub selection_screen: Option<vt100::Screen>,
}

pub struct SessionView {
    pub name: Seq<char>,
    pub size: TerminalSize,
    pub emulator: Emulator,
    pub frozen: Option<vt100::Screen>,
}

impl View for TerminalSession {
    type V = SessionView;

    open spec fn view(&self) -> SessionView {
        SessionView {
            name: self.display_name@,
            size: self.size,
            emulator: self.emulator,
            frozen: self.selection_screen,
        }
    }
}

/// `current + lines`, held between the start and the end of the history.
pub open spec fn scroll_target(current: int, maximum: int, lines: int) -> int {
    if current + lines < 0 {
        0
    } else if current + lines > maximum {
        maximum
    } else {
        current + lines
    }
}

/// A count of rows, as far as points can count.
pub open spec fn countable(rows: int) -> int {
    if rows <= i64::MAX {
        rows
    } else {
        i64::MAX as int
    }
}

impl SessionView {
    /// A terminal that has read nothing yet.
    pub open spec fn started(name: Seq<char>, size: TerminalSize, scrollback_len: usize) -> SessionView {
        SessionView {
            name,
            size,
            emulator: emulator_new(drawn_size(size).0, drawn_size(size).1, scrollback_len),
            frozen: None,
        }
    }

    /// Whether the emulator can read output, on a screen of the right size.
    pub open spec fn wf(self) -> bool {
        &&& working(self.live())
        &&& screen_size(self.live()) == drawn_size(self.size)
    }

    /// The screen of the program.
    pub open spec fn live(self) -> vt100::Screen {
        emulator_screen(self.emulator)
    }

    /// The screen that is in view.
    pub open spec fn shown(self) -> vt100::Screen {
        match self.frozen {
            Some(screen) => screen,
            None => self.live(),
        }
    }

    pub open spec fn read(self, output: Seq<u8>) -> SessionView {
        SessionView {
            emulator: emulator_processed(
                self.emulator,
                readable(output, screen_size(self.live()).1),
            ),
            ..self
        }
    }

    pub open spec fn resized(self, size: TerminalSize) -> SessionView {
        if self.size == size {
            self
        } else {
            SessionView {
                size,
                emulator: fitted(self.emulator, drawn_size(size).0, drawn_size(size).1),
                ..self
            }
        }
    }

    pub open spec fn frozen_view(self) -> SessionView {
        SessionView { frozen: Some(self.live()), ..self }
    }

    pub open spec fn thawed(self) -> SessionView {
        SessionView { emulator: emulator_scrolled(self.emulator, 0), frozen: None, ..self }
    }

    pub open spec fn reports_mouse(self) -> bool {
        screen_mouse_mode(self.live()) != MouseProtocolMode::Off
    }

    pub open spec fn mouse_bytes(self, event: MouseEvent) -> Option<Seq<u8>> {
        mouse::report(screen_mouse_mode(self.live()), screen_mouse_encoding(self.live()), event)
    }

    /// The offset into the history after scrolling up by `lines`.
    pub open spec fn scroll_goal(self, lines: int) -> int {
        scroll_target(
            countable(screen_scrollback(self.shown()) as int),
            countable_history(self.shown()),
            lines,
        )
    }

    /// The cell at a place in view: its place in the history stays the same
    /// when the view scrolls.
    pub open spec fn point_at(self, row: u16, col: u16) -> TerminalPoint {
        let (rows, cols) = screen_size(self.shown());
        normalized(
            self.shown(),
            TerminalPoint {
                row: (min_u16(row, sat_sub(rows, 1)) - countable(
                    screen_scrollback(self.shown()) as int,
                )) as i64,
                col: min_u16(col, sat_sub(cols, 1)),
            },
            false,
        )
    }

    /// The session with its view scrolled up by `lines`.
    pub open spec fn scrolled_by(self, lines: int) -> SessionView {
        let goal = self.scroll_goal(lines);
        if goal == screen_scrollback(self.shown()) {
            self
        } else {
            match self.frozen {
                Some(screen) => SessionView {
                    frozen: Some(screen_scrolled(screen, goal as usize)),
                    ..self
                },
                None => SessionView {
                    emulator: emulator_scrolled(self.emulator, goal as usize),
                    ..self
                },
            }
        }
    }
}

impl TerminalSession {
    pub fn new(display_name: &str, size: TerminalSize, scrollback_len: usize) -> (session:
        TerminalSession)
        requires
            size.safe(),
        ensures
            session@ == SessionView::started(display_name@, size, scrollback_len),
            session@.wf(),
    {
        TerminalSession {
            display_name: display_name.to_owned(),
            size,
            emulator: Emulator::new(size.rows, smaller(size.cols, MAX_COLUMNS), scrollback_len),
            selection_screen: None,
        }
    }

    pub fn display_name(&self) -> (name: &str)
        ensures
            name@ == self@.name,
    {
        self.display_name.as_str()
    }

    pub fn screen(&self) -> (screen: &vt100::Screen)
        ensures
            *screen == self@.shown(),
    {
        match &self.selection_screen {
            Some(screen) => screen,
            None => self.emulator.view(),
        }
    }

    /// Reads output of the program and answers its questions.
    pub fn poll_output(&mut self, output: &[u8]) -> (responses: Vec<String>)
        requires
            old(self)@.wf(),
        ensures
            final(self)@ == old(self)@.read(output@),
            final(self)@.wf(),
            texts(responses@) == answers(output@, screen_cursor(final(self)@.live())),
    {
        let cols: u16 = self.emulator.view().size().1;
        if cols >= 3 {
            self.emulator.process(output);
        } else {
            let bytes = read_on(output, cols);
            self.emulator.process(bytes.as_slice());
        }
        query::responses(output, self.emulator.view())
    }

    /// The bytes that tell the program of a key.
    pub fn send_key(&self, key: KeyEvent) -> (bytes: Option<Vec<u8>>)
        ensures
            bytes is Some <==> key_bytes(key) is Some,
            bytes matches Some(b) ==> Some(b@) == key_bytes(key),
    {
        encode_key(key)
    }

    /// The bytes that paste text into the program.
    pub fn send_paste(&self, contents: &str) -> (result: Result<Vec<u8>, PasteError>)
        ensures
            result is Ok <==> paste_bytes(contents@, screen_bracketed_paste(self@.live())) is Some,
            result matches Ok(bytes) ==> Some(bytes@) == paste_bytes(
                contents@,
                screen_bracketed_paste(self@.live()),
            ),
            result matches Err(error) ==> error is MultilineUnsupported,
    {
        paste::encode(contents, self.emulator.view().bracketed_paste())
    }

    /// Freezes the view on the screen as it is.
    pub fn begin_selection_view(&mut self)
        ensures
            final(self)@ == old(self)@.frozen_view(),
    {
        self.selection_screen = Some(self.emulator.view().clone());
    }

    /// The cell at a place in view.
    pub fn viewport_point(&self, row: u16, col: u16) -> (point: TerminalPoint)
        ensures
            point == self@.point_at(row, col),
    {
        let screen = self.screen();
        let size: (u16, u16) = screen.size();
        let scrollback: i64 = count(screen.scrollback());
        let point = TerminalPoint::new(
            smaller(row, size.0.saturating_sub(1)) as i64 - scrollback,
            smaller(col, size.1.saturating_sub(1)),
        );
        selection::normalize_point(screen, point, false)
    }

    pub fn mouse_reporting(&self) -> (reports: bool)
        ensures
            reports == self@.reports_mouse(),
    {
        mouse_mode(self.emulator.view()) != MouseProtocolMode::Off
    }

    /// The bytes that tell the program of a mouse event, if it wants to know.
    pub fn send_mouse(&self, event: MouseEvent) -> (bytes: Option<Vec<u8>>)
        ensures
            bytes is Some <==> self@.mouse_bytes(event) is Some,
            bytes matches Some(b) ==> Some(b@) == self@.mouse_bytes(event),
    {
        let screen = self.emulator.view();
        mouse::encode(mouse_mode(screen), mouse_encoding(screen), event)
    }

    /// Scrolls the view up, or down where `lines` is negative; tells whether it
    /// moved.
    pub fn scroll_viewport(&mut self, lines: i32) -> (moved: bool)
        ensures
            moved == (old(self)@.scroll_goal(lines as int) != screen_scrollback(
                old(self)@.shown(),
            )),
            final(self)@ == old(self)@.scrolled_by(lines as int),
            same_but_scrollback(old(self)@.shown(), final(self)@.shown()),
            screen_scrollback(final(self)@.shown()) == old(self)@.scroll_goal(lines as int),
            old(self)@.wf() ==> final(self)@.wf(),
    {
        let screen = self.screen();
        let offset: usize = screen.scrollback();
        let current: i64 = count(offset);
        let maximum: i64 = count(selection::max_scrollback(screen));
        let target: usize = viewport_scroll_target(current, maximum, lines);
        if target == offset {
            return false;
        }
        match self.selection_screen.take() {
            Some(mut screen) => {
                screen.set_scrollback(target);
                self.selection_screen = Some(screen);
            },
            None => {
                self.emulator.set_scrollback(target);
            },
        }
        true
    }

    pub fn selected_text(&self, range: TerminalRange) -> (text: String)
        ensures
            text@ == selected(self@.shown(), range),
    {
        selection::extract(self.screen(), range)
    }

    /// Brings what the program draws back into view.
    pub fn reset_scrollback(&mut self)
        ensures
            final(self)@ == old(self)@.thawed(),
            screen_scrollback(final(self)@.shown()) == 0,
            same_but_scrollback(old(self)@.live(), final(self)@.live()),
            old(self)@.wf() ==> final(self)@.wf(),
    {
        self.selection_screen = None;
        self.emulator.set_scrollback(0);
    }

    /// Resizes the screen; tells whether the program has to be told. The history,
    /// what of it is in view and the modes stay.
    pub fn resize(&mut self, size: TerminalSize) -> (changed: bool)
        requires
            old(self)@.wf(),
            size.safe(),
        ensures
            final(self)@ == old(self)@.resized(size),
            final(self)@.wf(),
            screen_scrollback(final(self)@.live()) == screen_scrollback(old(self)@.live()),
            same_modes(old(self)@.live(), final(self)@.live()),
            same_history(old(self)@.live(), final(self)@.live()),
            changed == (old(self)@.size != size),
    {
        if self.size != size {
            fit(&mut self.emulator, size.rows, smaller(size.cols, MAX_COLUMNS));
            self.size = size;
            true
        } else {
            false
        }
    }
}

pub(crate) fn count(rows: usize) -> (result: i64)
    ensures
        result == countable(rows as int),
{
    if rows as u64 <= i64::MAX as u64 {
        rows as i64
    } else {
        i64::MAX
    }
}

/// The offset into the history that scrolling up by `lines` comes to.
pub fn viewport_scroll_target(current: i64, maximum: i64, lines: i32) -> (target: usize)
    requires
        0 <= maximum <= usize::MAX,
    ensures
        target == scroll_target(current as int, maximum as int, lines as int),
{
    let sum: i128 = current as i128 + lines as i128;
    if sum < 0 {
        0
    } else if sum > maximum as i128 {
        maximum as usize
    } else {
        sum as usize
    }
}

/// The view never leaves the history, whatever is asked for.
pub proof fn scrolling_stays_in_the_history(session: SessionView, lines: int)
    requires
        history(session.shown()) >= 0,
    ensures
        0 <= session.scroll_goal(lines) <= history(session.shown()),
{
}

/// Output that arrives while cells are selected does not change what is in
/// view, and so not what the selection holds.
pub proof fn selections_outlive_output(session: SessionView, output: Seq<u8>, range: TerminalRange)
    requires
        session.frozen is Some,
    ensures
        session.read(output).shown() == session.shown(),
        selected(session.read(output).shown(), range) == selected(session.shown(), range),
{
}

/// Freezing the view does not change what is shown of a screen that was not
/// frozen.
pub proof fn freezing_keeps_the_view(session: SessionView)
    requires
        session.frozen is None,
    ensures
        session.frozen_view().shown() == session.shown(),
{
}

/// The cell under the pointer is the one that is selected, wherever the view is
/// scrolled to; from the second half of a wide character it is the first.
pub proof fn pointed_cells_are_selected(session: SessionView, row: u16, col: u16)
    requires
        screen_scrollback(session.shown()) <= history(session.shown()) <= i64::MAX,
        row < screen_size(session.shown()).0,
        col < screen_size(session.shown()).1,
    ensures
        cell_in_view(session.shown(), row, col) matches Some(cell) && !cell.wide_continuation
            ==> session.point_at(row, col).row == row - screen_scrollback(session.shown())
            && session.point_at(row, col).col == col && cell_at(
            session.shown(),
            session.point_at(row, col),
        ) == cell_in_view(session.shown(), row, col),
        cell_in_view(session.shown(), row, col) matches Some(cell) && cell.wide_continuation && col
            > 0 ==> session.point_at(row, col).row == row - screen_scrollback(session.shown())
            && session.point_at(row, col).col == col - 1,
{
}

/// A place outside the screen stands for the nearest cell on it.
pub proof fn places_outside_stand_for_the_nearest(session: SessionView, row: u16, col: u16)
    requires
        screen_size(session.shown()).0 >= 1,
        screen_size(session.shown()).1 >= 1,
    ensures
        row >= screen_size(session.shown()).0 ==> session.point_at(row, col) == session.point_at(
            (screen_size(session.shown()).0 - 1) as u16,
            col,
        ),
        col >= screen_size(session.shown()).1 ==> session.point_at(row, col) == session.point_at(
            row,
            (screen_size(session.shown()).1 - 1) as u16,
        ),
{
}

/// Scrolling moves the view by the rows that are asked for, up for positive
/// numbers, and stops at the ends of the history.
pub proof fn scrolling_moves_by_what_is_asked(session: SessionView, lines: int)
    requires
        screen_scrollback(session.shown()) <= history(session.shown()) <= i64::MAX,
    ensures
        ({
            let now = screen_scrollback(session.shown()) as int;
            let all = history(session.shown());
            &&& 0 <= now + lines <= all ==> session.scroll_goal(lines) == now + lines
            &&& now + lines < 0 ==> session.scroll_goal(lines) == 0
            &&& now + lines > all ==> session.scroll_goal(lines) == all
        }),
{
}

} // verus!
