//! The terminal emulator: what the library uses of `vt100`.
//!
//! A screen keeps rows that scrolled off the top, its history, above the rows
//! that it draws. The scrollback offset says how many rows of history are in
//! view.
//!
//! There are two grids of rows, and a program draws on one of them: the usual
//! one, which has the history, or the alternate one, which has none.

use vstd::prelude::*;
use vstd::utf8::*;

use crate::text::decimal;

verus! {

/// `vt100::Screen`, the state of a terminal.
#[verifier::external_type_specification]
#[verifier::external_body]
pub struct ExScreen(vt100::Screen);

/// A `vt100::Parser`: a screen, and what was read of an unfinished sequence.
#[verifier::external_body]
pub struct Emulator {
    parser: vt100::Parser,
}

/// `vt100::Cell`, one cell of a screen.
#[verifier::external_type_specification]
#[verifier::external_body]
pub struct ExCell(vt100::Cell);

/// A colour as a program asked for it.
#[derive(Debug, Clone, Copy, PartialEq, Eq, Structural)]
pub enum CellColor {
    Default,
    Idx(u8),
    Rgb(u8, u8, u8),
}

/// Which mouse events a program wants to see.
#[derive(Debug, Clone, Copy, PartialEq, Eq, Structural)]
pub enum MouseProtocolMode {
    Off,
    Press,
    PressRelease,
    ButtonMotion,
    AnyMotion,
}

/// How a program wants mouse events to be encoded.
#[derive(Debug, Clone, Copy, PartialEq, Eq, Structural)]
pub enum MouseProtocolEncoding {
    Default,
    Utf8,
    Sgr,
}

/// What a cell shows.
pub struct CellView {
    pub text: Seq<char>,
    pub wide: bool,
    pub wide_continuation: bool,
    pub fg: CellColor,
    pub bg: CellColor,
    pub bold: bool,
    pub italic: bool,
    pub underline: bool,
    pub dim: bool,
    pub inverse: bool,
}

/// A row of cells, and whether its text goes on in the row below.
pub struct RowView {
    pub cells: Seq<CellView>,
    pub wrapped: bool,
}

/// What a cell shows.
pub uninterp spec fn cell_view(cell: vt100::Cell) -> CellView;

/// All rows that a screen holds: its history, then the rows that it draws.
pub uninterp spec fn screen_rows(screen: vt100::Screen) -> Seq<RowView>;

/// What `Screen::size` returns: rows and columns.
pub uninterp spec fn screen_size(screen: vt100::Screen) -> (u16, u16);

/// What `Screen::scrollback` returns.
pub uninterp spec fn screen_scrollback(screen: vt100::Screen) -> usize;

/// The screen after `Screen::set_scrollback`.
pub uninterp spec fn screen_scrolled(screen: vt100::Screen, rows: usize) -> vt100::Screen;

/// What `Screen::cursor_position` returns: row and column.
pub uninterp spec fn screen_cursor(screen: vt100::Screen) -> (u16, u16);

/// What `Screen::bracketed_paste` returns.
pub uninterp spec fn screen_bracketed_paste(screen: vt100::Screen) -> bool;

/// What `Screen::mouse_protocol_mode` returns.
pub uninterp spec fn screen_mouse_mode(screen: vt100::Screen) -> MouseProtocolMode;

/// What `Screen::mouse_protocol_encoding` returns.
pub uninterp spec fn screen_mouse_encoding(screen: vt100::Screen) -> MouseProtocolEncoding;

/// The rows of the grid that a program does not draw on, its history first; as
/// long as nothing was drawn on it they are blank.
pub uninterp spec fn screen_hidden(screen: vt100::Screen) -> Seq<RowView>;

/// What `Screen::alternate_screen` returns: which of the grids is drawn on.
pub uninterp spec fn screen_alternate(screen: vt100::Screen) -> bool;

/// Whether no row that can be drawn on, in either grid, holds one half of a
/// wide character without the other.
pub uninterp spec fn screen_whole(screen: vt100::Screen) -> bool;

/// Whether a parser has read no part of an unfinished sequence or character.
pub uninterp spec fn emulator_idle(emulator: Emulator) -> bool;

/// The emulator after a screen was put in the place that `Parser::screen_mut`
/// gives.
pub uninterp spec fn emulator_with(emulator: Emulator, screen: vt100::Screen) -> Emulator;

/// The screen that `Parser::screen` returns.
pub uninterp spec fn emulator_screen(emulator: Emulator) -> vt100::Screen;

/// What `Parser::new` returns.
pub uninterp spec fn emulator_new(rows: u16, cols: u16, scrollback_len: usize) -> Emulator;

/// The emulator after `Screen::set_scrollback` on its screen.
pub uninterp spec fn emulator_scrolled(emulator: Emulator, rows: usize) -> Emulator;

/// The emulator after `Screen::set_size` on its screen.
pub uninterp spec fn emulator_resized(emulator: Emulator, rows: u16, cols: u16) -> Emulator;

/// The emulator after `Parser::process` has read the bytes.
pub uninterp spec fn emulator_processed(emulator: Emulator, bytes: Seq<u8>) -> Emulator;

/// The widest screen on which a tab can be read: past it the emulator cannot
/// count to the next tab stop.
pub const MAX_COLUMNS: u16 = 65527;

/// Whether the emulator can read output on this screen.
pub open spec fn working(screen: vt100::Screen) -> bool {
    &&& screen_size(screen).0 >= 2
    &&& 2 <= screen_size(screen).1 <= MAX_COLUMNS
    &&& screen_whole(screen)
}

/// Whether the byte at a place may be the last of U+17D8, the one character
/// that is three columns wide. Its first bytes may have been read earlier.
pub open spec fn ends_triple(bytes: Seq<u8>, place: int) -> bool {
    &&& bytes[place] == 0x98
    &&& place == 0 || bytes[place - 1] == 0x9f && (place == 1 || bytes[place - 2] == 0xe1)
}

/// Whether bytes may hold the end of a character that is three columns wide.
pub open spec fn has_triple(bytes: Seq<u8>) -> bool {
    exists|i: int| 0 <= i < bytes.len() && #[trigger] ends_triple(bytes, i)
}

/// Whether one of the last `count` rows holds the first half of a wide
/// character in a column, which the row would be cut after.
pub open spec fn splits(rows: Seq<RowView>, count: u16, col: u16) -> bool {
    exists|i: int| rows.len() - count <= i < rows.len() && #[trigger] begins_wide(rows[i], col)
}

/// Whether a row holds the first half of a wide character in a column.
pub open spec fn begins_wide(row: RowView, col: u16) -> bool {
    col < row.cells.len() && row.cells[col as int].wide
}

/// The bytes that move the cursor to a place.
pub open spec fn placing(row: u16, col: u16) -> Seq<u8> {
    encode_utf8(
        "\x1b["@ + decimal((row + 1) as nat) + "d\x1b["@ + decimal((col + 1) as nat) + "G"@,
    )
}

/// The bytes that move the cursor to a cell and clear the character there.
pub open spec fn clearing(row: u16, col: u16) -> Seq<u8> {
    encode_utf8(
        "\x1b["@ + decimal((row + 1) as nat) + "d\x1b["@ + decimal((col + 1) as nat)
            + "G\x1b[X"@,
    )
}

/// The bytes that make the alternate grid the one that is drawn on, or the
/// usual one; what they hold stays.
pub open spec fn switching(alternate: bool) -> Seq<u8> {
    if alternate {
        encode_utf8("\x1b[?47h"@)
    } else {
        encode_utf8("\x1b[?47l"@)
    }
}

/// Whether two screens have the same size, modes and offset, and the same rows
/// in the grid that is not drawn on.
pub open spec fn same_but_drawn(left: vt100::Screen, right: vt100::Screen) -> bool {
    &&& screen_hidden(left) == screen_hidden(right)
    &&& screen_alternate(left) == screen_alternate(right)
    &&& screen_size(left) == screen_size(right)
    &&& screen_scrollback(left) == screen_scrollback(right)
    &&& same_modes(left, right)
}

/// Whether a program asked for the same of two screens.
pub open spec fn same_modes(left: vt100::Screen, right: vt100::Screen) -> bool {
    &&& screen_bracketed_paste(left) == screen_bracketed_paste(right)
    &&& screen_mouse_mode(left) == screen_mouse_mode(right)
    &&& screen_mouse_encoding(left) == screen_mouse_encoding(right)
}

/// A screen on which only the cursor was moved.
pub open spec fn placed(
    before: vt100::Screen,
    after: vt100::Screen,
    row: u16,
    col: u16,
) -> bool {
    &&& same_but_drawn(before, after)
    &&& screen_rows(after) == screen_rows(before)
    &&& screen_cursor(after) == (row, col)
}

/// A screen on which the character in a cell was cleared: no other row has
/// changed, and no wide character begins in the cell.
pub open spec fn cleared(
    before: vt100::Screen,
    after: vt100::Screen,
    row: u16,
    col: u16,
) -> bool {
    let place = history(before) + row;
    &&& same_but_drawn(before, after)
    &&& screen_rows(after).len() == screen_rows(before).len()
    &&& forall|i: int|
        0 <= i < screen_rows(before).len() && i != place ==> #[trigger] screen_rows(after)[i]
            == screen_rows(before)[i]
    &&& !begins_wide(screen_rows(after)[place], col)
    &&& screen_cursor(after) == (row, col)
}

/// A screen whose grids have changed places; none of the history is in view.
pub open spec fn switched(before: vt100::Screen, after: vt100::Screen) -> bool {
    &&& screen_rows(after) == screen_hidden(before)
    &&& screen_hidden(after) == screen_rows(before)
    &&& screen_alternate(after) == !screen_alternate(before)
    &&& screen_size(after) == screen_size(before)
    &&& screen_scrollback(after) == 0
    &&& same_modes(before, after)
}

/// The text of the cells from the column `col` up to the column `end`. Columns
/// without text, from `written` on, are spaces where text follows them.
pub open spec fn text_from(cells: Seq<CellView>, written: int, col: int, end: int) -> Seq<char>
    decreases end + 1 - col,
{
    if col >= end || col >= cells.len() {
        Seq::empty()
    } else {
        let cell = cells[col];
        let next = if cell.wide {
            col + 2
        } else {
            col + 1
        };
        if cell.text.len() > 0 {
            Seq::new((col - written) as nat, |_i: int| ' ') + cell.text + text_from(
                cells,
                next,
                next,
                end,
            )
        } else {
            text_from(cells, written, next, end)
        }
    }
}

/// The text of a row, from the column `start` up to the column `end`.
pub open spec fn row_text(cells: Seq<CellView>, start: u16, end: u16) -> Seq<char> {
    text_from(cells, start as int, start as int, end as int)
}

/// How many rows of history a screen holds.
pub open spec fn history(screen: vt100::Screen) -> int {
    screen_rows(screen).len() - screen_size(screen).0
}

/// The offset that a request for `rows` rows of history comes to.
pub open spec fn scrolled(screen: vt100::Screen, rows: usize) -> int {
    if rows <= history(screen) {
        rows as int
    } else {
        history(screen)
    }
}

/// The row that is in view at the place `row`.
pub open spec fn row_in_view(screen: vt100::Screen, row: int) -> RowView {
    screen_rows(screen)[history(screen) - screen_scrollback(screen) + row]
}

/// The cell in view at the given place, where there is one: a row of history
/// may be shorter than the screen is wide.
pub open spec fn cell_in_view(screen: vt100::Screen, row: u16, col: u16) -> Option<CellView> {
    if row < screen_size(screen).0 && col < row_in_view(screen, row as int).cells.len() {
        Some(row_in_view(screen, row as int).cells[col as int])
    } else {
        None
    }
}

/// Whether two screens differ in their scrollback offset alone, as far as the
/// library can tell.
pub open spec fn same_but_scrollback(left: vt100::Screen, right: vt100::Screen) -> bool {
    &&& screen_rows(left) == screen_rows(right)
    &&& screen_size(left) == screen_size(right)
    &&& screen_cursor(left) == screen_cursor(right)
    &&& screen_hidden(left) == screen_hidden(right)
    &&& screen_alternate(left) == screen_alternate(right)
    &&& screen_whole(left) == screen_whole(right)
    &&& same_modes(left, right)
}

/// `Screen::clone` makes an equal screen.
pub assume_specification[ <vt100::Screen as Clone>::clone ](screen: &vt100::Screen) -> (copy:
    vt100::Screen)
    ensures
        copy == *screen,
;

/// `Screen::size`: rows and columns. As many rows are drawn, and the offset
/// into the history never passes its end.
pub assume_specification[ vt100::Screen::size ](screen: &vt100::Screen) -> (size: (u16, u16))
    ensures
        size == screen_size(*screen),
        size.0 + screen_scrollback(*screen) <= screen_rows(*screen).len(),
;

/// `Screen::scrollback`: how many rows of history are in view.
pub assume_specification[ vt100::Screen::scrollback ](screen: &vt100::Screen) -> (offset: usize)
    ensures
        offset == screen_scrollback(*screen),
        offset <= history(*screen),
;

/// `Screen::set_scrollback`: brings the given number of rows of history into
/// view, or all of them where there are fewer; nothing else changes.
pub assume_specification[ vt100::Screen::set_scrollback ](screen: &mut vt100::Screen, rows: usize)
    ensures
        *final(screen) == screen_scrolled(*old(screen), rows),
        same_but_scrollback(*old(screen), *final(screen)),
        screen_scrollback(*final(screen)) == scrolled(*old(screen), rows),
        0 <= history(*final(screen)) <= usize::MAX,
;

/// `Screen::cursor_position`: row and column of the cursor. It stays on the
/// screen, or behind the last column of a row that is full.
pub assume_specification[ vt100::Screen::cursor_position ](screen: &vt100::Screen) -> (cursor: (
    u16,
    u16,
))
    ensures
        cursor == screen_cursor(*screen),
        cursor.0 < screen_size(*screen).0,
        cursor.1 <= screen_size(*screen).1,
;

/// `Screen::alternate_screen`: whether the alternate grid is drawn on.
pub assume_specification[ vt100::Screen::alternate_screen ](screen: &vt100::Screen) -> (alternate:
    bool)
    ensures
        alternate == screen_alternate(*screen),
;

/// `Screen::bracketed_paste`: whether the program asked for framed pastes.
pub assume_specification[ vt100::Screen::bracketed_paste ](screen: &vt100::Screen) -> (bracketed:
    bool)
    ensures
        bracketed == screen_bracketed_paste(*screen),
;

/// `Screen::row_wrapped`: whether the text of a row in view goes on in the row
/// below; there is no such row past the last one.
pub assume_specification[ vt100::Screen::row_wrapped ](screen: &vt100::Screen, row: u16) -> (
    wrapped: bool)
    ensures
        wrapped == (row < screen_size(*screen).0 && row_in_view(*screen, row as int).wrapped),
;

/// `Screen::cell`: the cell in view at the given row and column. A row of
/// history keeps the width that it had when it was drawn.
pub assume_specification[ vt100::Screen::cell ](screen: &vt100::Screen, row: u16, col: u16) -> (
    cell: Option<&vt100::Cell>)
    ensures
        cell is Some <==> cell_in_view(*screen, row, col) is Some,
        cell matches Some(c) ==> cell_in_view(*screen, row, col) == Some(cell_view(*c)),
;

/// `Cell::contents`: the text of a cell.
pub assume_specification[ vt100::Cell::contents ](cell: &vt100::Cell) -> (text: &str)
    ensures
        text@ == cell_view(*cell).text,
;

/// `Cell::has_contents`: whether a cell holds any text.
pub assume_specification[ vt100::Cell::has_contents ](cell: &vt100::Cell) -> (set: bool)
    ensures
        set == (cell_view(*cell).text.len() > 0),
;

/// `Cell::is_wide`: whether a cell holds a character two columns wide.
pub assume_specification[ vt100::Cell::is_wide ](cell: &vt100::Cell) -> (set: bool)
    ensures
        set == cell_view(*cell).wide,
;

/// `Cell::is_wide_continuation`: whether a cell is the second half of a
/// wide character.
pub assume_specification[ vt100::Cell::is_wide_continuation ](cell: &vt100::Cell) -> (set: bool)
    ensures
        set == cell_view(*cell).wide_continuation,
;

/// `Cell::bold`: whether a cell is to be shown bold.
pub assume_specification[ vt100::Cell::bold ](cell: &vt100::Cell) -> (set: bool)
    ensures
        set == cell_view(*cell).bold,
;

/// `Cell::italic`: whether a cell is to be shown italic.
pub assume_specification[ vt100::Cell::italic ](cell: &vt100::Cell) -> (set: bool)
    ensures
        set == cell_view(*cell).italic,
;

/// `Cell::underline`: whether a cell is to be shown underlined.
pub assume_specification[ vt100::Cell::underline ](cell: &vt100::Cell) -> (set: bool)
    ensures
        set == cell_view(*cell).underline,
;

/// `Cell::dim`: whether a cell is to be shown dim.
pub assume_specification[ vt100::Cell::dim ](cell: &vt100::Cell) -> (set: bool)
    ensures
        set == cell_view(*cell).dim,
;

/// `Cell::inverse`: whether a cell is to be shown with its colours swapped.
pub assume_specification[ vt100::Cell::inverse ](cell: &vt100::Cell) -> (set: bool)
    ensures
        set == cell_view(*cell).inverse,
;

/// `Cell::fgcolor`: the foreground colour of a cell, one variant for each of
/// the variants of `vt100::Color`.
#[verifier::external_body]
pub(crate) fn cell_foreground(cell: &vt100::Cell) -> (color: CellColor)
    ensures
        color == cell_view(*cell).fg,
{
    match cell.fgcolor() {
        vt100::Color::Default => CellColor::Default,
        vt100::Color::Idx(index) => CellColor::Idx(index),
        vt100::Color::Rgb(red, green, blue) => CellColor::Rgb(red, green, blue),
    }
}

/// `Cell::bgcolor`: the background colour of a cell, one variant for each of
/// the variants of `vt100::Color`.
#[verifier::external_body]
pub(crate) fn cell_background(cell: &vt100::Cell) -> (color: CellColor)
    ensures
        color == cell_view(*cell).bg,
{
    match cell.bgcolor() {
        vt100::Color::Default => CellColor::Default,
        vt100::Color::Idx(index) => CellColor::Idx(index),
        vt100::Color::Rgb(red, green, blue) => CellColor::Rgb(red, green, blue),
    }
}

/// `Screen::mouse_protocol_mode`, one variant for each of its variants.
#[verifier::external_body]
pub(crate) fn mouse_mode(screen: &vt100::Screen) -> (mode: MouseProtocolMode)
    ensures
        mode == screen_mouse_mode(*screen),
{
    match screen.mouse_protocol_mode() {
        vt100::MouseProtocolMode::None => MouseProtocolMode::Off,
        vt100::MouseProtocolMode::Press => MouseProtocolMode::Press,
        vt100::MouseProtocolMode::PressRelease => MouseProtocolMode::PressRelease,
        vt100::MouseProtocolMode::ButtonMotion => MouseProtocolMode::ButtonMotion,
        vt100::MouseProtocolMode::AnyMotion => MouseProtocolMode::AnyMotion,
    }
}

/// `Screen::mouse_protocol_encoding`, one variant for each of its variants.
#[verifier::external_body]
pub(crate) fn mouse_encoding(screen: &vt100::Screen) -> (encoding: MouseProtocolEncoding)
    ensures
        encoding == screen_mouse_encoding(*screen),
{
    match screen.mouse_protocol_encoding() {
        vt100::MouseProtocolEncoding::Default => MouseProtocolEncoding::Default,
        vt100::MouseProtocolEncoding::Utf8 => MouseProtocolEncoding::Utf8,
        vt100::MouseProtocolEncoding::Sgr => MouseProtocolEncoding::Sgr,
    }
}

/// `Screen::contents_between` on one row in view: the text of the columns from
/// `start` up to `end`, with spaces for the columns before a text that hold
/// none. There is none in an empty range of columns, nor in a row past the last.
#[verifier::external_body]
pub(crate) fn row_contents(screen: &vt100::Screen, row: u16, start: u16, end: u16) -> (text: String)
    ensures
        row < screen_size(*screen).0 && start < end ==> text@ == row_text(
            row_in_view(*screen, row as int).cells,
            start,
            end,
        ),
        row >= screen_size(*screen).0 || start >= end ==> text@.len() == 0,
{
    screen.contents_between(row, start, row, end)
}

impl Emulator {
    /// `Parser::new`: a screen of the given size, with no history yet and the
    /// cursor at its start. The size must have a row.
    #[verifier::external_body]
    pub(crate) fn new(rows: u16, cols: u16, scrollback_len: usize) -> (emulator: Emulator)
        requires
            rows >= 1,
        ensures
            emulator == emulator_new(rows, cols, scrollback_len),
            screen_size(emulator_screen(emulator)) == (rows, cols),
            history(emulator_screen(emulator)) == 0,
            screen_scrollback(emulator_screen(emulator)) == 0,
            screen_cursor(emulator_screen(emulator)) == (0u16, 0u16),
            !screen_bracketed_paste(emulator_screen(emulator)),
            screen_mouse_mode(emulator_screen(emulator)) == MouseProtocolMode::Off,
            screen_mouse_encoding(emulator_screen(emulator)) == MouseProtocolEncoding::Default,
            screen_whole(emulator_screen(emulator)),
            emulator_idle(emulator),
    {
        Emulator { parser: vt100::Parser::new(rows, cols, scrollback_len) }
    }

    /// `Parser::screen`: the screen that the parser draws on.
    #[verifier::external_body]
    pub(crate) fn view(&self) -> (screen: &vt100::Screen)
        ensures
            *screen == emulator_screen(*self),
    {
        self.parser.screen()
    }

    /// `Parser::screen_mut`: puts a screen in the place of the one that the parser
    /// draws on; what was read of an unfinished sequence stays.
    #[verifier::external_body]
    pub(crate) fn set_screen(&mut self, screen: vt100::Screen)
        ensures
            *final(self) == emulator_with(*old(self), screen),
            emulator_screen(*final(self)) == screen,
            emulator_idle(*final(self)) == emulator_idle(*old(self)),
    {
        *self.parser.screen_mut() = screen
    }

    /// `Parser::process`: reads output of a program. What the screen holds after
    /// it is left to the name, but its size stays as it was and wide characters
    /// stay whole. Of a parser that is idle it is also said what moving the
    /// cursor, clearing one character and switching the grids come to. On a
    /// single row or column the emulator can count below zero, as it can where a
    /// character is wider than the screen, and it cannot count past the last tab
    /// stop of the widest screens. Where half of a wide character is missing it
    /// looks for the other half past the end of the row.
    #[verifier::external_body]
    pub(crate) fn process(&mut self, bytes: &[u8])
        requires
            working(emulator_screen(*old(self))),
            screen_size(emulator_screen(*old(self))).1 >= 3 || !has_triple(bytes@),
        ensures
            *final(self) == emulator_processed(*old(self), bytes@),
            screen_size(emulator_screen(*final(self))) == screen_size(emulator_screen(*old(self))),
            screen_whole(emulator_screen(*final(self))),
            forall|row: u16, col: u16|
                emulator_idle(*old(self)) && row < screen_size(emulator_screen(*old(self))).0
                    && col < screen_size(emulator_screen(*old(self))).1 && bytes@
                    == #[trigger] placing(row, col) ==> emulator_idle(*final(self)) && placed(
                    emulator_screen(*old(self)),
                    emulator_screen(*final(self)),
                    row,
                    col,
                ),
            forall|row: u16, col: u16|
                emulator_idle(*old(self)) && row < screen_size(emulator_screen(*old(self))).0
                    && col < screen_size(emulator_screen(*old(self))).1 && bytes@
                    == #[trigger] clearing(row, col) ==> emulator_idle(*final(self)) && cleared(
                    emulator_screen(*old(self)),
                    emulator_screen(*final(self)),
                    row,
                    col,
                ),
            emulator_idle(*old(self)) && bytes@ == switching(
                !screen_alternate(emulator_screen(*old(self))),
            ) ==> emulator_idle(*final(self)) && switched(
                emulator_screen(*old(self)),
                emulator_screen(*final(self)),
            ),
    {
        self.parser.process(bytes)
    }

    /// `Screen::set_scrollback` on the screen of a parser: as many rows of history
    /// as asked for come into view, or all where there are fewer.
    #[verifier::external_body]
    pub(crate) fn set_scrollback(&mut self, rows: usize)
        ensures
            *final(self) == emulator_scrolled(*old(self), rows),
            emulator_idle(*final(self)) == emulator_idle(*old(self)),
            same_but_scrollback(emulator_screen(*old(self)), emulator_screen(*final(self))),
            screen_scrollback(emulator_screen(*final(self))) == scrolled(
                emulator_screen(*old(self)),
                rows,
            ),
            0 <= history(emulator_screen(*final(self))) <= usize::MAX,
    {
        self.parser.screen_mut().set_scrollback(rows)
    }

    /// `Screen::set_size` on the screen of a parser: rows are cut or filled up to
    /// the new size, which must not be empty. The history and what of it is in
    /// view stay as they were; what the drawn rows hold, and where the cursor
    /// then is, is left to the name. Wide characters stay whole unless rows are
    /// cut in the middle of one.
    #[verifier::external_body]
    pub(crate) fn set_size(&mut self, rows: u16, cols: u16)
        requires
            rows >= 1,
            cols >= 1,
            screen_size(emulator_screen(*old(self))).0 >= 1,
        ensures
            *final(self) == emulator_resized(*old(self), rows, cols),
            screen_size(emulator_screen(*final(self))) == (rows, cols),
            history(emulator_screen(*final(self))) == history(emulator_screen(*old(self))),
            forall|i: int|
                0 <= i < history(emulator_screen(*old(self))) ==> #[trigger] screen_rows(
                    emulator_screen(*final(self)),
                )[i] == screen_rows(emulator_screen(*old(self)))[i],
            screen_scrollback(emulator_screen(*final(self))) == screen_scrollback(
                emulator_screen(*old(self)),
            ),
            same_modes(emulator_screen(*old(self)), emulator_screen(*final(self))),
            screen_whole(emulator_screen(*old(self))) && (cols >= screen_size(
                emulator_screen(*old(self)),
            ).1 || !splits(
                screen_rows(emulator_screen(*old(self))),
                screen_size(emulator_screen(*old(self))).0,
                (cols - 1) as u16,
            ) && !splits(
                screen_hidden(emulator_screen(*old(self))),
                screen_size(emulator_screen(*old(self))).0,
                (cols - 1) as u16,
            )) ==> screen_whole(emulator_screen(*final(self))),
    {
        self.parser.screen_mut().set_size(rows, cols)
    }
}

} // verus!
