//! Output and sizes that the emulator cannot take as they are.
//!
//! A screen is cut when it gets narrower. Where that would leave half of a wide
//! character in the last column, the character is cleared first, on both grids.
//! This is done on a copy of the screen with a parser of its own: the program
//! may be in the middle of a sequence.

use vstd::prelude::*;
use vstd::string::*;

use crate::geometry::{min_u16, smaller};
use crate::terminal::emulator::{
    begins_wide, clearing, emulator_idle, emulator_new, emulator_processed, emulator_resized,
    emulator_screen, emulator_scrolled, emulator_with, ends_triple, has_triple, history, placing,
    same_but_drawn, same_modes, screen_alternate, screen_cursor, screen_hidden, screen_rows,
    screen_scrollback, screen_size, splits, switching, working, Emulator, MAX_COLUMNS,
};
use crate::terminal::process::TerminalSize;
use crate::text::{bytes_of, decimal_text};

verus! {

/// The rows and columns of the screen of a terminal. A terminal may be wider than
/// the emulator can draw.
pub open spec fn drawn_size(size: TerminalSize) -> (u16, u16) {
    (size.rows, min_u16(size.cols, MAX_COLUMNS))
}

/// Output as it can be read on a screen of the given width: on two columns a
/// character that is three columns wide gives way to its neighbour U+17D9.
pub open spec fn readable(output: Seq<u8>, cols: u16) -> Seq<u8> {
    if cols >= 3 {
        output
    } else {
        Seq::new(
            output.len(),
            |i: int|
                if ends_triple(output, i) {
                    0x99u8
                } else {
                    output[i]
                },
        )
    }
}

/// The emulator once the first `count` rows that are drawn on hold no wide
/// character that begins in a column.
pub open spec fn rows_cleared(emulator: Emulator, col: u16, count: nat) -> Emulator
    decreases count,
{
    if count == 0 {
        emulator
    } else {
        let before = rows_cleared(emulator, col, (count - 1) as nat);
        let screen = emulator_screen(before);
        if begins_wide(screen_rows(screen)[history(screen) + count - 1], col) {
            emulator_processed(before, clearing((count - 1) as u16, col))
        } else {
            before
        }
    }
}

/// The emulator once no row that is drawn on holds a wide character that begins
/// in a column. The cursor stays, but for columns that are cut off.
pub open spec fn mended(emulator: Emulator, col: u16) -> Emulator {
    let screen = emulator_screen(emulator);
    emulator_processed(
        rows_cleared(emulator, col, screen_size(screen).0 as nat),
        placing(screen_cursor(screen).0, min_u16(screen_cursor(screen).1, col)),
    )
}

/// A parser that has read nothing, on a copy of a screen with no history in
/// view.
pub open spec fn scratch(screen: vt100::Screen) -> Emulator {
    emulator_scrolled(
        emulator_with(emulator_new(screen_size(screen).0, screen_size(screen).1, 0), screen),
        0,
    )
}

/// A screen with no wide character that begins in a column, on either grid.
pub open spec fn mended_screen(screen: vt100::Screen, col: u16) -> vt100::Screen {
    let there = emulator_processed(scratch(screen), switching(!screen_alternate(screen)));
    let back = emulator_processed(mended(there, col), switching(screen_alternate(screen)));
    emulator_screen(emulator_scrolled(mended(back, col), screen_scrollback(screen)))
}

/// Whether cutting a screen after a column would split a wide character.
pub open spec fn splits_screen(screen: vt100::Screen, col: u16) -> bool {
    splits(screen_rows(screen), screen_size(screen).0, col) || splits(
        screen_hidden(screen),
        screen_size(screen).0,
        col,
    )
}

/// The emulator at a new size. Wide characters that the new width would split
/// are cleared before.
pub open spec fn fitted(emulator: Emulator, rows: u16, cols: u16) -> Emulator {
    let screen = emulator_screen(emulator);
    if cols < screen_size(screen).1 && splits_screen(screen, (cols - 1) as u16) {
        emulator_resized(
            emulator_with(emulator, mended_screen(screen, (cols - 1) as u16)),
            rows,
            cols,
        )
    } else {
        emulator_resized(emulator, rows, cols)
    }
}

/// Whether two screens hold the same history.
pub open spec fn same_history(left: vt100::Screen, right: vt100::Screen) -> bool {
    &&& history(left) == history(right)
    &&& forall|i: int|
        0 <= i < history(left) ==> #[trigger] screen_rows(left)[i] == screen_rows(right)[i]
}

/// Output as it can be read on a screen of the given width.
pub(crate) fn read_on(output: &[u8], cols: u16) -> (bytes: Vec<u8>)
    ensures
        bytes@ == readable(output@, cols),
        cols >= 3 || !has_triple(bytes@),
{
    let mut bytes: Vec<u8> = Vec::new();
    let mut i: usize = 0;
    while i < output.len()
        invariant
            i <= output@.len(),
            bytes@ == readable(output@, cols).take(i as int),
        decreases output@.len() - i,
    {
        let triple: bool = output[i] == 0x98 && (i == 0 || output[i - 1] == 0x9f && (i == 1
            || output[i - 2] == 0xe1));
        if cols < 3 && triple {
            bytes.push(0x99);
        } else {
            bytes.push(output[i]);
        }
        assert(bytes@ =~= readable(output@, cols).take(i + 1));
        i += 1;
    }
    assert(bytes@ =~= readable(output@, cols));
    proof {
        if cols < 3 && has_triple(bytes@) {
            let k = choose|k: int| 0 <= k < bytes@.len() && #[trigger] ends_triple(bytes@, k);
            assert(!ends_triple(output@, k));
        }
    }
    bytes
}

/// Whether a row that is drawn on holds a wide character that begins in a
/// column.
fn row_splits(screen: &vt100::Screen, row: u16, col: u16) -> (result: bool)
    requires
        row < screen_size(*screen).0,
        screen_scrollback(*screen) == 0,
    ensures
        result == begins_wide(screen_rows(*screen)[history(*screen) + row], col),
{
    match screen.cell(row, col) {
        Some(cell) => cell.is_wide(),
        None => false,
    }
}

/// Whether cutting the rows that are drawn on after a column would split a wide
/// character.
fn any_splits(screen: &vt100::Screen, col: u16) -> (result: bool)
    requires
        screen_scrollback(*screen) == 0,
    ensures
        result == splits(screen_rows(*screen), screen_size(*screen).0, col),
{
    let rows: u16 = screen.size().0;
    let mut row: u16 = 0;
    while row < rows
        invariant
            row <= rows == screen_size(*screen).0,
            screen_scrollback(*screen) == 0,
            rows <= screen_rows(*screen).len(),
            forall|i: int|
                history(*screen) <= i < history(*screen) + row ==> !#[trigger] begins_wide(
                    screen_rows(*screen)[i],
                    col,
                ),
        decreases rows - row,
    {
        if row_splits(screen, row, col) {
            return true;
        }
        row += 1;
    }
    false
}

fn placing_bytes(row: u16, col: u16) -> (bytes: Vec<u8>)
    requires
        row < u16::MAX,
        col < u16::MAX,
    ensures
        bytes@ == placing(row, col),
{
    let mut text = "\x1b[".to_owned();
    text.append(decimal_text(row as u64 + 1).as_str());
    text.append("d\x1b[");
    text.append(decimal_text(col as u64 + 1).as_str());
    text.append("G");
    bytes_of(text.as_str())
}

fn clearing_bytes(row: u16, col: u16) -> (bytes: Vec<u8>)
    requires
        row < u16::MAX,
        col < u16::MAX,
    ensures
        bytes@ == clearing(row, col),
{
    let mut text = "\x1b[".to_owned();
    text.append(decimal_text(row as u64 + 1).as_str());
    text.append("d\x1b[");
    text.append(decimal_text(col as u64 + 1).as_str());
    text.append("G\x1b[X");
    bytes_of(text.as_str())
}

fn switching_bytes(alternate: bool) -> (bytes: Vec<u8>)
    ensures
        bytes@ == switching(alternate),
{
    if alternate {
        bytes_of("\x1b[?47h")
    } else {
        bytes_of("\x1b[?47l")
    }
}

/// Clears the wide characters that begin in a column, on the grid that is drawn
/// on.
fn mend(emulator: &mut Emulator, col: u16)
    requires
        working(emulator_screen(*old(emulator))),
        emulator_idle(*old(emulator)),
        screen_size(emulator_screen(*old(emulator))).1 >= 3,
        col < screen_size(emulator_screen(*old(emulator))).1,
        screen_scrollback(emulator_screen(*old(emulator))) == 0,
    ensures
        *final(emulator) == mended(*old(emulator), col),
        working(emulator_screen(*final(emulator))),
        emulator_idle(*final(emulator)),
        same_but_drawn(emulator_screen(*old(emulator)), emulator_screen(*final(emulator))),
        same_history(emulator_screen(*old(emulator)), emulator_screen(*final(emulator))),
        !splits(
            screen_rows(emulator_screen(*final(emulator))),
            screen_size(emulator_screen(*final(emulator))).0,
            col,
        ),
{
    let ghost before = emulator_screen(*emulator);
    let rows: u16 = emulator.view().size().0;
    let cursor: (u16, u16) = emulator.view().cursor_position();
    let mut row: u16 = 0;
    while row < rows
        invariant
            row <= rows == screen_size(before).0,
            rows <= screen_rows(before).len(),
            before == emulator_screen(*old(emulator)),
            *emulator == rows_cleared(*old(emulator), col, row as nat),
            working(emulator_screen(*emulator)),
            emulator_idle(*emulator),
            screen_size(before).1 >= 3,
            col < screen_size(before).1,
            screen_scrollback(before) == 0,
            same_but_drawn(before, emulator_screen(*emulator)),
            same_history(before, emulator_screen(*emulator)),
            screen_rows(emulator_screen(*emulator)).len() == screen_rows(before).len(),
            forall|i: int|
                history(before) <= i < history(before) + row ==> !#[trigger] begins_wide(
                    screen_rows(emulator_screen(*emulator))[i],
                    col,
                ),
        decreases rows - row,
    {
        let ghost last = emulator_screen(*emulator);
        if row_splits(emulator.view(), row, col) {
            let bytes = clearing_bytes(row, col);
            emulator.process(bytes.as_slice());
            assert(bytes@ == clearing(row, col));
            assert forall|i: int|
                history(before) <= i < history(before) + row + 1 implies !#[trigger] begins_wide(
                screen_rows(emulator_screen(*emulator))[i],
                col,
            ) by {
                if i < history(before) + row {
                    assert(!begins_wide(screen_rows(last)[i], col));
                }
            }
        }
        row += 1;
    }
    let bytes = placing_bytes(cursor.0, smaller(cursor.1, col));
    emulator.process(bytes.as_slice());
    assert(bytes@ == placing(cursor.0, min_u16(cursor.1, col)));
}

/// The screen without the wide characters that begin in a column, where there
/// are any.
fn mend_screen(screen: &vt100::Screen, col: u16) -> (result: Option<vt100::Screen>)
    requires
        working(*screen),
        screen_size(*screen).1 >= 3,
        col < screen_size(*screen).1,
    ensures
        result is Some <==> splits_screen(*screen, col),
        result matches Some(mended) ==> {
            &&& mended == mended_screen(*screen, col)
            &&& working(mended)
            &&& screen_size(mended) == screen_size(*screen)
            &&& screen_scrollback(mended) == screen_scrollback(*screen)
            &&& same_modes(*screen, mended)
            &&& same_history(*screen, mended)
            &&& !splits_screen(mended, col)
        },
{
    let size: (u16, u16) = screen.size();
    let offset: usize = screen.scrollback();
    let alternate: bool = screen.alternate_screen();
    let mut copy = Emulator::new(size.0, size.1, 0);
    copy.set_screen(screen.clone());
    copy.set_scrollback(0);
    let shown: bool = any_splits(copy.view(), col);
    let there = switching_bytes(!alternate);
    copy.process(there.as_slice());
    let hidden: bool = any_splits(copy.view(), col);
    if !shown && !hidden {
        return None;
    }
    mend(&mut copy, col);
    let back = switching_bytes(alternate);
    copy.process(back.as_slice());
    mend(&mut copy, col);
    copy.set_scrollback(offset);
    Some(copy.view().clone())
}

/// Brings the emulator to a new size. Wide characters that the new width would
/// split are cleared before.
pub(crate) fn fit(emulator: &mut Emulator, rows: u16, cols: u16)
    requires
        working(emulator_screen(*old(emulator))),
        rows >= 2,
        2 <= cols <= MAX_COLUMNS,
    ensures
        *final(emulator) == fitted(*old(emulator), rows, cols),
        working(emulator_screen(*final(emulator))),
        screen_size(emulator_screen(*final(emulator))) == (rows, cols),
        screen_scrollback(emulator_screen(*final(emulator))) == screen_scrollback(
            emulator_screen(*old(emulator)),
        ),
        same_modes(emulator_screen(*old(emulator)), emulator_screen(*final(emulator))),
        same_history(emulator_screen(*old(emulator)), emulator_screen(*final(emulator))),
{
    if cols < emulator.view().size().1 {
        match mend_screen(emulator.view(), cols - 1) {
            Some(screen) => {
                emulator.set_screen(screen);
            },
            None => {},
        }
    }
    emulator.set_size(rows, cols);
}

/// Output is read as it is on a screen of three columns or more. On a narrower one
/// only the last byte of a character that is three columns wide is another, so
/// nothing moves.
pub proof fn output_is_read_in_place(output: Seq<u8>, cols: u16, i: int)
    requires
        0 <= i < output.len(),
    ensures
        readable(output, cols).len() == output.len(),
        cols >= 3 ==> readable(output, cols) == output,
        output[i] != 0x98 ==> readable(output, cols)[i] == output[i],
        i >= 2 && output[i - 1] != 0x9f ==> readable(output, cols)[i] == output[i],
        cols < 3 && i >= 2 && output.subrange(i - 2, i + 1) == seq![0xe1u8, 0x9fu8, 0x98u8]
            ==> readable(output, cols)[i] == 0x99,
{
    if i >= 2 && output.subrange(i - 2, i + 1) == seq![0xe1u8, 0x9fu8, 0x98u8] {
        let last = output.subrange(i - 2, i + 1);
        assert(last[0] == output[i - 2] && last[1] == output[i - 1] && last[2] == output[i]);
    }
}

/// A screen has as many rows as its terminal, and as many columns as far as the
/// emulator can draw.
pub proof fn screens_fit_their_terminals(size: TerminalSize)
    ensures
        drawn_size(size).0 == size.rows,
        size.cols <= MAX_COLUMNS ==> drawn_size(size).1 == size.cols,
        size.cols > MAX_COLUMNS ==> drawn_size(size).1 == MAX_COLUMNS,
{
}

} // verus!
