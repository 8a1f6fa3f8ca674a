//! Selected cells of a screen and the text that they hold.
//!
//! Rows are counted from the first row that the screen draws. Rows of history
//! have negative numbers, so that a point stays on its text while the view
//! scrolls.

use vstd::prelude::*;

use crate::geometry::{min_u16, sat_add, sat_sub, smaller};
use crate::terminal::emulator::{
    history, row_contents, row_in_view, row_text, same_but_scrollback, screen_rows,
    screen_scrollback, screen_size, text_from, CellView, RowView,
};

verus! {

/// A cell of a screen or of its history.
#[derive(Debug, Clone, Copy, PartialEq, Eq, PartialOrd, Ord, Structural)]
pub struct TerminalPoint {
    pub row: i64,
    pub col: u16,
}

/// Two points and all cells between them, in reading order.
#[derive(Debug, Clone, Copy, PartialEq, Eq, Structural)]
pub struct TerminalRange {
    pub start: TerminalPoint,
    pub end: TerminalPoint,
}

impl TerminalPoint {
    /// Whether `self` is read no later than `other`.
    pub open spec fn at_or_before(self, other: TerminalPoint) -> bool {
        self.row < other.row || (self.row == other.row && self.col <= other.col)
    }

    pub fn new(row: i64, col: u16) -> (point: TerminalPoint)
        ensures
            point == (TerminalPoint { row, col }),
    {
        TerminalPoint { row, col }
    }

    fn precedes(self, other: TerminalPoint) -> (result: bool)
        ensures
            result == self.at_or_before(other),
    {
        self.row < other.row || (self.row == other.row && self.col <= other.col)
    }
}

impl TerminalRange {
    pub open spec fn between(first: TerminalPoint, second: TerminalPoint) -> TerminalRange {
        if first.at_or_before(second) {
            TerminalRange { start: first, end: second }
        } else {
            TerminalRange { start: second, end: first }
        }
    }

    pub open spec fn covers(self, point: TerminalPoint) -> bool {
        self.start.at_or_before(point) && point.at_or_before(self.end)
    }

    /// The range from the earlier to the later of two points.
    pub fn inclusive(first: TerminalPoint, second: TerminalPoint) -> (range: TerminalRange)
        ensures
            range == TerminalRange::between(first, second),
    {
        if first.precedes(second) {
            TerminalRange { start: first, end: second }
        } else {
            TerminalRange { start: second, end: first }
        }
    }

    pub fn contains(self, point: TerminalPoint) -> (result: bool)
        ensures
            result == self.covers(point),
    {
        self.start.precedes(point) && point.precedes(self.end)
    }
}

/// The largest number of rows of history that a point can count.
pub open spec fn countable_history(screen: vt100::Screen) -> int {
    if history(screen) <= i64::MAX {
        history(screen)
    } else {
        i64::MAX as int
    }
}

/// Whether the screen or its history has the row.
pub open spec fn has_row(screen: vt100::Screen, row: int) -> bool {
    -countable_history(screen) <= row < screen_size(screen).0
}

/// The row with the given number.
pub open spec fn row_at(screen: vt100::Screen, row: int) -> RowView {
    screen_rows(screen)[history(screen) + row]
}

/// The cell at a point, if there is one.
pub open spec fn cell_at(screen: vt100::Screen, point: TerminalPoint) -> Option<CellView> {
    if screen_size(screen).0 >= 1 && has_row(screen, point.row as int) && point.col < row_at(
        screen,
        point.row as int,
    ).cells.len() {
        Some(row_at(screen, point.row as int).cells[point.col as int])
    } else {
        None
    }
}

/// `point`, moved off the second half of a wide character.
pub open spec fn normalized(
    screen: vt100::Screen,
    point: TerminalPoint,
    moving_forward: bool,
) -> TerminalPoint {
    match cell_at(screen, point) {
        Some(cell) if cell.wide_continuation => TerminalPoint {
            row: point.row,
            col: if moving_forward {
                sat_add(point.col, 1)
            } else {
                sat_sub(point.col, 1)
            },
        },
        _ => point,
    }
}

/// The columns that the character at a point takes, or that at the last column
/// where the point lies to the right of the screen.
pub open spec fn columns_at(screen: vt100::Screen, point: TerminalPoint) -> Option<(u16, u16)> {
    let cols = screen_size(screen).1;
    let col = min_u16(point.col, sat_sub(cols, 1));
    match cell_at(screen, TerminalPoint { row: point.row, col }) {
        None => None,
        Some(cell) => Some(
            if cell.wide_continuation {
                (sat_sub(col, 1), min_u16(sat_add(col, 1), cols))
            } else if cell.wide {
                (col, min_u16(sat_add(col, 2), cols))
            } else {
                (col, min_u16(sat_add(col, 1), cols))
            },
        ),
    }
}

/// The text of the rows `row..=last`: the first row of the selection from
/// `start_col` on, its last row up to `end_col`, and other rows whole. A row
/// ends in a line break unless its text goes on in the next.
pub open spec fn rows_text(
    screen: vt100::Screen,
    range: TerminalRange,
    start_col: u16,
    end_col: u16,
    row: int,
) -> Seq<char>
    decreases range.end.row - row + 1,
{
    if row > range.end.row {
        Seq::empty()
    } else {
        let start = if row == range.start.row {
            start_col
        } else {
            0
        };
        let end = if row == range.end.row {
            end_col
        } else {
            screen_size(screen).1
        };
        let text = if start < end {
            row_text(row_at(screen, row).cells, start, end)
        } else {
            Seq::empty()
        };
        let line = if row < range.end.row && !row_at(screen, row).wrapped {
            text.push('\n')
        } else {
            text
        };
        line + rows_text(screen, range, start_col, end_col, row + 1)
    }
}

/// The text of a selection; there is none where an end is not on the screen.
pub open spec fn selected(screen: vt100::Screen, range: TerminalRange) -> Seq<char> {
    match (columns_at(screen, range.start), columns_at(screen, range.end)) {
        (Some(first), Some(last)) => rows_text(
            screen,
            range,
            first.0,
            last.1,
            range.start.row as int,
        ),
        _ => Seq::empty(),
    }
}

/// How many rows of history a screen holds.
pub fn max_scrollback(screen: &vt100::Screen) -> (rows: usize)
    ensures
        rows == history(*screen),
{
    let mut snapshot = screen.clone();
    snapshot.set_scrollback(usize::MAX);
    snapshot.scrollback()
}

/// Moves a point off the second half of a wide character, to the cell after it
/// or to its first half.
pub fn normalize_point(screen: &vt100::Screen, point: TerminalPoint, moving_forward: bool) -> (
    result: TerminalPoint)
    ensures
        result == normalized(*screen, point, moving_forward),
{
    let max_history: usize = max_scrollback(screen);
    let mut snapshot = screen.clone();
    match reveal_history_row(&mut snapshot, point.row, max_history) {
        None => point,
        Some(visible_row) => {
            assert(row_in_view(snapshot, visible_row as int) == row_at(*screen, point.row as int));
            match snapshot.cell(visible_row, point.col) {
                Some(cell) if cell.is_wide_continuation() => TerminalPoint {
                    row: point.row,
                    col: if moving_forward {
                        point.col.saturating_add(1)
                    } else {
                        point.col.saturating_sub(1)
                    },
                },
                _ => point,
            }
        },
    }
}

/// The text of a selection.
pub fn extract(screen: &vt100::Screen, range: TerminalRange) -> (text: String)
    ensures
        text@ == selected(*screen, range),
{
    let max_history: usize = max_scrollback(screen);
    let mut snapshot = screen.clone();
    let start_col: u16 = match cell_bounds(&mut snapshot, range.start, max_history) {
        None => return String::new(),
        Some(bounds) => bounds.0,
    };
    let end_col: u16 = match cell_bounds(&mut snapshot, range.end, max_history) {
        None => return String::new(),
        Some(bounds) => bounds.1,
    };
    let size: (u16, u16) = screen.size();
    let cols: u16 = size.1;
    let mut contents = String::new();
    let mut row: i64 = range.start.row;
    assert(has_row(*screen, range.end.row as int));
    while row <= range.end.row
        invariant
            max_history == history(*screen),
            screen_size(*screen).0 >= 1,
            has_row(*screen, range.start.row as int),
            has_row(*screen, range.end.row as int),
            range.start.row <= row,
            row <= range.end.row ==> has_row(*screen, row as int),
            cols == screen_size(*screen).1,
            same_but_scrollback(*screen, snapshot),
            contents@ + rows_text(*screen, range, start_col, end_col, row as int) == rows_text(
                *screen,
                range,
                start_col,
                end_col,
                range.start.row as int,
            ),
        decreases range.end.row - row + 1,
    {
        if let Some(visible_row) = reveal_history_row(&mut snapshot, row, max_history) {
            assert(row_in_view(snapshot, visible_row as int) == row_at(*screen, row as int));
            let row_start: u16 = if row == range.start.row {
                start_col
            } else {
                0
            };
            let row_end: u16 = if row == range.end.row {
                end_col
            } else {
                cols
            };
            let ghost before = contents@;
            let ghost mut line = Seq::<char>::empty();
            if row_end > row_start {
                let text = row_contents(&snapshot, visible_row, row_start, row_end);
                contents.append(text.as_str());
                proof {
                    line = text@;
                }
            }
            assert(contents@ =~= before + line);
            if row < range.end.row && !snapshot.row_wrapped(visible_row) {
                contents.push('\n');
                assert(contents@ =~= before + line.push('\n'));
                proof {
                    line = line.push('\n');
                }
            }
            assert(before + (line + rows_text(*screen, range, start_col, end_col, row + 1))
                =~= contents@ + rows_text(*screen, range, start_col, end_col, row + 1));
        }
        row += 1;
    }
    assert(contents@ + rows_text(*screen, range, start_col, end_col, row as int) =~= contents@);
    contents
}

/// The columns of the character at a point. The scrollback offset is left
/// where the row was found.
fn cell_bounds(snapshot: &mut vt100::Screen, point: TerminalPoint, max_history: usize) -> (result:
    Option<(u16, u16)>)
    requires
        max_history == history(*old(snapshot)),
    ensures
        same_but_scrollback(*old(snapshot), *final(snapshot)),
        result == columns_at(*old(snapshot), point),
        result is Some ==> screen_size(*old(snapshot)).0 >= 1 && has_row(
            *old(snapshot),
            point.row as int,
        ),
{
    let ghost screen = *snapshot;
    match reveal_history_row(snapshot, point.row, max_history) {
        None => None,
        Some(visible_row) => {
            let size: (u16, u16) = snapshot.size();
            let cols: u16 = size.1;
            let col: u16 = smaller(point.col, cols.saturating_sub(1));
            assert(row_in_view(*snapshot, visible_row as int) == row_at(screen, point.row as int));
            match snapshot.cell(visible_row, col) {
                None => None,
                Some(cell) => Some(
                    if cell.is_wide_continuation() {
                        (col.saturating_sub(1), smaller(col.saturating_add(1), cols))
                    } else if cell.is_wide() {
                        (col, smaller(col.saturating_add(2), cols))
                    } else {
                        (col, smaller(col.saturating_add(1), cols))
                    },
                ),
            }
        },
    }
}

/// Scrolls so that the given row is in view, and tells where.
fn reveal_history_row(screen: &mut vt100::Screen, history_row: i64, max_history: usize) -> (result:
    Option<u16>)
    requires
        max_history == history(*old(screen)),
    ensures
        same_but_scrollback(*old(screen), *final(screen)),
        result is Some <==> has_row(*old(screen), history_row as int),
        result matches Some(row) ==> {
            &&& screen_size(*old(screen)).0 >= 1 ==> row < screen_size(*old(screen)).0
            &&& history(*final(screen)) - screen_scrollback(*final(screen)) + row == history(
                *old(screen),
            ) + history_row
        },
{
    let size: (u16, u16) = screen.size();
    let rows: u16 = size.0;
    let max_history: i64 = if max_history as u64 <= i64::MAX as u64 {
        max_history as i64
    } else {
        i64::MAX
    };
    if history_row < -max_history || history_row >= rows as i64 {
        return None;
    }
    if history_row < 0 {
        let above: i64 = -history_row;
        screen.set_scrollback(above as usize);
        Some(0)
    } else {
        screen.set_scrollback(0);
        Some(history_row as u16)
    }
}

/// Both ends belong to a range, whichever of the two comes first.
pub proof fn ranges_hold_their_ends(first: TerminalPoint, second: TerminalPoint)
    ensures
        TerminalRange::between(first, second) == TerminalRange::between(second, first),
        TerminalRange::between(first, second).covers(first),
        TerminalRange::between(first, second).covers(second),
{
}

/// A wide character is selected whole from either half: both halves span the
/// same columns.
pub proof fn wide_characters_are_selected_whole(
    screen: vt100::Screen,
    leading: TerminalPoint,
    trailing: TerminalPoint,
)
    requires
        trailing.row == leading.row,
        trailing.col == leading.col + 1,
        trailing.col < screen_size(screen).1,
        cell_at(screen, leading) matches Some(cell) && cell.wide && !cell.wide_continuation,
        cell_at(screen, trailing) matches Some(cell) && cell.wide_continuation,
    ensures
        columns_at(screen, leading) == columns_at(screen, trailing),
        columns_at(screen, leading) == Some((leading.col, (trailing.col + 1) as u16)),
        normalized(screen, trailing, false) == leading,
{
}

/// What a selection holds does not depend on what is in view.
pub proof fn selected_text_ignores_the_view(
    left: vt100::Screen,
    right: vt100::Screen,
    range: TerminalRange,
)
    requires
        same_but_scrollback(left, right),
    ensures
        selected(left, range) == selected(right, range),
{
    if let (Some(first), Some(last)) = (
        columns_at(left, range.start),
        columns_at(left, range.end),
    ) {
        rows_text_ignores_the_view(left, right, range, first.0, last.1, range.start.row as int);
    }
}

proof fn rows_text_ignores_the_view(
    left: vt100::Screen,
    right: vt100::Screen,
    range: TerminalRange,
    start_col: u16,
    end_col: u16,
    row: int,
)
    requires
        same_but_scrollback(left, right),
    ensures
        rows_text(left, range, start_col, end_col, row) == rows_text(
            right,
            range,
            start_col,
            end_col,
            row,
        ),
    decreases range.end.row - row + 1,
{
    if row <= range.end.row {
        rows_text_ignores_the_view(left, right, range, start_col, end_col, row + 1);
    }
}

/// The end of a line of text: a line break, unless the row goes on in the next.
pub open spec fn line_end(screen: vt100::Screen, row: int) -> Seq<char> {
    if row_at(screen, row).wrapped {
        Seq::empty()
    } else {
        seq!['\n']
    }
}

/// The text of all columns of the rows from `first` up to `last`, with the ends
/// of their lines.
pub open spec fn whole_rows(screen: vt100::Screen, first: int, last: int) -> Seq<char>
    decreases last - first,
{
    if first >= last {
        Seq::empty()
    } else {
        whole_rows(screen, first, last - 1) + row_text(
            row_at(screen, last - 1).cells,
            0,
            screen_size(screen).1,
        ) + line_end(screen, last - 1)
    }
}

proof fn whole_rows_join(screen: vt100::Screen, first: int, middle: int, last: int)
    requires
        first <= middle <= last,
    ensures
        whole_rows(screen, first, last) == whole_rows(screen, first, middle) + whole_rows(
            screen,
            middle,
            last,
        ),
    decreases last - middle,
{
    if middle < last {
        whole_rows_join(screen, first, middle, last - 1);
        let text = row_text(row_at(screen, last - 1).cells, 0, screen_size(screen).1);
        let end = line_end(screen, last - 1);
        assert(whole_rows(screen, first, middle) + (whole_rows(screen, middle, last - 1) + text
            + end) =~= whole_rows(screen, first, middle) + whole_rows(screen, middle, last - 1)
            + text + end);
    } else {
        assert(whole_rows(screen, first, middle) + Seq::<char>::empty() =~= whole_rows(
            screen,
            first,
            middle,
        ));
    }
}

proof fn one_whole_row(screen: vt100::Screen, row: int)
    ensures
        whole_rows(screen, row, row + 1) == row_text(
            row_at(screen, row).cells,
            0,
            screen_size(screen).1,
        ) + line_end(screen, row),
{
    assert(whole_rows(screen, row, row) =~= Seq::<char>::empty());
    assert(whole_rows(screen, row, row + 1) =~= row_text(
        row_at(screen, row).cells,
        0,
        screen_size(screen).1,
    ) + line_end(screen, row));
}

proof fn later_rows(
    screen: vt100::Screen,
    range: TerminalRange,
    start_col: u16,
    end_col: u16,
    row: int,
)
    requires
        range.start.row < row <= range.end.row,
    ensures
        rows_text(screen, range, start_col, end_col, row) == whole_rows(
            screen,
            row,
            range.end.row as int,
        ) + row_text(row_at(screen, range.end.row as int).cells, 0, end_col),
    decreases range.end.row - row,
{
    let last = range.end.row as int;
    let cells = row_at(screen, row).cells;
    if row == last {
        assert(rows_text(screen, range, start_col, end_col, row + 1) =~= Seq::<char>::empty());
        assert(rows_text(screen, range, start_col, end_col, row) =~= row_text(cells, 0, end_col));
        assert(whole_rows(screen, row, last) =~= Seq::<char>::empty());
    } else {
        later_rows(screen, range, start_col, end_col, row + 1);
        whole_rows_join(screen, row, row + 1, last);
        one_whole_row(screen, row);
        let cols = screen_size(screen).1;
        let text = row_text(cells, 0, cols);
        let tail = row_text(row_at(screen, last).cells, 0, end_col);
        let rest = whole_rows(screen, row + 1, last);
        if cols == 0 {
            assert(text =~= Seq::<char>::empty());
        }
        assert(text.push('\n') =~= text + seq!['\n']);
        assert(text + line_end(screen, row) + (rest + tail) =~= whole_rows(screen, row, last)
            + tail);
        assert(rows_text(screen, range, start_col, end_col, row) =~= text + line_end(screen, row)
            + rows_text(screen, range, start_col, end_col, row + 1));
    }
}

/// A selection in one row holds the text of its columns. One over several rows
/// is read like text: its first row from the first character to the right end,
/// the rows between whole, and its last row from the left up to the last
/// character, with the ends of the lines between them.
pub proof fn selections_are_read_line_by_line(screen: vt100::Screen, range: TerminalRange)
    requires
        range.start.at_or_before(range.end),
        columns_at(screen, range.start) is Some,
        columns_at(screen, range.end) is Some,
    ensures
        ({
            let first = (columns_at(screen, range.start)->0).0;
            let end = (columns_at(screen, range.end)->0).1;
            let (top, bottom) = (range.start.row as int, range.end.row as int);
            if top == bottom {
                selected(screen, range) == row_text(row_at(screen, top).cells, first, end)
            } else {
                selected(screen, range) == row_text(
                    row_at(screen, top).cells,
                    first,
                    screen_size(screen).1,
                ) + line_end(screen, top) + whole_rows(screen, top + 1, bottom) + row_text(
                    row_at(screen, bottom).cells,
                    0,
                    end,
                )
            }
        }),
{
    let first = (columns_at(screen, range.start)->0).0;
    let end = (columns_at(screen, range.end)->0).1;
    let (top, bottom) = (range.start.row as int, range.end.row as int);
    let cells = row_at(screen, top).cells;
    if top == bottom {
        assert(rows_text(screen, range, first, end, top + 1) =~= Seq::<char>::empty());
        assert(selected(screen, range) =~= row_text(cells, first, end));
    } else {
        later_rows(screen, range, first, end, top + 1);
        let text = row_text(cells, first, screen_size(screen).1);
        assert(text.push('\n') =~= text + seq!['\n']);
        assert(selected(screen, range) =~= text + line_end(screen, top) + whole_rows(
            screen,
            top + 1,
            bottom,
        ) + row_text(row_at(screen, bottom).cells, 0, end));
    }
}

/// A character takes the columns from its first cell on: two if it is wide, one
/// if it is not.
pub proof fn characters_take_their_columns(screen: vt100::Screen, point: TerminalPoint)
    requires
        point.col < screen_size(screen).1,
    ensures
        columns_at(screen, point) is Some <==> cell_at(screen, point) is Some,
        columns_at(screen, point) matches Some(columns) ==> columns.0 <= point.col < columns.1
            <= screen_size(screen).1,
        cell_at(screen, point) matches Some(cell) && !cell.wide && !cell.wide_continuation
            ==> columns_at(screen, point) == Some((point.col, (point.col + 1) as u16)),
        cell_at(screen, point) matches Some(cell) && cell.wide && !cell.wide_continuation
            && point.col + 1 < screen_size(screen).1 ==> columns_at(screen, point) == Some(
            (point.col, (point.col + 2) as u16),
        ),
        cell_at(screen, point) matches Some(cell) && cell.wide_continuation && point.col > 0
            ==> columns_at(screen, point) == Some(
            ((point.col - 1) as u16, (point.col + 1) as u16),
        ),
{
}

/// The text up to the end of a row, a line break unless the row goes on, and
/// the text from the start of the next row on make up the text of the whole.
pub proof fn selections_join_at_line_ends(
    screen: vt100::Screen,
    start: TerminalPoint,
    row: i64,
    end: TerminalPoint,
)
    requires
        start.row <= row < end.row,
        1 <= screen_size(screen).1,
        start.col < screen_size(screen).1,
        columns_at(screen, start) is Some,
        columns_at(screen, end) is Some,
        cell_at(screen, TerminalPoint { row, col: (screen_size(screen).1 - 1) as u16 }) is Some,
        cell_at(screen, TerminalPoint { row: (row + 1) as i64, col: 0 }) is Some,
    ensures
        ({
            let right = TerminalPoint { row, col: (screen_size(screen).1 - 1) as u16 };
            let left = TerminalPoint { row: (row + 1) as i64, col: 0 };
            selected(screen, TerminalRange { start, end }) == selected(
                screen,
                TerminalRange { start, end: right },
            ) + line_end(screen, row as int) + selected(
                screen,
                TerminalRange { start: left, end },
            )
        }),
{
    let right = TerminalPoint { row, col: (screen_size(screen).1 - 1) as u16 };
    let left = TerminalPoint { row: (row + 1) as i64, col: 0 };
    let cols = screen_size(screen).1;
    let first = (columns_at(screen, start)->0).0;
    let last = (columns_at(screen, end)->0).1;
    let (top, middle, bottom) = (start.row as int, row as int, end.row as int);
    let head = row_text(row_at(screen, top).cells, first, cols);
    let tail = row_text(row_at(screen, bottom).cells, 0, last);
    let full = row_text(row_at(screen, middle).cells, 0, cols);
    let rest = whole_rows(screen, middle + 1, bottom);
    text_after_a_line(screen, left, end);
    selections_are_read_line_by_line(screen, TerminalRange { start, end });
    selections_are_read_line_by_line(screen, TerminalRange { start, end: right });
    assert((columns_at(screen, right)->0).1 == cols);
    if top == middle {
        assert(head + line_end(screen, middle) + rest + tail =~= head + line_end(screen, middle)
            + (rest + tail));
    } else {
        let between = whole_rows(screen, top + 1, middle);
        one_whole_row(screen, middle);
        whole_rows_join(screen, top + 1, middle, bottom);
        whole_rows_join(screen, middle, middle + 1, bottom);
        texts_join(
            head,
            line_end(screen, top),
            between,
            full,
            line_end(screen, middle),
            rest,
            tail,
        );
    }
}

proof fn texts_join(
    head: Seq<char>,
    first: Seq<char>,
    between: Seq<char>,
    full: Seq<char>,
    second: Seq<char>,
    rest: Seq<char>,
    tail: Seq<char>,
)
    ensures
        head + first + (between + (full + second + rest)) + tail == (head + first + between + full)
            + second + (rest + tail),
{
    assert(head + first + (between + (full + second + rest)) + tail =~= (head + first + between
        + full) + second + (rest + tail));
}

/// The text from the start of a row on.
proof fn text_after_a_line(screen: vt100::Screen, left: TerminalPoint, end: TerminalPoint)
    requires
        left.col == 0,
        left.row <= end.row,
        1 <= screen_size(screen).1,
        cell_at(screen, left) is Some,
        columns_at(screen, end) is Some,
    ensures
        selected(screen, TerminalRange { start: left, end }) == whole_rows(
            screen,
            left.row as int,
            end.row as int,
        ) + row_text(
            row_at(screen, end.row as int).cells,
            0,
            (columns_at(screen, end)->0).1,
        ),
{
    let (top, bottom) = (left.row as int, end.row as int);
    let tail = row_text(row_at(screen, bottom).cells, 0, (columns_at(screen, end)->0).1);
    selections_are_read_line_by_line(screen, TerminalRange { start: left, end });
    assert((columns_at(screen, left)->0).0 == 0);
    if top == bottom {
        assert(whole_rows(screen, top, bottom) =~= Seq::<char>::empty());
        assert(Seq::<char>::empty() + tail =~= tail);
    } else {
        one_whole_row(screen, top);
        whole_rows_join(screen, top, top + 1, bottom);
    }
}

/// Whether a text holds another.
pub open spec fn holds_text(text: Seq<char>, part: Seq<char>) -> bool {
    exists|before: Seq<char>, after: Seq<char>| text == #[trigger] (before + part + after)
}

proof fn longer_texts_hold_it(before: Seq<char>, text: Seq<char>, after: Seq<char>, part: Seq<char>)
    requires
        holds_text(text, part),
    ensures
        holds_text(before + text + after, part),
{
    let (head, tail) = choose|head: Seq<char>, tail: Seq<char>| text == #[trigger] (head + part
        + tail);
    assert(before + text + after =~= (before + head) + part + (tail + after));
}

proof fn columns_hold_their_cells(
    cells: Seq<CellView>,
    written: int,
    col: int,
    end: int,
    place: int,
)
    requires
        col <= place < end,
        place < cells.len(),
        0 <= col,
        place > col ==> !cells[place - 1].wide,
    ensures
        holds_text(text_from(cells, written, col, end), cells[place].text),
    decreases end - col,
{
    let cell = cells[col];
    let text = text_from(cells, written, col, end);
    let part = cells[place].text;
    let next = if cell.wide {
        col + 2
    } else {
        col + 1
    };
    let spaces = Seq::new((col - written) as nat, |_i: int| ' ');
    let none = Seq::<char>::empty();
    if col == place {
        if cell.text.len() > 0 {
            let rest = text_from(cells, next, next, end);
            assert(text == spaces + part + rest);
        } else {
            assert(text =~= none + part + text);
        }
    } else {
        if cell.text.len() > 0 {
            let rest = text_from(cells, next, next, end);
            columns_hold_their_cells(cells, next, next, end, place);
            longer_texts_hold_it(spaces + cell.text, rest, none, part);
            assert(spaces + cell.text + rest + none =~= text);
        } else {
            columns_hold_their_cells(cells, written, next, end, place);
        }
    }
}

proof fn rows_hold_their_cells(
    screen: vt100::Screen,
    range: TerminalRange,
    start_col: u16,
    end_col: u16,
    row: int,
    point: TerminalPoint,
)
    requires
        range.start.row <= row <= point.row <= range.end.row,
        point.col < screen_size(screen).1,
        point.col < row_at(screen, point.row as int).cells.len(),
        point.col > 0 ==> !row_at(screen, point.row as int).cells[point.col - 1].wide,
        point.row == range.start.row ==> start_col <= point.col,
        point.row == range.end.row ==> point.col < end_col,
    ensures
        holds_text(
            rows_text(screen, range, start_col, end_col, row),
            row_at(screen, point.row as int).cells[point.col as int].text,
        ),
    decreases point.row - row,
{
    let cells = row_at(screen, row).cells;
    let part = row_at(screen, point.row as int).cells[point.col as int].text;
    let start = if row == range.start.row {
        start_col
    } else {
        0
    };
    let end = if row == range.end.row {
        end_col
    } else {
        screen_size(screen).1
    };
    let text = if start < end {
        row_text(cells, start, end)
    } else {
        Seq::empty()
    };
    let rest = rows_text(screen, range, start_col, end_col, row + 1);
    let broken = row < range.end.row && !row_at(screen, row).wrapped;
    let line = if broken {
        text.push('\n')
    } else {
        text
    };
    let none = Seq::<char>::empty();
    let whole = rows_text(screen, range, start_col, end_col, row);
    assert(whole == line + rest);
    if row == point.row {
        columns_hold_their_cells(
            cells,
            start as int,
            start as int,
            end as int,
            point.col as int,
        );
        if broken {
            longer_texts_hold_it(none, text, seq!['\n'] + rest, part);
            assert(none + text + (seq!['\n'] + rest) =~= whole);
        } else {
            longer_texts_hold_it(none, text, rest, part);
            assert(none + text + rest =~= whole);
        }
    } else {
        rows_hold_their_cells(screen, range, start_col, end_col, row + 1, point);
        longer_texts_hold_it(line, rest, none, part);
        assert(line + rest + none =~= whole);
    }
}

/// Every cell that a range covers adds its text to what the selection holds.
pub proof fn covered_cells_are_selected(
    screen: vt100::Screen,
    range: TerminalRange,
    point: TerminalPoint,
)
    requires
        range.covers(point),
        columns_at(screen, range.start) is Some,
        columns_at(screen, range.end) is Some,
        point.col < screen_size(screen).1,
        cell_at(screen, point) is Some,
        point.col > 0 ==> !row_at(screen, point.row as int).cells[point.col - 1].wide,
    ensures
        holds_text(selected(screen, range), cell_at(screen, point)->0.text),
{
    let first = (columns_at(screen, range.start)->0).0;
    let end = (columns_at(screen, range.end)->0).1;
    rows_hold_their_cells(screen, range, first, end, range.start.row as int, point);
}

/// There is nothing to copy where an end of a selection is not on the screen.
pub proof fn selections_need_both_ends(screen: vt100::Screen, range: TerminalRange)
    requires
        cell_at(screen, range.start) is None || cell_at(screen, range.end) is None,
        range.start.col < screen_size(screen).1,
        range.end.col < screen_size(screen).1,
    ensures
        selected(screen, range).len() == 0,
{
}

/// A range covers the cells between its ends in reading order: of its first row
/// those from the start on, of its last row those up to the end, and of rows
/// between all of them.
pub proof fn ranges_cover_text_in_reading_order(
    first: TerminalPoint,
    second: TerminalPoint,
    point: TerminalPoint,
)
    requires
        first.row < second.row || (first.row == second.row && first.col <= second.col),
    ensures
        ({
            let range = TerminalRange::between(second, first);
            &&& range.start == first
            &&& range.end == second
            &&& range.covers(point) <==> {
                &&& first.row <= point.row <= second.row
                &&& point.row == first.row ==> first.col <= point.col
                &&& point.row == second.row ==> point.col <= second.col
            }
        }),
{
}

} // verus!
