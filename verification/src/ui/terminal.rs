//! What a terminal pane looks like.

use vstd::prelude::*;

use crate::geometry::{sat_add, sat_sub, Rect};
use crate::terminal::emulator::{
    cell_background, cell_foreground, cell_in_view, cell_view, screen_cursor, screen_scrollback,
    screen_size, CellColor, CellView,
};
use crate::terminal::process::TerminalSize;
use crate::terminal::selection::{TerminalPoint, TerminalRange};
use crate::terminal::session::{count, countable};
use crate::text::{chars_of, decimal, decimal_text};
use crate::ui::style::{
    lines, marks, spans, Color, Line, LineView, Mark, MarkView, Span, SpanView, Style,
};
use crate::workbench::tabs::{
    plus_cell, shell_tab_geometry, shown_row, ShellTabGeometry, ShellTabs, TabsView,
};

verus! {

/// What a border leaves of a pane.
pub open spec fn content_size(area: Rect) -> TerminalSize {
    TerminalSize::spec_new(sat_sub(area.width, 2), sat_sub(area.height, 2))
}

/// What a border and a row of tabs leave of a pane.
pub open spec fn shell_content_size(area: Rect) -> TerminalSize {
    TerminalSize::spec_new(sat_sub(area.width, 2), sat_sub(area.height, 3))
}

pub fn terminal_content_size(area: Rect) -> (size: TerminalSize)
    ensures
        size == content_size(area),
        size.safe(),
{
    TerminalSize::new(area.width.saturating_sub(2), area.height.saturating_sub(2))
}

pub fn shell_terminal_content_size(area: Rect) -> (size: TerminalSize)
    ensures
        size == shell_content_size(area),
        size.safe(),
{
    TerminalSize::new(area.width.saturating_sub(2), area.height.saturating_sub(3))
}

/// The sixteen colours that have names, and the rest by their numbers.
pub open spec fn palette(index: u8) -> Color {
    match index {
        0 => Color::Black,
        1 => Color::Red,
        2 => Color::Green,
        3 => Color::Yellow,
        4 => Color::Blue,
        5 => Color::Magenta,
        6 => Color::Cyan,
        7 => Color::Gray,
        8 => Color::DarkGray,
        9 => Color::LightRed,
        10 => Color::LightGreen,
        11 => Color::LightYellow,
        12 => Color::LightBlue,
        13 => Color::LightMagenta,
        14 => Color::LightCyan,
        15 => Color::White,
        value => Color::Indexed(value),
    }
}

/// The colour that a program asked for; `None` is the default.
pub open spec fn requested_color(color: CellColor) -> Option<Color> {
    match color {
        CellColor::Default => None,
        CellColor::Idx(index) => Some(palette(index)),
        CellColor::Rgb(red, green, blue) => Some(Color::Rgb(red, green, blue)),
    }
}

/// The two colours, foreground first, in exchange. Two defaults become black
/// on the `fallback`.
pub open spec fn swapped(
    colors: (Option<Color>, Option<Color>),
    fallback: Color,
) -> (Option<Color>, Option<Color>) {
    if colors.0 is None && colors.1 is None {
        (Some(Color::Black), Some(fallback))
    } else {
        (colors.1, colors.0)
    }
}

/// The colours of a cell, foreground first: those asked for, in exchange where
/// the program wants it and once more at the cursor. A selection hides both.
pub open spec fn cell_colors(cell: CellView, is_cursor: bool, is_selected: bool) -> (
    Option<Color>,
    Option<Color>,
) {
    let requested = (requested_color(cell.fg), requested_color(cell.bg));
    let shown = if cell.inverse {
        swapped(requested, Color::White)
    } else {
        requested
    };
    if is_selected {
        (Some(Color::Black), Some(Color::LightBlue))
    } else if is_cursor {
        swapped(shown, Color::LightYellow)
    } else {
        shown
    }
}

/// The style of a cell.
pub open spec fn style_of_cell(cell: CellView, is_cursor: bool, is_selected: bool) -> Style {
    let colors = cell_colors(cell, is_cursor, is_selected);
    Style {
        fg: colors.0,
        bg: colors.1,
        bold: cell.bold,
        italic: cell.italic,
        underlined: cell.underline,
        dim: cell.dim,
    }
}

/// Whether the cell in view at the given place is selected.
pub open spec fn selected_in_view(
    screen: vt100::Screen,
    selection: Option<TerminalRange>,
    row: u16,
    col: u16,
) -> bool {
    selection matches Some(range) && range.covers(
        TerminalPoint { row: (row - countable(screen_scrollback(screen) as int)) as i64, col },
    )
}

/// What is painted for one cell in view. The second half of a wide character
/// has no span of its own, and an empty cell is painted as a space.
pub open spec fn cell_spans(
    screen: vt100::Screen,
    selection: Option<TerminalRange>,
    row: u16,
    col: u16,
) -> Seq<SpanView> {
    match cell_in_view(screen, row, col) {
        None => seq![SpanView { content: seq![' '], style: Style::of(None, None) }],
        Some(cell) => if cell.wide_continuation {
            Seq::empty()
        } else {
            seq![
                SpanView {
                    content: if cell.text.len() > 0 {
                        cell.text
                    } else {
                        seq![' ']
                    },
                    style: style_of_cell(
                        cell,
                        screen_cursor(screen) == (row, col),
                        selected_in_view(screen, selection, row, col),
                    ),
                },
            ]
        },
    }
}

/// What is painted for the first `cols` cells of a row in view.
pub open spec fn row_spans(
    screen: vt100::Screen,
    selection: Option<TerminalRange>,
    row: u16,
    cols: nat,
) -> Seq<SpanView>
    decreases cols,
{
    if cols == 0 {
        Seq::empty()
    } else {
        row_spans(screen, selection, row, (cols - 1) as nat) + cell_spans(
            screen,
            selection,
            row,
            (cols - 1) as u16,
        )
    }
}

/// What is painted for a screen: a line for each row in view.
pub open spec fn screen_lines(screen: vt100::Screen, selection: Option<TerminalRange>) -> Seq<
    LineView,
> {
    Seq::new(
        screen_size(screen).0 as nat,
        |row: int|
            LineView {
                spans: row_spans(screen, selection, row as u16, screen_size(screen).1 as nat),
                style: Style::of(None, None),
            },
    )
}

pub fn indexed_color(index: u8) -> (color: Color)
    ensures
        color == palette(index),
{
    match index {
        0 => Color::Black,
        1 => Color::Red,
        2 => Color::Green,
        3 => Color::Yellow,
        4 => Color::Blue,
        5 => Color::Magenta,
        6 => Color::Cyan,
        7 => Color::Gray,
        8 => Color::DarkGray,
        9 => Color::LightRed,
        10 => Color::LightGreen,
        11 => Color::LightYellow,
        12 => Color::LightBlue,
        13 => Color::LightMagenta,
        14 => Color::LightCyan,
        15 => Color::White,
        value => Color::Indexed(value),
    }
}

fn color_to_paint(color: CellColor) -> (result: Option<Color>)
    ensures
        result == requested_color(color),
{
    match color {
        CellColor::Default => None,
        CellColor::Idx(index) => Some(indexed_color(index)),
        CellColor::Rgb(red, green, blue) => Some(Color::Rgb(red, green, blue)),
    }
}

fn invert_colors(foreground: &mut Option<Color>, background: &mut Option<Color>, fallback: Color)
    ensures
        (*final(foreground), *final(background)) == swapped(
            (*old(foreground), *old(background)),
            fallback,
        ),
{
    if foreground.is_none() && background.is_none() {
        *foreground = Some(Color::Black);
        *background = Some(fallback);
    } else {
        std::mem::swap(foreground, background);
    }
}

pub fn cell_style(cell: &vt100::Cell, is_cursor: bool, is_selected: bool) -> (style: Style)
    ensures
        style == style_of_cell(cell_view(*cell), is_cursor, is_selected),
{
    let mut foreground = color_to_paint(cell_foreground(cell));
    let mut background = color_to_paint(cell_background(cell));
    if cell.inverse() {
        invert_colors(&mut foreground, &mut background, Color::White);
    }
    if is_cursor {
        invert_colors(&mut foreground, &mut background, Color::LightYellow);
    }
    if is_selected {
        foreground = Some(Color::Black);
        background = Some(Color::LightBlue);
    }
    Style {
        fg: foreground,
        bg: background,
        bold: cell.bold(),
        italic: cell.italic(),
        underlined: cell.underline(),
        dim: cell.dim(),
    }
}

/// The text of one space.
fn space() -> (text: String)
    ensures
        text@ == seq![' '],
{
    let mut text = String::new();
    text.push(' ');
    assert(text@ =~= seq![' ']);
    text
}

/// The line that shows a row in view.
fn styled_row(screen: &vt100::Screen, selection: Option<TerminalRange>, row: u16) -> (line: Line)
    requires
        row < screen_size(*screen).0,
    ensures
        line@ == screen_lines(*screen, selection)[row as int],
{
    let cols: u16 = screen.size().1;
    let cursor: (u16, u16) = screen.cursor_position();
    let scrollback: i64 = count(screen.scrollback());
    let mut painted: Vec<Span> = Vec::new();
    let mut col: u16 = 0;
    assert(spans(painted@) =~= row_spans(*screen, selection, row, 0));
    while col < cols
        invariant
            col <= cols,
            cursor == screen_cursor(*screen),
            scrollback == countable(screen_scrollback(*screen) as int),
            scrollback >= 0,
            spans(painted@) == row_spans(*screen, selection, row, col as nat),
        decreases cols - col,
    {
        let ghost before = spans(painted@);
        match screen.cell(row, col) {
            None => {
                painted.push(Span { content: space(), style: Style::plain() });
                proof {
                    assert(spans(painted@) =~= before + cell_spans(*screen, selection, row, col));
                }
            },
            Some(cell) => {
                if !cell.is_wide_continuation() {
                    let content = if cell.has_contents() {
                        cell.contents().to_string()
                    } else {
                        space()
                    };
                    let selected = match selection {
                        Some(range) => range.contains(
                            TerminalPoint::new(row as i64 - scrollback, col),
                        ),
                        None => false,
                    };
                    painted.push(
                        Span {
                            content,
                            style: cell_style(
                                cell,
                                cursor.0 == row && cursor.1 == col,
                                selected,
                            ),
                        },
                    );
                }
                proof {
                    assert(spans(painted@) =~= before + cell_spans(*screen, selection, row, col));
                }
            },
        }
        col += 1;
    }
    Line { spans: painted, style: Style::plain() }
}

/// The lines that show the rows in view.
pub fn styled_screen_lines(screen: &vt100::Screen, selection: Option<TerminalRange>) -> (text: Vec<
    Line,
>)
    ensures
        lines(text@) == screen_lines(*screen, selection),
{
    let rows: u16 = screen.size().0;
    let mut text: Vec<Line> = Vec::new();
    let mut row: u16 = 0;
    while row < rows
        invariant
            row <= rows,
            rows == screen_size(*screen).0,
            lines(text@) == screen_lines(*screen, selection).take(row as int),
        decreases rows - row,
    {
        let ghost before = text@;
        let line = styled_row(screen, selection, row);
        text.push(line);
        proof {
            let all = screen_lines(*screen, selection);
            assert(lines(text@) =~= lines(before).push(line@));
            assert(all.take(row + 1) =~= all.take(row as int).push(all[row as int]));
        }
        row += 1;
    }
    assert(screen_lines(*screen, selection).take(rows as int) =~= screen_lines(*screen, selection));
    text
}

/// The borders of terminal panes.
#[derive(Debug, Clone, Copy, PartialEq, Eq, Structural)]
pub struct TerminalPaneStyle {
    pub focused_border: Color,
    pub unfocused_border: Color,
}

impl TerminalPaneStyle {
    pub open spec fn spec_default() -> TerminalPaneStyle {
        TerminalPaneStyle {
            focused_border: Color::LightYellow,
            unfocused_border: Color::Cyan,
        }
    }

    /// The colour of a border.
    pub open spec fn spec_border(self, focused: bool) -> Color {
        if focused {
            self.focused_border
        } else {
            self.unfocused_border
        }
    }

    pub fn border(self, focused: bool) -> (color: Color)
        ensures
            color == self.spec_border(focused),
    {
        if focused {
            self.focused_border
        } else {
            self.unfocused_border
        }
    }
}

impl Default for TerminalPaneStyle {
    fn default() -> (style: TerminalPaneStyle)
        ensures
            style == TerminalPaneStyle::spec_default(),
    {
        TerminalPaneStyle {
            focused_border: Color::LightYellow,
            unfocused_border: Color::Cyan,
        }
    }
}

/// What a pane holds: a screen, or words that stand in for one.
#[derive(Debug)]
pub enum PaneBody {
    Screen(Vec<Line>),
    Message { text: String, style: Style },
}

pub enum PaneBodyView {
    Screen(Seq<LineView>),
    Message { text: Seq<char>, style: Style },
}

impl View for PaneBody {
    type V = PaneBodyView;

    open spec fn view(&self) -> PaneBodyView {
        match self {
            PaneBody::Screen(text) => PaneBodyView::Screen(lines(text@)),
            PaneBody::Message { text, style } => PaneBodyView::Message {
                text: text@,
                style: *style,
            },
        }
    }
}

/// A pane as it is painted: the title in its border and what it holds.
#[derive(Debug)]
pub struct PaintedPane {
    pub title: String,
    pub border: Color,
    pub body: PaneBody,
}

pub struct PaintedPaneView {
    pub title: Seq<char>,
    pub border: Color,
    pub body: PaneBodyView,
}

impl View for PaintedPane {
    type V = PaintedPaneView;

    open spec fn view(&self) -> PaintedPaneView {
        PaintedPaneView { title: self.title@, border: self.border, body: self.body@ }
    }
}

/// Words in the colour of a warning.
pub open spec fn warning(text: Seq<char>) -> PaneBodyView {
    PaneBodyView::Message { text, style: Style::of(Some(Color::Yellow), None) }
}

/// What stands in for the panes when there is no room for them. The sessions go
/// on at their last size until there is room again.
pub fn render_compact_workbench() -> (body: PaneBody)
    ensures
        body@ == warning("workbench needs at least 6 columns × 3 rows"@),
{
    PaneBody::Message {
        text: "workbench needs at least 6 columns × 3 rows".to_owned(),
        style: Style::foreground(Color::Yellow),
    }
}

/// A pane whose backend is not running.
pub fn render_unavailable_terminal_pane(
    title: &str,
    message: &str,
    focused: bool,
    pane_style: TerminalPaneStyle,
) -> (pane: PaintedPane)
    ensures
        pane@ == (PaintedPaneView {
            title: title@,
            border: pane_style.spec_border(focused),
            body: warning(message@),
        }),
{
    PaintedPane {
        title: title.to_owned(),
        border: pane_style.border(focused),
        body: PaneBody::Message {
            text: message.to_owned(),
            style: Style::foreground(Color::Yellow),
        },
    }
}

/// A pane with the screen of its backend.
pub fn render_terminal_pane(
    screen: &vt100::Screen,
    title: &str,
    focused: bool,
    selection: Option<TerminalRange>,
    pane_style: TerminalPaneStyle,
) -> (pane: PaintedPane)
    ensures
        pane@ == (PaintedPaneView {
            title: title@,
            border: pane_style.spec_border(focused),
            body: PaneBodyView::Screen(screen_lines(*screen, selection)),
        }),
{
    PaintedPane {
        title: title.to_owned(),
        border: pane_style.border(focused),
        body: PaneBody::Screen(styled_screen_lines(screen, selection)),
    }
}

/// The text of a tab before it is fitted into its cells.
pub open spec fn full_label(display_number: nat, active: bool) -> Seq<char> {
    seq![if active { '●' } else { ' ' }] + decimal(display_number) + seq![' ', '×']
}

/// The text of a tab of the given width. The last cell closes the tab, so it
/// holds the cross whatever is cut off.
pub open spec fn label(display_number: nat, width: u16, active: bool) -> Seq<char> {
    Seq::new(
        width as nat,
        |i: int|
            if i == width - 1 {
                '×'
            } else if i < full_label(display_number, active).len() {
                full_label(display_number, active)[i]
            } else {
                ' '
            },
    )
}

pub fn tab_label(display_number: usize, width: u16, active: bool) -> (text: String)
    ensures
        text@ == label(display_number as nat, width, active),
{
    let mut raw: Vec<char> = Vec::new();
    raw.push(
        if active {
            '●'
        } else {
            ' '
        },
    );
    let mut number = chars_of(decimal_text(display_number as u64).as_str());
    raw.append(&mut number);
    raw.push(' ');
    raw.push('×');
    assert(raw@ =~= full_label(display_number as nat, active));
    let mut text = String::new();
    let mut i: u16 = 0;
    while i < width
        invariant
            i <= width,
            raw@ == full_label(display_number as nat, active),
            text@ == label(display_number as nat, width, active).take(i as int),
        decreases width - i,
    {
        let shown: char = if i == width - 1 {
            '×'
        } else if (i as usize) < raw.len() {
            raw[i as usize]
        } else {
            ' '
        };
        text.push(shown);
        i += 1;
        proof {
            let full = label(display_number as nat, width, active);
            assert(full.take(i as int) =~= full.take(i - 1).push(full[i - 1]));
        }
    }
    assert(text@ =~= label(display_number as nat, width, active));
    text
}

/// What the pane of the shells shows.
pub struct ShellTerminalPaneView<'a> {
    pub screen: Option<&'a vt100::Screen>,
    pub title: &'a str,
    pub message: Option<&'a str>,
    pub focused: bool,
    pub selection: Option<TerminalRange>,
    pub tabs: &'a ShellTabs,
    pub style: TerminalPaneStyle,
}

/// The pane of the shells as it is painted: the row of tabs, and below it, in
/// `content`, what the pane holds.
#[derive(Debug)]
pub struct PaintedShellPane {
    pub pane: PaintedPane,
    pub marks: Vec<Mark>,
    pub content: Rect,
}

/// How a tab is painted.
pub open spec fn tab_style(active: bool) -> Style {
    if active {
        Style { bold: true, ..Style::of(Some(Color::Black), Some(Color::LightCyan)) }
    } else {
        Style::of(Some(Color::Gray), None)
    }
}

/// A tab in the row of tabs.
pub open spec fn tab_mark(area: Rect, tabs: TabsView, tab: ShellTabGeometry) -> MarkView {
    MarkView {
        area: Rect::spec_new(tab.x, (area.y + 1) as u16, tab.width, 1),
        content: label(tab.display_number as nat, tab.width, tab.id == tabs.active),
        style: tab_style(tab.id == tabs.active),
    }
}

/// The row of tabs, and the plus button after them.
pub open spec fn tab_marks(area: Rect, tabs: TabsView) -> Seq<MarkView> {
    shown_row(area, tabs).map_values(|tab: ShellTabGeometry| tab_mark(area, tabs, tab)) + (
    match plus_cell(area) {
        Some((x, y)) => seq![
            MarkView {
                area: Rect::spec_new(x, y, 1, 1),
                content: seq!['+'],
                style: Style::of(Some(Color::LightGreen), None),
            },
        ],
        None => Seq::empty(),
    })
}

/// What the border and the row of tabs leave.
pub open spec fn shell_content(area: Rect) -> Rect {
    Rect::spec_new(
        sat_add(area.x, 1),
        sat_add(area.y, 2),
        sat_sub(area.width, 2),
        sat_sub(area.height, 3),
    )
}

/// The pane of the shells: a row of tabs, and the screen of the active shell or
/// a word on why there is none.
pub fn render_shell_terminal_pane(area: Rect, view: &ShellTerminalPaneView) -> (painted:
    PaintedShellPane)
    requires
        area.fits(),
    ensures
        painted.pane@ == (PaintedPaneView {
            title: view.title@,
            border: view.style.spec_border(view.focused),
            body: match (view.screen, view.message) {
                (Some(screen), _) => PaneBodyView::Screen(screen_lines(*screen, view.selection)),
                (None, Some(message)) => warning(message@),
                (None, None) => warning("unavailable"@),
            },
        }),
        marks(painted.marks@) == tab_marks(area, view.tabs@),
        painted.content == shell_content(area),
{
    let (geometry, plus) = shell_tab_geometry(area, view.tabs);
    let active_id = view.tabs.active();
    let mut placed: Vec<Mark> = Vec::new();
    let ghost tabs = view.tabs@;
    let ghost row = shown_row(area, tabs).map_values(
        |tab: ShellTabGeometry| tab_mark(area, tabs, tab),
    );
    let mut i: usize = 0;
    while i < geometry.len()
        invariant
            i <= geometry@.len(),
            geometry@ == shown_row(area, tabs),
            active_id == tabs.active,
            area.fits(),
            row == shown_row(area, tabs).map_values(
                |tab: ShellTabGeometry| tab_mark(area, tabs, tab),
            ),
            marks(placed@) == row.take(i as int),
        decreases geometry@.len() - i,
    {
        let tab = geometry[i];
        let active = tab.id == active_id;
        let style = if active {
            let mut style = Style::colored(Color::Black, Color::LightCyan);
            style.bold = true;
            style
        } else {
            Style::foreground(Color::Gray)
        };
        let mark = Mark {
            area: Rect::new(tab.x, area.y + 1, tab.width, 1),
            content: tab_label(tab.display_number, tab.width, active),
            style,
        };
        let ghost before = placed@;
        placed.push(mark);
        proof {
            assert(mark@ == row[i as int]);
            assert(marks(placed@) =~= marks(before).push(mark@));
            assert(row.take(i + 1) =~= row.take(i as int).push(row[i as int]));
        }
        i += 1;
    }
    let ghost before = placed@;
    assert(row.take(i as int) =~= row);
    match plus {
        Some((x, y)) => {
            let mut content = String::new();
            content.push('+');
            let mark = Mark {
                area: Rect::new(x, y, 1, 1),
                content,
                style: Style::foreground(Color::LightGreen),
            };
            placed.push(mark);
            proof {
                assert(mark@.content =~= seq!['+']);
                assert(marks(placed@) =~= marks(before).push(mark@));
                assert(marks(placed@) =~= tab_marks(area, tabs));
            }
        },
        None => {
            assert(marks(placed@) =~= tab_marks(area, tabs));
        },
    }
    let body = match view.screen {
        Some(screen) => PaneBody::Screen(styled_screen_lines(screen, view.selection)),
        None => PaneBody::Message {
            text: match view.message {
                Some(message) => message.to_owned(),
                None => "unavailable".to_owned(),
            },
            style: Style::foreground(Color::Yellow),
        },
    };
    PaintedShellPane {
        pane: PaintedPane {
            title: view.title.to_owned(),
            border: view.style.border(view.focused),
            body,
        },
        marks: placed,
        content: Rect::new(
            area.x.saturating_add(1),
            area.y.saturating_add(2),
            area.width.saturating_sub(2),
            area.height.saturating_sub(3),
        ),
    }
}

/// The label of a tab fills its cells, and the last one is the cross that closes
/// it.
pub proof fn tabs_end_in_a_cross(display_number: nat, width: u16, active: bool)
    requires
        width > 0,
    ensures
        label(display_number, width, active).len() == width,
        label(display_number, width, active).last() == '×',
{
}

/// A selected cell is painted in the colours of the selection, whatever colours
/// the program asked for, and keeps its emphasis.
pub proof fn selections_hide_colors(cell: CellView, is_cursor: bool)
    ensures
        style_of_cell(cell, is_cursor, true).fg == Some(Color::Black),
        style_of_cell(cell, is_cursor, true).bg == Some(Color::LightBlue),
        style_of_cell(cell, is_cursor, true).bold == style_of_cell(cell, is_cursor, false).bold,
{
}

/// Where a program asked for colours, asking for them in exchange and swapping
/// them at the cursor gives them back.
pub proof fn colors_swap_back(colors: (Option<Color>, Option<Color>), first: Color, second: Color)
    requires
        colors.0 is Some || colors.1 is Some,
    ensures
        swapped(swapped(colors, first), second) == colors,
{
}

/// What is painted for a screen has a line for each of its rows, in order, and
/// no line has more spans than the screen has columns.
pub proof fn lines_stay_in_the_screen(
    screen: vt100::Screen,
    selection: Option<TerminalRange>,
    row: int,
)
    requires
        0 <= row < screen_size(screen).0,
    ensures
        screen_lines(screen, selection).len() == screen_size(screen).0,
        screen_lines(screen, selection)[row].spans.len() <= screen_size(screen).1,
{
    lemma_spans_of_cells(screen, selection, row as u16, screen_size(screen).1 as nat);
}

proof fn lemma_spans_of_cells(
    screen: vt100::Screen,
    selection: Option<TerminalRange>,
    row: u16,
    cols: nat,
)
    ensures
        row_spans(screen, selection, row, cols).len() <= cols,
    decreases cols,
{
    if cols > 0 {
        lemma_spans_of_cells(screen, selection, row, (cols - 1) as nat);
    }
}

/// The first sixteen colours have names, in the order that terminals give them.
/// The others keep their numbers.
pub proof fn colors_have_their_places(index: u8)
    ensures
        index < 16 ==> palette(index) == seq![
            Color::Black,
            Color::Red,
            Color::Green,
            Color::Yellow,
            Color::Blue,
            Color::Magenta,
            Color::Cyan,
            Color::Gray,
            Color::DarkGray,
            Color::LightRed,
            Color::LightGreen,
            Color::LightYellow,
            Color::LightBlue,
            Color::LightMagenta,
            Color::LightCyan,
            Color::White,
        ][index as int],
        index >= 16 ==> palette(index) == Color::Indexed(index),
{
}

/// A cell has the colours that its program asked for, and the emphasis. A program
/// that wants them in exchange gets them so, and so does the cursor; where there
/// are none to exchange the cell is black on a light ground.
pub proof fn cells_have_the_colors_asked_for(cell: CellView)
    ensures
        ({
            let plain = style_of_cell(CellView { inverse: false, ..cell }, false, false);
            let inverse = style_of_cell(CellView { inverse: true, ..cell }, false, false);
            let cursor = style_of_cell(CellView { inverse: false, ..cell }, true, false);
            let colored = plain.fg is Some || plain.bg is Some;
            &&& plain.fg is None <==> cell.fg is Default
            &&& plain.bg is None <==> cell.bg is Default
            &&& cell.fg matches CellColor::Rgb(r, g, b) ==> plain.fg == Some(Color::Rgb(r, g, b))
            &&& cell.bg matches CellColor::Rgb(r, g, b) ==> plain.bg == Some(Color::Rgb(r, g, b))
            &&& cell.fg matches CellColor::Idx(i) ==> plain.fg == Some(palette(i))
            &&& cell.bg matches CellColor::Idx(i) ==> plain.bg == Some(palette(i))
            &&& colored ==> inverse.fg == plain.bg && inverse.bg == plain.fg
            &&& colored ==> cursor.fg == plain.bg && cursor.bg == plain.fg
            &&& !colored ==> inverse.fg == Some(Color::Black) && inverse.bg == Some(Color::White)
            &&& !colored ==> cursor.fg == Some(Color::Black) && cursor.bg == Some(
                Color::LightYellow,
            )
            &&& plain.bold == cell.bold && plain.italic == cell.italic && plain.dim == cell.dim
            &&& plain.underlined == cell.underline
        }),
{
}

/// A cell that is selected is painted as such, and a selection changes nothing
/// else. The places of a selection count from the screen at its end, so a view
/// that is scrolled back by some rows shows places as many rows earlier.
pub proof fn selected_cells_are_painted_as_such(
    screen: vt100::Screen,
    range: TerminalRange,
    row: u16,
    col: u16,
)
    requires
        cell_in_view(screen, row, col) matches Some(cell) && !cell.wide_continuation,
        screen_scrollback(screen) <= 1_000_000,
    ensures
        ({
            let place = TerminalPoint { row: (row - screen_scrollback(screen)) as i64, col };
            let with = cell_spans(screen, Some(range), row, col);
            let without = cell_spans(screen, None, row, col);
            &&& place.row == row - screen_scrollback(screen)
            &&& with.len() == 1
            &&& range.covers(place) ==> with[0].style.bg == Some(Color::LightBlue)
                && with[0].style.fg == Some(Color::Black) && with[0].content == without[0].content
            &&& !range.covers(place) ==> with == without
        }),
{
}

/// The text of a line is that of its cells from left to right: the spans of one
/// more cell follow those of the cells before it. A cell without text is a
/// space, and the second half of a wide character is not painted.
pub proof fn lines_are_painted_from_left_to_right(
    screen: vt100::Screen,
    selection: Option<TerminalRange>,
    row: u16,
    col: u16,
)
    ensures
        ({
            let before = row_spans(screen, selection, row, col as nat);
            let after = row_spans(screen, selection, row, (col + 1) as nat);
            match cell_in_view(screen, row, col) {
                Some(cell) => if cell.wide_continuation {
                    after == before
                } else {
                    &&& after.len() == before.len() + 1
                    &&& after.drop_last() == before
                    &&& after.last().content == if cell.text.len() > 0 {
                        cell.text
                    } else {
                        seq![' ']
                    }
                },
                None => {
                    &&& after.drop_last() == before
                    &&& after.last().content == seq![' ']
                },
            }
        }),
{
    let before = row_spans(screen, selection, row, col as nat);
    let own = cell_spans(screen, selection, row, col);
    assert(before + Seq::empty() =~= before);
    if own.len() == 1 {
        assert((before + own).drop_last() =~= before);
    }
}

/// A tab shows its number after one cell, which is marked where the tab is
/// active, and is in the row below the border.
pub proof fn tabs_show_their_numbers(area: Rect, tabs: TabsView, tab: ShellTabGeometry, i: int)
    requires
        area.fits(),
        area.height > 2,
        0 <= i < decimal(tab.display_number as nat).len(),
        i + 2 < tab.width,
    ensures
        ({
            let mark = tab_mark(area, tabs, tab);
            &&& mark.content.len() == tab.width
            &&& mark.content[1 + i] == decimal(tab.display_number as nat)[i]
            &&& mark.content[0] == '●' <==> tab.id == tabs.active
            &&& mark.area.y == area.y + 1
            &&& mark.area.x == tab.x
            &&& mark.style.bold <==> tab.id == tabs.active
        }),
{
}

/// The shell has what is inside the border and below the row of tabs.
pub proof fn shells_are_below_their_tabs(area: Rect)
    requires
        area.fits(),
        area.width > 2,
        area.height > 3,
    ensures
        shell_content(area).x == area.x + 1,
        shell_content(area).y == area.y + 2,
        shell_content(area).x + shell_content(area).width == area.x + area.width - 1,
        shell_content(area).y + shell_content(area).height == area.y + area.height - 1,
{
}

} // verus!
