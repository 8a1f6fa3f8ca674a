//! What the sidebar looks like.

use vstd::prelude::*;
use vstd::string::*;

use crate::text::{text_view, utf8_lossy};
use crate::ui::style::{lines, spans, Color, Line, LineView, Span, SpanView, Style};
use crate::workspace::git::GitStatus;
use crate::workspace::rows::{row_views, RowView, SidebarRow};
use crate::workspace::tree::EntryKind;

verus! {

/// The borders of the sidebar.
#[derive(Debug, Clone, Copy, PartialEq, Eq, Structural)]
pub struct SidebarStyle {
    pub focused_border: Color,
    pub unfocused_border: Color,
}

impl SidebarStyle {
    pub open spec fn spec_default() -> SidebarStyle {
        SidebarStyle { focused_border: Color::LightYellow, unfocused_border: Color::DarkGray }
    }
}

impl Default for SidebarStyle {
    fn default() -> (style: SidebarStyle)
        ensures
            style == SidebarStyle::spec_default(),
    {
        SidebarStyle { focused_border: Color::LightYellow, unfocused_border: Color::DarkGray }
    }
}

/// The sidebar as it is painted.
#[derive(Debug)]
pub struct PaintedSidebar {
    pub title: String,
    pub border: Color,
    pub lines: Vec<Line>,
}

pub struct PaintedSidebarView {
    pub title: Seq<char>,
    pub border: Color,
    pub lines: Seq<LineView>,
}

impl View for PaintedSidebar {
    type V = PaintedSidebarView;

    open spec fn view(&self) -> PaintedSidebarView {
        PaintedSidebarView {
            title: self.title@,
            border: self.border,
            lines: lines(self.lines@),
        }
    }
}

/// Two columns for each directory that leads to a row.
pub open spec fn indent(depth: nat) -> Seq<char> {
    Seq::new(2 * depth, |i: int| ' ')
}

/// What stands before the name of a row.
pub open spec fn marker_of(row: RowView) -> Seq<char> {
    if row.loading {
        "… "@
    } else if row.kind.directory() {
        if row.expanded {
            "▾ "@
        } else {
            "▸ "@
        }
    } else if row.error is Some {
        "! "@
    } else {
        "  "@
    }
}

pub open spec fn color_of_marker(row: RowView) -> Color {
    if row.error is Some {
        Color::LightRed
    } else if row.loading {
        Color::Yellow
    } else if row.kind.directory() {
        Color::LightBlue
    } else {
        Color::DarkGray
    }
}

/// What tells links and other files apart.
pub open spec fn mark_of_kind(kind: EntryKind) -> Option<Seq<char>> {
    match kind {
        EntryKind::SymlinkDirectory | EntryKind::Symlink => Some(" @"@),
        EntryKind::Deleted => Some(" ×"@),
        EntryKind::Other => Some(" ?"@),
        EntryKind::Directory | EntryKind::File => None,
    }
}

/// The letter of a status.
pub open spec fn letter(status: GitStatus) -> char {
    match status {
        GitStatus::Modified => 'M',
        GitStatus::Added => 'A',
        GitStatus::Deleted => 'D',
        GitStatus::Renamed => 'R',
        GitStatus::Conflict => 'U',
        GitStatus::Untracked => '?',
    }
}

/// The colour of a status.
pub open spec fn color_of_status(status: Option<GitStatus>) -> Color {
    match status {
        Some(GitStatus::Modified) | Some(GitStatus::Renamed) => Color::Yellow,
        Some(GitStatus::Added) | Some(GitStatus::Untracked) => Color::Green,
        Some(GitStatus::Deleted) | Some(GitStatus::Conflict) => Color::LightRed,
        None => Color::Reset,
    }
}

pub open spec fn span(content: Seq<char>, fg: Option<Color>) -> SpanView {
    SpanView { content, style: Style::of(fg, None) }
}

/// What every row shows: its depth, its marker and its name.
pub open spec fn name_spans(row: RowView) -> Seq<SpanView> {
    seq![
        span(indent(row.depth), None),
        span(marker_of(row), Some(color_of_marker(row))),
        span(utf8_lossy(row.name), None),
    ]
}

pub open spec fn kind_spans(row: RowView) -> Seq<SpanView> {
    match mark_of_kind(row.kind) {
        Some(mark) => seq![span(mark, Some(Color::DarkGray))],
        None => Seq::empty(),
    }
}

pub open spec fn error_spans(row: RowView) -> Seq<SpanView> {
    match row.error {
        Some(error) => seq![span(" ! "@ + error, Some(Color::LightRed))],
        None => Seq::empty(),
    }
}

/// The status of the row itself, or else a star for changes below it.
pub open spec fn git_spans(row: RowView) -> Seq<SpanView> {
    match row.git.status {
        Some(status) => seq![
            span(seq![' ', letter(status)], Some(color_of_status(Some(status)))),
        ],
        None => if row.git.dirty_descendant {
            seq![span(" *"@, Some(Color::Yellow))]
        } else {
            Seq::empty()
        },
    }
}

/// The line of a row.
pub open spec fn line_of(row: RowView) -> LineView {
    LineView {
        spans: name_spans(row) + kind_spans(row) + error_spans(row) + git_spans(row),
        style: if row.selected {
            Style { bold: true, ..Style::of(None, Some(Color::DarkGray)) }
        } else {
            Style::of(None, None)
        },
    }
}

/// The lines of the sidebar. An error is spelled out where there is nothing else
/// to show.
pub open spec fn sidebar_lines(rows: Seq<RowView>, error: Option<Seq<char>>) -> Seq<LineView> {
    match error {
        Some(error) => if rows.len() == 0 {
            seq![
                LineView {
                    spans: seq![span("! "@ + error, None)],
                    style: Style::of(Some(Color::LightRed), None),
                },
            ]
        } else {
            rows.map_values(|row: RowView| line_of(row))
        },
        None => rows.map_values(|row: RowView| line_of(row)),
    }
}

/// The sidebar: a line for each row, and a mark in the title where something
/// went wrong.
pub open spec fn painted_sidebar(
    rows: Seq<RowView>,
    error: Option<Seq<char>>,
    focused: bool,
    style: SidebarStyle,
) -> PaintedSidebarView {
    PaintedSidebarView {
        title: if error is Some {
            "  sidebar !"@
        } else {
            "  sidebar"@
        },
        border: if focused {
            style.focused_border
        } else {
            style.unfocused_border
        },
        lines: sidebar_lines(rows, error),
    }
}

/// `head` followed by `tail`.
fn text_after(head: &str, tail: &str) -> (text: String)
    ensures
        text@ == head@ + tail@,
{
    let mut text = head.to_owned();
    text.append(tail);
    text
}

fn indentation(depth: usize) -> (text: String)
    ensures
        text@ == indent(depth as nat),
{
    let mut text = String::new();
    let mut i: usize = 0;
    while i < depth
        invariant
            i <= depth,
            text@ == indent(i as nat),
        decreases depth - i,
    {
        text.push(' ');
        text.push(' ');
        i += 1;
        assert(text@ =~= indent(i as nat));
    }
    text
}

pub fn row_marker(row: &SidebarRow) -> (marker: String)
    ensures
        marker@ == marker_of(row@),
{
    if row.loading {
        "… ".to_owned()
    } else if row.kind.is_directory() {
        if row.expanded {
            "▾ ".to_owned()
        } else {
            "▸ ".to_owned()
        }
    } else if row.error.is_some() {
        "! ".to_owned()
    } else {
        "  ".to_owned()
    }
}

pub fn kind_marker(kind: EntryKind) -> (marker: Option<String>)
    ensures
        marker is Some <==> mark_of_kind(kind) is Some,
        marker matches Some(text) ==> Some(text@) == mark_of_kind(kind),
{
    match kind {
        EntryKind::SymlinkDirectory | EntryKind::Symlink => Some(" @".to_owned()),
        EntryKind::Deleted => Some(" ×".to_owned()),
        EntryKind::Other => Some(" ?".to_owned()),
        EntryKind::Directory | EntryKind::File => None,
    }
}

pub fn git_marker(status: Option<GitStatus>) -> (marker: Option<char>)
    ensures
        marker == (match status {
            Some(status) => Some(letter(status)),
            None => None,
        }),
{
    match status {
        Some(GitStatus::Modified) => Some('M'),
        Some(GitStatus::Added) => Some('A'),
        Some(GitStatus::Deleted) => Some('D'),
        Some(GitStatus::Renamed) => Some('R'),
        Some(GitStatus::Conflict) => Some('U'),
        Some(GitStatus::Untracked) => Some('?'),
        None => None,
    }
}

pub fn marker_color(row: &SidebarRow) -> (color: Color)
    ensures
        color == color_of_marker(row@),
{
    if row.error.is_some() {
        Color::LightRed
    } else if row.loading {
        Color::Yellow
    } else if row.kind.is_directory() {
        Color::LightBlue
    } else {
        Color::DarkGray
    }
}

pub fn git_color(status: Option<GitStatus>) -> (color: Color)
    ensures
        color == color_of_status(status),
{
    match status {
        Some(GitStatus::Modified) | Some(GitStatus::Renamed) => Color::Yellow,
        Some(GitStatus::Added) | Some(GitStatus::Untracked) => Color::Green,
        Some(GitStatus::Deleted) | Some(GitStatus::Conflict) => Color::LightRed,
        None => Color::Reset,
    }
}

pub fn sidebar_line(row: &SidebarRow) -> (line: Line)
    ensures
        line@ == line_of(row@),
{
    let mut text: Vec<Span> = Vec::new();
    text.push(Span { content: indentation(row.depth), style: Style::plain() });
    text.push(Span { content: row_marker(row), style: Style::foreground(marker_color(row)) });
    text.push(Span { content: row.display_name(), style: Style::plain() });
    assert(spans(text@) =~= name_spans(row@));
    match kind_marker(row.kind) {
        Some(kind) => {
            text.push(Span { content: kind, style: Style::foreground(Color::DarkGray) });
        },
        None => {},
    }
    assert(spans(text@) =~= name_spans(row@) + kind_spans(row@));
    match &row.error {
        Some(error) => {
            text.push(
                Span {
                    content: text_after(" ! ", error.as_str()),
                    style: Style::foreground(Color::LightRed),
                },
            );
        },
        None => {},
    }
    assert(spans(text@) =~= name_spans(row@) + kind_spans(row@) + error_spans(row@));
    match git_marker(row.git.status) {
        Some(marker) => {
            let mut content = String::new();
            content.push(' ');
            content.push(marker);
            assert(content@ =~= seq![' ', marker]);
            text.push(Span { content, style: Style::foreground(git_color(row.git.status)) });
        },
        None => {
            if row.git.dirty_descendant {
                text.push(
                    Span { content: " *".to_owned(), style: Style::foreground(Color::Yellow) },
                );
            }
        },
    }
    assert(spans(text@) =~= line_of(row@).spans);
    let mut style = Style::plain();
    if row.selected {
        style.bg = Some(Color::DarkGray);
        style.bold = true;
    }
    Line { spans: text, style }
}

pub fn render_sidebar(
    rows: &[SidebarRow],
    error: Option<&str>,
    focused: bool,
    style: SidebarStyle,
) -> (painted: PaintedSidebar)
    ensures
        painted@ == painted_sidebar(row_views(rows@), text_view(error), focused, style),
{
    let mut text: Vec<Line> = Vec::new();
    let mut i: usize = 0;
    let ghost all = row_views(rows@).map_values(|row: RowView| line_of(row));
    while i < rows.len()
        invariant
            i <= rows@.len(),
            all == row_views(rows@).map_values(|row: RowView| line_of(row)),
            lines(text@) == all.take(i as int),
        decreases rows@.len() - i,
    {
        let line = sidebar_line(&rows[i]);
        let ghost before = text@;
        text.push(line);
        proof {
            assert(lines(text@) =~= lines(before).push(line@));
            assert(all.take(i + 1) =~= all.take(i as int).push(all[i as int]));
        }
        i += 1;
    }
    assert(all.take(i as int) =~= all);
    match error {
        Some(error) => {
            if rows.len() == 0 {
                let mut spelled: Vec<Span> = Vec::new();
                spelled.push(Span { content: text_after("! ", error), style: Style::plain() });
                assert(spans(spelled@) =~= seq![span("! "@ + error@, None)]);
                text.push(Line { spans: spelled, style: Style::foreground(Color::LightRed) });
                assert(lines(text@) =~= sidebar_lines(row_views(rows@), Some(error@)));
            }
        },
        None => {},
    }
    PaintedSidebar {
        title: match error {
            Some(_) => "  sidebar !".to_owned(),
            None => "  sidebar".to_owned(),
        },
        border: if focused {
            style.focused_border
        } else {
            style.unfocused_border
        },
        lines: text,
    }
}

/// The letters tell the statuses apart.
pub proof fn letters_tell_statuses_apart(left: GitStatus, right: GitStatus)
    requires
        letter(left) == letter(right),
    ensures
        left == right,
{
}

/// There is a line for each row, in the order of the rows, whatever went wrong.
pub proof fn rows_have_their_lines(rows: Seq<RowView>, error: Option<Seq<char>>, i: int)
    requires
        0 <= i < rows.len(),
    ensures
        sidebar_lines(rows, error).len() == rows.len(),
        sidebar_lines(rows, error)[i] == line_of(rows[i]),
{
}

/// A line shows its row: two cells for each directory above it, a mark, the name,
/// and at the end the letter of its status, or a star where only something below
/// it has changed.
pub proof fn lines_show_their_rows(row: RowView)
    ensures
        ({
            let spans = line_of(row).spans;
            let letter = match row.git.status {
                Some(GitStatus::Modified) => 'M',
                Some(GitStatus::Added) => 'A',
                Some(GitStatus::Deleted) => 'D',
                Some(GitStatus::Renamed) => 'R',
                Some(GitStatus::Conflict) => 'U',
                Some(GitStatus::Untracked) => '?',
                None => '*',
            };
            &&& spans.len() >= 3
            &&& spans[0].content.len() == 2 * row.depth
            &&& forall|i: int| 0 <= i < 2 * row.depth ==> spans[0].content[i] == ' '
            &&& spans[1].content.len() == 2
            &&& spans[2].content == utf8_lossy(row.name)
            &&& row.git.status is Some || row.git.dirty_descendant ==> spans.last().content == seq![
                ' ',
                letter,
            ]
            &&& row.git.status is None && !row.git.dirty_descendant && row.error is None
                && row.kind is File ==> spans.len() == 3
            &&& row.error matches Some(error) ==> exists|i: int|
                3 <= i < spans.len() && (#[trigger] spans[i]).content == seq![' ', '!', ' '] + error
        }),
{
    reveal_strlit(" *");
    assert(" *"@ =~= seq![' ', '*']);
    reveal_strlit(" ! ");
    assert(" ! "@ =~= seq![' ', '!', ' ']);
    reveal_strlit("… ");
    reveal_strlit("▾ ");
    reveal_strlit("▸ ");
    reveal_strlit("! ");
    reveal_strlit("  ");
    let spans = line_of(row).spans;
    if row.error is Some {
        let at = 3 + kind_spans(row).len();
        assert(spans[at as int] == error_spans(row)[0]);
    }
}

/// The mark of a row tells an open directory from a closed one, one that is being
/// read from both, and a file that something is wrong with from one that is well.
pub proof fn marks_tell_rows_apart(row: RowView)
    ensures
        ({
            let mark = |row: RowView| line_of(row).spans[1].content[0];
            &&& row.loading ==> mark(row) == '…'
            &&& !row.loading && row.kind.directory() ==> mark(row) == if row.expanded {
                '▾'
            } else {
                '▸'
            }
            &&& !row.loading && !row.kind.directory() ==> mark(row) == if row.error is Some {
                '!'
            } else {
                ' '
            }
        }),
{
    reveal_strlit("… ");
    reveal_strlit("▾ ");
    reveal_strlit("▸ ");
    reveal_strlit("! ");
    reveal_strlit("  ");
}

/// The selected row stands out, and no other does.
pub proof fn selected_rows_stand_out(row: RowView)
    ensures
        line_of(row).style.bold <==> row.selected,
        line_of(row).style.bg == if row.selected {
            Some(Color::DarkGray)
        } else {
            None
        },
        line_of(RowView { selected: true, ..row }).spans == line_of(
            RowView { selected: false, ..row },
        ).spans,
{
}

} // verus!
