//! Colours, styles and styled text: what a pane is painted with.

use vstd::prelude::*;

use crate::geometry::Rect;

verus! {

#[derive(Debug, Clone, Copy, PartialEq, Eq, Structural)]
pub enum Color {
    Reset,
    Black,
    Red,
    Green,
    Yellow,
    Blue,
    Magenta,
    Cyan,
    Gray,
    DarkGray,
    LightRed,
    LightGreen,
    LightYellow,
    LightBlue,
    LightMagenta,
    LightCyan,
    White,
    Rgb(u8, u8, u8),
    Indexed(u8),
}

/// How text is painted. Where a colour is missing, the one below shows.
#[derive(Debug, Clone, Copy, PartialEq, Eq, Structural)]
pub struct Style {
    pub fg: Option<Color>,
    pub bg: Option<Color>,
    pub bold: bool,
    pub italic: bool,
    pub underlined: bool,
    pub dim: bool,
}

impl Style {
    /// The style with the given colours and no emphasis.
    pub open spec fn of(fg: Option<Color>, bg: Option<Color>) -> Style {
        Style { fg, bg, bold: false, italic: false, underlined: false, dim: false }
    }

    /// The style that changes nothing.
    pub fn plain() -> (style: Style)
        ensures
            style == Style::of(None, None),
    {
        Style { fg: None, bg: None, bold: false, italic: false, underlined: false, dim: false }
    }

    /// The style with the given foreground alone.
    pub fn foreground(color: Color) -> (style: Style)
        ensures
            style == Style::of(Some(color), None),
    {
        Style {
            fg: Some(color),
            bg: None,
            bold: false,
            italic: false,
            underlined: false,
            dim: false,
        }
    }

    /// The style with both colours.
    pub fn colored(fg: Color, bg: Color) -> (style: Style)
        ensures
            style == Style::of(Some(fg), Some(bg)),
    {
        Style {
            fg: Some(fg),
            bg: Some(bg),
            bold: false,
            italic: false,
            underlined: false,
            dim: false,
        }
    }
}

/// A piece of text in one style.
#[derive(Debug)]
pub struct Span {
    pub content: String,
    pub style: Style,
}

/// The text of a span and its style.
pub struct SpanView {
    pub content: Seq<char>,
    pub style: Style,
}

impl View for Span {
    type V = SpanView;

    open spec fn view(&self) -> SpanView {
        SpanView { content: self.content@, style: self.style }
    }
}

/// What the spans of a line show.
pub open spec fn spans(line: Seq<Span>) -> Seq<SpanView> {
    line.map_values(|span: Span| span@)
}

/// A line of text. Its own style lies below those of its spans.
#[derive(Debug)]
pub struct Line {
    pub spans: Vec<Span>,
    pub style: Style,
}

#[verifier::ext_equal]
pub struct LineView {
    pub spans: Seq<SpanView>,
    pub style: Style,
}

impl View for Line {
    type V = LineView;

    open spec fn view(&self) -> LineView {
        LineView { spans: spans(self.spans@), style: self.style }
    }
}

/// What lines show.
pub open spec fn lines(text: Seq<Line>) -> Seq<LineView> {
    text.map_values(|line: Line| line@)
}

/// A text at a place of the screen.
#[derive(Debug)]
pub struct Mark {
    pub area: Rect,
    pub content: String,
    pub style: Style,
}

pub struct MarkView {
    pub area: Rect,
    pub content: Seq<char>,
    pub style: Style,
}

impl View for Mark {
    type V = MarkView;

    open spec fn view(&self) -> MarkView {
        MarkView { area: self.area, content: self.content@, style: self.style }
    }
}

/// What marks show.
pub open spec fn marks(placed: Seq<Mark>) -> Seq<MarkView> {
    placed.map_values(|mark: Mark| mark@)
}

} // verus!
