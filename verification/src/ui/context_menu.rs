//! The menu that opens over a pane, to copy and to paste.

use vstd::prelude::*;

use crate::geometry::{larger, max_u16, min_u16, sat_sub, smaller, Rect};
use crate::ui::style::{lines, Color, Line, LineView, Span, SpanView, Style};

verus! {

pub const MENU_WIDTH: u16 = 12;

pub const MENU_HEIGHT: u16 = 4;

#[derive(Debug, Clone, Copy, PartialEq, Eq, Structural)]
pub enum ContextMenuAction {
    Copy,
    Paste,
}

/// An open menu. Only the commands that can be given are offered.
#[derive(Debug, Clone, Copy, PartialEq, Eq, Structural)]
pub struct ContextMenu {
    pub area: Rect,
    pub copy_enabled: bool,
    pub hovered: Option<ContextMenuAction>,
}

/// Where a menu opens that is asked for at a cell: there, or as near to it as
/// the viewport allows.
pub open spec fn menu_area(viewport: Rect, column: u16, row: u16) -> Rect {
    let width = min_u16(MENU_WIDTH, viewport.width);
    let height = min_u16(MENU_HEIGHT, viewport.height);
    Rect::spec_new(
        max_u16(min_u16(column, sat_sub(viewport.spec_right(), width)), viewport.x),
        max_u16(min_u16(row, sat_sub(viewport.spec_bottom(), height)), viewport.y),
        width,
        height,
    )
}

impl ContextMenu {
    /// Whether a cell lies inside the border.
    pub open spec fn holds(self, column: u16, row: u16) -> bool {
        &&& self.area.x < column < sat_sub(self.area.spec_right(), 1)
        &&& self.area.y < row < sat_sub(self.area.spec_bottom(), 1)
    }

    /// The command in a cell: copying in the first row, pasting in the second.
    pub open spec fn command(self, column: u16, row: u16) -> Option<ContextMenuAction> {
        if !self.holds(column, row) {
            None
        } else if row == self.area.y + 1 {
            Some(ContextMenuAction::Copy)
        } else if row == self.area.y + 2 {
            Some(ContextMenuAction::Paste)
        } else {
            None
        }
    }

    /// The command in a cell, if it can be given.
    pub open spec fn action(self, column: u16, row: u16) -> Option<ContextMenuAction> {
        if self.command(column, row) == Some(ContextMenuAction::Copy) && !self.copy_enabled {
            None
        } else {
            self.command(column, row)
        }
    }

    pub fn new(viewport: Rect, column: u16, row: u16, copy_enabled: bool) -> (menu: ContextMenu)
        ensures
            menu == (ContextMenu {
                area: menu_area(viewport, column, row),
                copy_enabled,
                hovered: None,
            }),
    {
        let width: u16 = smaller(MENU_WIDTH, viewport.width);
        let height: u16 = smaller(MENU_HEIGHT, viewport.height);
        let max_x: u16 = viewport.right().saturating_sub(width);
        let max_y: u16 = viewport.bottom().saturating_sub(height);
        ContextMenu {
            area: Rect::new(
                larger(smaller(column, max_x), viewport.x),
                larger(smaller(row, max_y), viewport.y),
                width,
                height,
            ),
            copy_enabled,
            hovered: None,
        }
    }

    pub fn update_hover(&mut self, column: u16, row: u16)
        ensures
            *final(self) == (ContextMenu { hovered: old(self).action(column, row), ..*old(self) }),
    {
        self.hovered = self.enabled_action_at(column, row);
    }

    pub fn action_at(self, column: u16, row: u16) -> (action: Option<ContextMenuAction>)
        ensures
            action == self.action(column, row),
    {
        self.enabled_action_at(column, row)
    }

    fn enabled_action_at(self, column: u16, row: u16) -> (action: Option<ContextMenuAction>)
        ensures
            action == self.action(column, row),
    {
        match self.command_at(column, row) {
            Some(ContextMenuAction::Copy) => if self.copy_enabled {
                Some(ContextMenuAction::Copy)
            } else {
                None
            },
            other => other,
        }
    }

    fn command_at(self, column: u16, row: u16) -> (action: Option<ContextMenuAction>)
        ensures
            action == self.command(column, row),
    {
        if column <= self.area.x || column >= self.area.right().saturating_sub(1) || row
            <= self.area.y || row >= self.area.bottom().saturating_sub(1) {
            return None;
        }
        match row - self.area.y - 1 {
            0 => Some(ContextMenuAction::Copy),
            1 => Some(ContextMenuAction::Paste),
            _ => None,
        }
    }

    pub fn area(self) -> (area: Rect)
        ensures
            area == self.area,
    {
        self.area
    }

    pub fn hovered(self) -> (action: Option<ContextMenuAction>)
        ensures
            action == self.hovered,
    {
        self.hovered
    }
}

/// The colour behind the commands.
pub open spec fn menu_background() -> Color {
    Color::Rgb(38, 38, 40)
}

/// How a command is painted.
pub open spec fn item_style(hovered: bool, enabled: bool) -> Style {
    if hovered && enabled {
        Style { bold: true, ..Style::of(Some(Color::Black), Some(Color::White)) }
    } else if enabled {
        Style::of(Some(Color::White), Some(menu_background()))
    } else {
        Style::of(Some(Color::DarkGray), Some(menu_background()))
    }
}

pub fn menu_item_style(hovered: bool, enabled: bool) -> (style: Style)
    ensures
        style == item_style(hovered, enabled),
{
    if hovered && enabled {
        let mut style = Style::colored(Color::Black, Color::White);
        style.bold = true;
        style
    } else if enabled {
        Style::colored(Color::White, Color::Rgb(38, 38, 40))
    } else {
        Style::colored(Color::DarkGray, Color::Rgb(38, 38, 40))
    }
}

/// A menu as it is painted, over a clear area: a border, and a line for each
/// command.
#[derive(Debug)]
pub struct PaintedMenu {
    pub area: Rect,
    pub border: Color,
    pub style: Style,
    pub lines: Vec<Line>,
}

/// A line of one piece of text, in the style of the line.
pub open spec fn menu_line(text: Seq<char>, style: Style) -> LineView {
    LineView { spans: seq![SpanView { content: text, style: Style::of(None, None) }], style }
}

/// The lines of a menu.
pub open spec fn menu_lines(menu: ContextMenu) -> Seq<LineView> {
    seq![
        menu_line(
            " Copy     "@,
            item_style(menu.hovered == Some(ContextMenuAction::Copy), menu.copy_enabled),
        ),
        menu_line(
            " Paste    "@,
            item_style(menu.hovered == Some(ContextMenuAction::Paste), true),
        ),
    ]
}

fn item_line(text: &str, style: Style) -> (line: Line)
    ensures
        line@ == menu_line(text@, style),
{
    let mut spans: Vec<Span> = Vec::new();
    spans.push(Span { content: text.to_owned(), style: Style::plain() });
    let line = Line { spans, style };
    assert(line@.spans =~= menu_line(text@, style).spans);
    line
}

pub fn render_context_menu(menu: ContextMenu) -> (painted: PaintedMenu)
    ensures
        painted.area == menu.area,
        painted.border == Color::DarkGray,
        painted.style == Style::of(None, Some(menu_background())),
        lines(painted.lines@) == menu_lines(menu),
{
    let copy = menu_item_style(
        match menu.hovered {
            Some(ContextMenuAction::Copy) => true,
            _ => false,
        },
        menu.copy_enabled,
    );
    let paste = menu_item_style(
        match menu.hovered {
            Some(ContextMenuAction::Paste) => true,
            _ => false,
        },
        true,
    );
    let mut text: Vec<Line> = Vec::new();
    text.push(item_line(" Copy     ", copy));
    text.push(item_line(" Paste    ", paste));
    assert(lines(text@) =~= menu_lines(menu));
    let mut style = Style::plain();
    style.bg = Some(Color::Rgb(38, 38, 40));
    PaintedMenu { area: menu.area, border: Color::DarkGray, style, lines: text }
}

/// A menu lies inside the viewport that it opens in, and is no larger
/// than its commands and its border.
pub proof fn menus_stay_in_the_viewport(viewport: Rect, column: u16, row: u16)
    requires
        viewport.fits(),
    ensures
        viewport.x <= menu_area(viewport, column, row).x,
        viewport.y <= menu_area(viewport, column, row).y,
        menu_area(viewport, column, row).spec_right() <= viewport.spec_right(),
        menu_area(viewport, column, row).spec_bottom() <= viewport.spec_bottom(),
        menu_area(viewport, column, row).width <= MENU_WIDTH,
        menu_area(viewport, column, row).height <= MENU_HEIGHT,
{
}

/// The size of a menu does not depend on what can be copied, and pasting is
/// offered in the same cells whether or not copying is.
pub proof fn disabled_copies_move_nothing(menu: ContextMenu, column: u16, row: u16)
    ensures
        ({
            let disabled = ContextMenu { copy_enabled: false, ..menu };
            let enabled = ContextMenu { copy_enabled: true, ..menu };
            &&& disabled.action(column, row) == Some(ContextMenuAction::Paste) <==> enabled.action(
                column,
                row,
            ) == Some(ContextMenuAction::Paste)
            &&& disabled.action(column, row) != Some(ContextMenuAction::Copy)
        }),
{
}

/// What is hovered is what a press in the same cell gives.
pub proof fn hovers_announce_the_action(menu: ContextMenu, column: u16, row: u16)
    ensures
        ({
            let hovered = ContextMenu { hovered: menu.action(column, row), ..menu };
            hovered.hovered == hovered.action(column, row)
        }),
{
}

/// A menu opens with its corner at the pointer where there is room, and moves no
/// further from it than it must elsewhere.
pub proof fn menus_open_at_the_pointer(viewport: Rect, column: u16, row: u16)
    requires
        viewport.fits(),
        viewport.has_cell(column as int, row as int),
        viewport.width >= MENU_WIDTH,
        viewport.height >= MENU_HEIGHT,
    ensures
        ({
            let area = menu_area(viewport, column, row);
            &&& area.width == MENU_WIDTH && area.height == MENU_HEIGHT
            &&& column + MENU_WIDTH <= viewport.x + viewport.width ==> area.x == column
            &&& column + MENU_WIDTH > viewport.x + viewport.width ==> area.x + area.width
                == viewport.x + viewport.width
            &&& row + MENU_HEIGHT <= viewport.y + viewport.height ==> area.y == row
            &&& row + MENU_HEIGHT > viewport.y + viewport.height ==> area.y + area.height
                == viewport.y + viewport.height
        }),
{
}

/// A menu is as large as its commands and the border round them.
pub proof fn menus_fit_their_commands(menu: ContextMenu, i: int)
    requires
        0 <= i < menu_lines(menu).len(),
    ensures
        menu_lines(menu).len() + 2 == MENU_HEIGHT,
        menu_lines(menu)[i].spans.len() == 1,
        menu_lines(menu)[i].spans[0].content.len() + 2 == MENU_WIDTH,
{
    reveal_strlit(" Copy     ");
    reveal_strlit(" Paste    ");
}

/// Inside the border the first row copies, if there is something to copy, and
/// the second pastes. The border does nothing.
pub proof fn commands_stand_in_their_rows(menu: ContextMenu, column: u16, row: u16)
    requires
        menu.area.fits(),
        menu.area.width == MENU_WIDTH,
        menu.area.height == MENU_HEIGHT,
    ensures
        ({
            let inside = menu.area.x < column < menu.area.x + menu.area.width - 1;
            &&& menu.action(column, row) == Some(ContextMenuAction::Copy) <==> inside
                && menu.copy_enabled && row == menu.area.y + 1
            &&& menu.action(column, row) == Some(ContextMenuAction::Paste) <==> inside && row
                == menu.area.y + 2
        }),
{
}

/// Of the commands that can be given, the one under the pointer stands out, and
/// no other. A command that cannot be given never does.
pub proof fn hovered_commands_stand_out(menu: ContextMenu)
    ensures
        ({
            let lines = menu_lines(menu);
            &&& menu.hovered == Some(ContextMenuAction::Copy) && menu.copy_enabled
                <==> lines[0].style.bold
            &&& menu.hovered == Some(ContextMenuAction::Paste) <==> lines[1].style.bold
            &&& item_style(true, false) == item_style(false, false)
            &&& item_style(false, false) != item_style(false, true)
        }),
{
}

} // verus!
