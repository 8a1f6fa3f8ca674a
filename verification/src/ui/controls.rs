//! The marks that show where panes are collapsed and restored.

use vstd::prelude::*;

use crate::geometry::{sat_add, sat_sub, Rect};
use crate::ui::style::{marks, Color, Mark, MarkView, Style};
use crate::workbench::hit_test::{handle_cell, LayoutHandle};
use crate::workbench::layout::WorkbenchLayout;

verus! {

/// An arrow in one cell.
pub open spec fn arrow(x: u16, y: u16, symbol: char) -> MarkView {
    MarkView {
        area: Rect::spec_new(x, y, 1, 1),
        content: seq![symbol],
        style: Style::of(Some(Color::DarkGray), None),
    }
}

/// Each arrow points to where its pane goes: out of view while the pane is
/// shown, into view while it is hidden.
pub open spec fn control_marks(layout: WorkbenchLayout) -> Seq<MarkView> {
    if layout.compact {
        Seq::empty()
    } else {
        seq![
            arrow(
                layout.editor.x,
                layout.editor.y,
                if layout.sidebar.width > 0 {
                    '◀'
                } else {
                    '▶'
                },
            ),
            arrow(
                sat_add(layout.editor.x, (layout.editor.width / 2) as u16),
                if layout.bottom.height > 0 {
                    layout.bottom.y
                } else {
                    sat_sub(layout.editor.spec_bottom(), 1)
                },
                if layout.bottom.height > 0 {
                    '▼'
                } else {
                    '▲'
                },
            ),
        ]
    }
}

fn arrow_mark(x: u16, y: u16, symbol: char) -> (mark: Mark)
    ensures
        mark@ == arrow(x, y, symbol),
{
    let mut content = String::new();
    content.push(symbol);
    assert(content@ =~= seq![symbol]);
    Mark { area: Rect::new(x, y, 1, 1), content, style: Style::foreground(Color::DarkGray) }
}

/// The arrows on the borders of the panes. There are none while there is no room
/// for the panes.
pub fn render_layout_controls(layout: WorkbenchLayout) -> (placed: Vec<Mark>)
    ensures
        marks(placed@) == control_marks(layout),
{
    let mut placed: Vec<Mark> = Vec::new();
    if !layout.compact {
        placed.push(
            arrow_mark(
                layout.editor.x,
                layout.editor.y,
                if layout.sidebar.width > 0 {
                    '◀'
                } else {
                    '▶'
                },
            ),
        );
        let bottom_y: u16 = if layout.bottom.height > 0 {
            layout.bottom.y
        } else {
            layout.editor.bottom().saturating_sub(1)
        };
        placed.push(
            arrow_mark(
                layout.editor.x.saturating_add(layout.editor.width / 2),
                bottom_y,
                if layout.bottom.height > 0 {
                    '▼'
                } else {
                    '▲'
                },
            ),
        );
    }
    assert(marks(placed@) =~= control_marks(layout));
    placed
}

/// The arrow that restores a hidden pane is painted in the cell that is pressed
/// to restore it.
pub proof fn hidden_panes_are_restored_at_their_arrow(layout: WorkbenchLayout)
    requires
        !layout.compact,
    ensures
        layout.sidebar.width == 0 ==> control_marks(layout)[0] == ({
            let cell = handle_cell(layout, LayoutHandle::Sidebar);
            arrow(cell.0, cell.1, '▶')
        }),
        layout.bottom.height == 0 ==> control_marks(layout)[1] == ({
            let cell = handle_cell(layout, LayoutHandle::Bottom);
            arrow(cell.0, cell.1, '▲')
        }),
{
}

/// There are two arrows, on the edges where the panes meet: at the left edge of
/// the editor and in the middle of its lower edge. Each points out of view while
/// its pane is shown, and into view while it is hidden.
pub proof fn arrows_point_where_panes_go(layout: WorkbenchLayout)
    requires
        !layout.compact,
        layout.editor.fits(),
        layout.editor.height > 0,
    ensures
        ({
            let arrows = control_marks(layout);
            &&& arrows.len() == 2
            &&& arrows[0].area == Rect::spec_new(layout.editor.x, layout.editor.y, 1, 1)
            &&& arrows[0].content == if layout.sidebar.width > 0 {
                seq!['◀']
            } else {
                seq!['▶']
            }
            &&& arrows[1].area.x == layout.editor.x + layout.editor.width / 2
            &&& arrows[1].area.y == if layout.bottom.height > 0 {
                layout.bottom.y as int
            } else {
                layout.editor.y + layout.editor.height - 1
            }
            &&& arrows[1].content == if layout.bottom.height > 0 {
                seq!['▼']
            } else {
                seq!['▲']
            }
        }),
{
}

} // verus!
