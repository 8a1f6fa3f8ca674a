//! How the viewport is divided among the panes.

use crate::geometry::{
    clamp, clamp_u16, larger, max_u16, min_u16, sat_add, sat_sub, smaller, Rect,
};
use vstd::prelude::*;

verus! {

/// A bordered terminal needs one content cell in each direction.
pub const MIN_TERMINAL_WIDTH: u16 = 4;

pub const MIN_TERMINAL_HEIGHT: u16 = 4;

/// Bordered Shell plus one tab-strip row and two parser-safe content rows.
pub const MIN_SHELL_PANE_HEIGHT: u16 = 5;

/// Viewports with fewer columns have no sidebar.
pub const SIDEBAR_BREAKPOINT: u16 = 104;

/// Viewports with fewer rows have no bottom pane.
pub const BOTTOM_BREAKPOINT: u16 = 24;

#[derive(Debug, Clone, Copy, PartialEq, Eq, Structural)]
pub struct WorkbenchLayoutConfig {
    pub sidebar_width: u16,
    /// Explicit Nvim pane width after a manual divider drag. `None` keeps the
    /// default responsive 55/45 split.
    pub editor_width: Option<u16>,
    pub bottom_height: u16,
}

impl Default for WorkbenchLayoutConfig {
    fn default() -> (config: WorkbenchLayoutConfig)
        ensures
            config == WorkbenchLayoutConfig::spec_default(),
    {
        WorkbenchLayoutConfig { sidebar_width: 24, editor_width: None, bottom_height: 12 }
    }
}

impl WorkbenchLayoutConfig {
    pub open spec fn spec_default() -> WorkbenchLayoutConfig {
        WorkbenchLayoutConfig { sidebar_width: 24, editor_width: None, bottom_height: 12 }
    }

    /// The narrowest viewport with a sidebar: the editor and the agent come first
    /// below the breakpoint, and a wide sidebar needs room for two terminals.
    pub open spec fn spec_sidebar_shortage_width(self) -> u16 {
        max_u16(sat_add(self.sidebar_width, 8), SIDEBAR_BREAKPOINT)
    }

    /// The lowest viewport with a bottom pane: the editor and the agent come first
    /// below the breakpoint, and a high bottom pane needs room for a terminal.
    pub open spec fn spec_bottom_shortage_height(self) -> u16 {
        max_u16(sat_add(self.bottom_height, MIN_TERMINAL_HEIGHT), BOTTOM_BREAKPOINT)
    }

    pub fn sidebar_shortage_width(self) -> (width: u16)
        ensures
            width == self.spec_sidebar_shortage_width(),
    {
        larger(self.sidebar_width.saturating_add(2 * MIN_TERMINAL_WIDTH), SIDEBAR_BREAKPOINT)
    }

    pub fn bottom_shortage_height(self) -> (height: u16)
        ensures
            height == self.spec_bottom_shortage_height(),
    {
        larger(self.bottom_height.saturating_add(MIN_TERMINAL_HEIGHT), BOTTOM_BREAKPOINT)
    }
}

#[derive(Debug, Clone, Copy, PartialEq, Eq, Structural)]
pub struct WorkbenchVisibility {
    pub sidebar: bool,
    pub bottom: bool,
}

impl Default for WorkbenchVisibility {
    fn default() -> (visibility: WorkbenchVisibility)
        ensures
            visibility.sidebar && visibility.bottom,
    {
        WorkbenchVisibility { sidebar: true, bottom: true }
    }
}

#[derive(Debug, Clone, Copy, PartialEq, Eq, Structural)]
pub struct WorkbenchLayout {
    pub sidebar: Rect,
    pub editor: Rect,
    pub agent: Rect,
    pub bottom: Rect,
    /// True when even two bordered terminals cannot be represented safely.
    pub compact: bool,
}

/// Columns of the sidebar.
pub open spec fn sidebar_columns(
    area: Rect,
    config: WorkbenchLayoutConfig,
    visibility: WorkbenchVisibility,
) -> u16 {
    if visibility.sidebar {
        min_u16(config.sidebar_width, area.width)
    } else {
        0
    }
}

/// Columns left for the editor and the agent.
pub open spec fn main_columns(
    area: Rect,
    config: WorkbenchLayoutConfig,
    visibility: WorkbenchVisibility,
) -> u16 {
    (area.width - sidebar_columns(area, config, visibility)) as u16
}

/// Whether the viewport cannot hold two bordered terminals side by side.
pub open spec fn too_small(
    area: Rect,
    config: WorkbenchLayoutConfig,
    visibility: WorkbenchVisibility,
) -> bool {
    ||| main_columns(area, config, visibility) < 2 * MIN_TERMINAL_WIDTH
    ||| area.height < MIN_TERMINAL_HEIGHT
}

/// Columns of the editor out of `main` columns: the width that was dragged, or
/// 55 % of `main` to the nearest cell, as far as both terminals keep their
/// minimum.
pub open spec fn editor_columns(main: u16, dragged: Option<u16>) -> u16 {
    let wanted: u16 = match dragged {
        Some(width) => width,
        None => ((main * 55 + 50) / 100) as u16,
    };
    clamp_u16(wanted, MIN_TERMINAL_WIDTH, sat_sub(main, MIN_TERMINAL_WIDTH))
}

/// Rows of the bottom pane: none, or at least those that a shell needs, as far
/// as the editor above keeps its minimum.
pub open spec fn bottom_rows(
    area: Rect,
    config: WorkbenchLayoutConfig,
    visibility: WorkbenchVisibility,
) -> u16 {
    if visibility.bottom && area.height >= MIN_TERMINAL_HEIGHT + MIN_SHELL_PANE_HEIGHT {
        clamp_u16(
            config.bottom_height,
            MIN_SHELL_PANE_HEIGHT,
            sat_sub(area.height, MIN_TERMINAL_HEIGHT),
        )
    } else {
        0
    }
}

impl WorkbenchLayout {
    pub open spec fn spec_compact() -> WorkbenchLayout {
        WorkbenchLayout {
            sidebar: Rect::spec_empty(),
            editor: Rect::spec_empty(),
            agent: Rect::spec_empty(),
            bottom: Rect::spec_empty(),
            compact: true,
        }
    }

    /// The division of `area`: the sidebar at the left over the full height,
    /// the agent at the right over the full height, the editor between them
    /// and the bottom pane below the editor.
    pub open spec fn solved(
        area: Rect,
        config: WorkbenchLayoutConfig,
        visibility: WorkbenchVisibility,
    ) -> WorkbenchLayout {
        if too_small(area, config, visibility) {
            WorkbenchLayout::spec_compact()
        } else {
            let sidebar_width = sidebar_columns(area, config, visibility);
            let main_width = main_columns(area, config, visibility);
            let editor_width = editor_columns(main_width, config.editor_width);
            let bottom_height = bottom_rows(area, config, visibility);
            let editor_height = (area.height - bottom_height) as u16;
            let main_x = sat_add(area.x, sidebar_width);
            WorkbenchLayout {
                sidebar: if visibility.sidebar {
                    Rect::spec_new(area.x, area.y, sidebar_width, area.height)
                } else {
                    Rect::spec_empty()
                },
                editor: Rect::spec_new(main_x, area.y, editor_width, editor_height),
                agent: Rect::spec_new(
                    sat_add(main_x, editor_width),
                    area.y,
                    (main_width - editor_width) as u16,
                    area.height,
                ),
                bottom: if bottom_height > 0 {
                    Rect::spec_new(
                        main_x,
                        sat_add(area.y, editor_height),
                        editor_width,
                        bottom_height,
                    )
                } else {
                    Rect::spec_empty()
                },
                compact: false,
            }
        }
    }

    /// The division with both secondary panes visible.
    pub fn calculate(area: Rect, config: WorkbenchLayoutConfig) -> (layout: WorkbenchLayout)
        ensures
            layout == WorkbenchLayout::solved(
                area,
                config,
                (WorkbenchVisibility { sidebar: true, bottom: true }),
            ),
    {
        WorkbenchLayout::calculate_visible(area, config, WorkbenchVisibility::default())
    }

    pub fn calculate_visible(
        area: Rect,
        config: WorkbenchLayoutConfig,
        visibility: WorkbenchVisibility,
    ) -> (layout: WorkbenchLayout)
        ensures
            layout == WorkbenchLayout::solved(area, config, visibility),
    {
        let sidebar_width: u16 = if visibility.sidebar {
            smaller(config.sidebar_width, area.width)
        } else {
            0
        };
        let main_width: u16 = area.width.saturating_sub(sidebar_width);
        if main_width < 2 * MIN_TERMINAL_WIDTH || area.height < MIN_TERMINAL_HEIGHT {
            return WorkbenchLayout {
                sidebar: Rect::default(),
                editor: Rect::default(),
                agent: Rect::default(),
                bottom: Rect::default(),
                compact: true,
            };
        }
        // Round the default split to the nearest cell and give any remainder
        // to the agent. A manually dragged divider stores an exact cell width.

        let default_editor_width: u16 = ((main_width as u32 * 55 + 50) / 100) as u16;
        let wanted_width: u16 = match config.editor_width {
            Some(width) => width,
            None => default_editor_width,
        };
        let editor_width: u16 = clamp(
            wanted_width,
            MIN_TERMINAL_WIDTH,
            main_width.saturating_sub(MIN_TERMINAL_WIDTH),
        );
        let agent_width: u16 = main_width - editor_width;
        let main_x: u16 = area.x.saturating_add(sidebar_width);

        let bottom_height: u16 = if visibility.bottom && area.height >= MIN_TERMINAL_HEIGHT
            + MIN_SHELL_PANE_HEIGHT {
            clamp(
                config.bottom_height,
                MIN_SHELL_PANE_HEIGHT,
                area.height.saturating_sub(MIN_TERMINAL_HEIGHT),
            )
        } else {
            0
        };
        let editor_height: u16 = area.height - bottom_height;

        WorkbenchLayout {
            sidebar: if visibility.sidebar {
                Rect::new(area.x, area.y, sidebar_width, area.height)
            } else {
                Rect::default()
            },
            editor: Rect::new(main_x, area.y, editor_width, editor_height),
            agent: Rect::new(
                main_x.saturating_add(editor_width),
                area.y,
                agent_width,
                area.height,
            ),
            bottom: if visibility.bottom && bottom_height >= MIN_SHELL_PANE_HEIGHT {
                Rect::new(
                    main_x,
                    area.y.saturating_add(editor_height),
                    editor_width,
                    bottom_height,
                )
            } else {
                Rect::default()
            },
            compact: false,
        }
    }
}

/// Every pane lies in the viewport.
pub proof fn panes_are_contained(
    area: Rect,
    config: WorkbenchLayoutConfig,
    visibility: WorkbenchVisibility,
)
    requires
        area.fits(),
    ensures
        ({
            let layout = WorkbenchLayout::solved(area, config, visibility);
            &&& area.encloses(layout.sidebar)
            &&& area.encloses(layout.editor)
            &&& area.encloses(layout.agent)
            &&& area.encloses(layout.bottom)
        }),
{
}

/// No two panes share a cell.
pub proof fn panes_are_disjoint(
    area: Rect,
    config: WorkbenchLayoutConfig,
    visibility: WorkbenchVisibility,
)
    requires
        area.fits(),
    ensures
        ({
            let layout = WorkbenchLayout::solved(area, config, visibility);
            &&& layout.sidebar.disjoint(layout.editor)
            &&& layout.sidebar.disjoint(layout.agent)
            &&& layout.sidebar.disjoint(layout.bottom)
            &&& layout.editor.disjoint(layout.agent)
            &&& layout.editor.disjoint(layout.bottom)
            &&& layout.agent.disjoint(layout.bottom)
        }),
{
}

/// Unless the layout is compact, every cell of the viewport is in a pane.
pub proof fn panes_fill_the_viewport(
    area: Rect,
    config: WorkbenchLayoutConfig,
    visibility: WorkbenchVisibility,
    column: int,
    row: int,
)
    requires
        area.fits(),
        area.has_cell(column, row),
        !too_small(area, config, visibility),
    ensures
        ({
            let layout = WorkbenchLayout::solved(area, config, visibility);
            ||| layout.sidebar.has_cell(column, row)
            ||| layout.editor.has_cell(column, row)
            ||| layout.agent.has_cell(column, row)
            ||| layout.bottom.has_cell(column, row)
        }),
{
}

/// A terminal pane that is shown at all has room for a bordered terminal, and
/// the bottom pane for a bordered shell with its tab row.
pub proof fn visible_terminals_have_room(
    area: Rect,
    config: WorkbenchLayoutConfig,
    visibility: WorkbenchVisibility,
)
    requires
        area.fits(),
    ensures
        ({
            let layout = WorkbenchLayout::solved(area, config, visibility);
            &&& !layout.compact ==> {
                &&& layout.editor.width >= MIN_TERMINAL_WIDTH
                &&& layout.editor.height >= MIN_TERMINAL_HEIGHT
                &&& layout.agent.width >= MIN_TERMINAL_WIDTH
                &&& layout.agent.height >= MIN_TERMINAL_HEIGHT
            }
            &&& layout.compact ==> layout == WorkbenchLayout::spec_compact()
            &&& layout.bottom != Rect::spec_empty() ==> {
                &&& layout.bottom.width >= MIN_TERMINAL_WIDTH
                &&& layout.bottom.height >= MIN_SHELL_PANE_HEIGHT
            }
        }),
{
}

/// A dragged divider stays where it was put as long as both terminals beside
/// it keep their minimum width.
pub proof fn dragged_editor_width_is_exact(
    area: Rect,
    config: WorkbenchLayoutConfig,
    visibility: WorkbenchVisibility,
    width: u16,
)
    requires
        area.fits(),
        config.editor_width == Some(width),
        MIN_TERMINAL_WIDTH <= width,
        width + MIN_TERMINAL_WIDTH <= main_columns(area, config, visibility),
        area.height >= MIN_TERMINAL_HEIGHT,
    ensures
        WorkbenchLayout::solved(area, config, visibility).editor.width == width,
{
}

/// Without a dragged divider the editor has 55 % of the columns beside the
/// sidebar, to within half a cell.
pub proof fn default_split_is_55_45(
    area: Rect,
    config: WorkbenchLayoutConfig,
    visibility: WorkbenchVisibility,
)
    requires
        area.fits(),
        config.editor_width is None,
        !too_small(area, config, visibility),
    ensures
        ({
            let layout = WorkbenchLayout::solved(area, config, visibility);
            let main = layout.editor.width + layout.agent.width;
            &&& main == main_columns(area, config, visibility)
            &&& -50 < layout.editor.width * 100 - main * 55 <= 50
        }),
{
}

/// The sidebar is at the left and the agent at the right, both over the full
/// height; the editor is between them, and the bottom pane below the editor and
/// as wide. Each begins where the one before it ends.
pub proof fn panes_have_their_places(
    area: Rect,
    config: WorkbenchLayoutConfig,
    visibility: WorkbenchVisibility,
)
    requires
        area.fits(),
        !WorkbenchLayout::solved(area, config, visibility).compact,
    ensures
        ({
            let layout = WorkbenchLayout::solved(area, config, visibility);
            &&& visibility.sidebar ==> {
                &&& layout.sidebar.x == area.x
                &&& layout.sidebar.y == area.y
                &&& layout.sidebar.height == area.height
                &&& layout.sidebar.width == config.sidebar_width
                &&& layout.editor.x == area.x + layout.sidebar.width
            }
            &&& !visibility.sidebar ==> layout.sidebar.width == 0 && layout.editor.x == area.x
            &&& layout.editor.y == area.y
            &&& layout.agent.x == layout.editor.x + layout.editor.width
            &&& layout.agent.y == area.y
            &&& layout.agent.height == area.height
            &&& layout.agent.x + layout.agent.width == area.x + area.width
            &&& layout.bottom.height == 0 ==> layout.editor.height == area.height
            &&& layout.bottom.height > 0 ==> {
                &&& layout.bottom.x == layout.editor.x
                &&& layout.bottom.width == layout.editor.width
                &&& layout.bottom.y == area.y + layout.editor.height
                &&& layout.bottom.y + layout.bottom.height == area.y + area.height
            }
        }),
{
}

/// The bottom pane is shown when it is asked for and fits, as high as it is
/// meant to be where the editor above keeps its minimum.
pub proof fn bottom_panes_are_as_high_as_meant(
    area: Rect,
    config: WorkbenchLayoutConfig,
    visibility: WorkbenchVisibility,
)
    requires
        area.fits(),
        !WorkbenchLayout::solved(area, config, visibility).compact,
    ensures
        ({
            let layout = WorkbenchLayout::solved(area, config, visibility);
            let fits = area.height >= MIN_TERMINAL_HEIGHT + MIN_SHELL_PANE_HEIGHT;
            &&& layout.bottom.height > 0 <==> visibility.bottom && fits
            &&& visibility.bottom && config.bottom_height >= MIN_SHELL_PANE_HEIGHT
                && config.bottom_height + MIN_TERMINAL_HEIGHT <= area.height ==> layout.bottom.height
                == config.bottom_height
            &&& visibility.bottom && fits && config.bottom_height + MIN_TERMINAL_HEIGHT
                > area.height ==> layout.editor.height == MIN_TERMINAL_HEIGHT
            &&& visibility.bottom && fits && config.bottom_height < MIN_SHELL_PANE_HEIGHT
                ==> layout.bottom.height == MIN_SHELL_PANE_HEIGHT
        }),
{
}

/// A layout is compact if and only if two terminals do not fit beside the
/// sidebar, or none fits in the height.
pub proof fn layouts_need_room_for_two_terminals(
    area: Rect,
    config: WorkbenchLayoutConfig,
    visibility: WorkbenchVisibility,
)
    requires
        area.fits(),
    ensures
        WorkbenchLayout::solved(area, config, visibility).compact <==> area.height
            < MIN_TERMINAL_HEIGHT || area.width < 2 * MIN_TERMINAL_WIDTH + if visibility.sidebar {
            config.sidebar_width as int
        } else {
            0
        },
{
}

} // verus!
