//! What the workbench looks like.

use vstd::prelude::*;
use vstd::string::*;

use crate::app::command::LaunchMode;
use crate::app::machine::RuntimeView;
use crate::app::runtime::AppRuntime;
use crate::app::title::{session_title_with_handle, title_with_handle};
use crate::geometry::Rect;
use crate::terminal::selection::TerminalRange;
use crate::text::text_view;
use crate::time::Instant;
use crate::ui::controls::{control_marks, render_layout_controls};
use crate::ui::sidebar::{
    painted_sidebar, render_sidebar, PaintedSidebar, PaintedSidebarView, SidebarStyle,
};
use crate::ui::style::{marks, Mark, MarkView};
use crate::ui::terminal::{
    render_compact_workbench, render_terminal_pane, render_unavailable_terminal_pane, screen_lines,
    warning, PaintedPane, PaintedPaneView, PaneBody, PaneBodyView, TerminalPaneStyle,
};
use crate::workbench::layout::{WorkbenchLayout, MIN_TERMINAL_HEIGHT, MIN_TERMINAL_WIDTH};
use crate::workbench::pane::PaneId;
use crate::workspace::rows::{row_views, RowView, SidebarRow};

verus! {

/// A pane at its place.
#[derive(Debug)]
pub struct PlacedPane {
    pub pane: PaneId,
    pub area: Rect,
    pub painted: PaintedPane,
}

pub struct PlacedPaneView {
    pub pane: PaneId,
    pub area: Rect,
    pub painted: PaintedPaneView,
}

impl View for PlacedPane {
    type V = PlacedPaneView;

    open spec fn view(&self) -> PlacedPaneView {
        PlacedPaneView { pane: self.pane, area: self.area, painted: self.painted@ }
    }
}

/// What is to be painted, in this order: words in place of everything, the
/// sidebar, the panes, and the marks above them.
#[derive(Debug)]
pub struct Picture {
    pub notice: Option<PaneBody>,
    pub sidebar: Option<(Rect, PaintedSidebar)>,
    pub panes: Vec<PlacedPane>,
    pub controls: Vec<Mark>,
}

#[verifier::ext_equal]
pub struct PictureView {
    pub notice: Option<PaneBodyView>,
    pub sidebar: Option<(Rect, PaintedSidebarView)>,
    pub panes: Seq<PlacedPaneView>,
    pub controls: Seq<MarkView>,
}

/// What panes show.
pub open spec fn pane_views(panes: Seq<PlacedPane>) -> Seq<PlacedPaneView> {
    panes.map_values(|pane: PlacedPane| pane@)
}

impl View for Picture {
    type V = PictureView;

    open spec fn view(&self) -> PictureView {
        PictureView {
            notice: match self.notice {
                Some(notice) => Some(notice@),
                None => None,
            },
            sidebar: match self.sidebar {
                Some((area, painted)) => Some((area, painted@)),
                None => None,
            },
            panes: pane_views(self.panes@),
            controls: marks(self.controls@),
        }
    }
}

/// Whether a terminal can be shown in the area.
pub open spec fn roomy(area: Rect) -> bool {
    area.width >= MIN_TERMINAL_WIDTH && area.height >= MIN_TERMINAL_HEIGHT
}

impl PictureView {
    /// A picture of nothing.
    pub open spec fn blank() -> PictureView {
        PictureView {
            notice: None,
            sidebar: None,
            panes: Seq::empty(),
            controls: Seq::empty(),
        }
    }
}

impl RuntimeView {
    /// Whether the title of a pane leaves room for a handle.
    pub open spec fn has_title_handle(self, pane: PaneId) -> bool {
        &&& self.mode == LaunchMode::Workbench
        &&& pane == PaneId::Bottom
        &&& self.layout matches Some(layout)
        &&& layout.bottom.height > 0
    }

    /// What a pane says of a backend that is not running.
    pub open spec fn absence(self, pane: PaneId, now: Instant) -> Seq<char> {
        match self.sessions.status_text(pane, now, self.mode == LaunchMode::Workbench) {
            Some(status) => status,
            None => "unavailable"@,
        }
    }

    /// The name of the backend of a pane.
    pub open spec fn backend_name(self, pane: PaneId) -> Seq<char> {
        if self.sessions.slots.dom().contains(pane) {
            self.sessions.slots[pane].process.display_name
        } else {
            "backend"@
        }
    }

    /// A pane: the screen of its backend under the status of the workbench, or
    /// what keeps the backend from running.
    pub open spec fn painted_slot(
        self,
        pane: PaneId,
        area: Rect,
        focused: bool,
        selection: Option<TerminalRange>,
        now: Instant,
    ) -> PlacedPaneView {
        let border = TerminalPaneStyle::spec_default().spec_border(focused);
        let handle = self.has_title_handle(pane);
        PlacedPaneView {
            pane,
            area,
            painted: match self.sessions.session(pane) {
                Some(session) => PaintedPaneView {
                    title: title_with_handle(session.name, self.status, area.width, handle),
                    border,
                    body: PaneBodyView::Screen(screen_lines(session.shown(), selection)),
                },
                None => PaintedPaneView {
                    title: title_with_handle(
                        self.backend_name(pane),
                        Some(self.absence(pane, now)),
                        area.width,
                        handle,
                    ),
                    border,
                    body: warning(self.absence(pane, now)),
                },
            },
        }
    }

    /// What is selected in a pane.
    pub open spec fn selected_in(self, pane: PaneId) -> Option<TerminalRange> {
        match self.workbench.selection {
            Some(selection) => if selection.pane == pane {
                Some(selection.spec_range())
            } else {
                None
            },
            None => None,
        }
    }

    /// A pane of the workbench, if there is room for it.
    pub open spec fn painted_pane(self, pane: PaneId, area: Rect, now: Instant) -> Seq<
        PlacedPaneView,
    > {
        if roomy(area) {
            seq![
                self.painted_slot(
                    pane,
                    area,
                    self.workbench.focused == pane,
                    self.selected_in(pane),
                    now,
                ),
            ]
        } else {
            Seq::empty()
        }
    }

    /// The workbench in a layout.
    pub open spec fn painted_workbench(
        self,
        layout: WorkbenchLayout,
        rows: Seq<RowView>,
        error: Option<Seq<char>>,
        now: Instant,
    ) -> PictureView {
        if layout.compact {
            PictureView {
                notice: Some(warning("workbench needs at least 6 columns × 3 rows"@)),
                ..PictureView::blank()
            }
        } else {
            PictureView {
                notice: None,
                sidebar: if layout.sidebar.width > 0 && layout.sidebar.height > 0 {
                    Some(
                        (
                            layout.sidebar,
                            painted_sidebar(
                                rows,
                                error,
                                self.workbench.focused == PaneId::Sidebar,
                                SidebarStyle::spec_default(),
                            ),
                        ),
                    )
                } else {
                    None
                },
                panes: self.painted_pane(PaneId::Editor, layout.editor, now) + self.painted_pane(
                    PaneId::Agent,
                    layout.agent,
                    now,
                ) + self.painted_pane(PaneId::Bottom, layout.bottom, now),
                controls: control_marks(layout),
            }
        }
    }

    /// The workbench, or the one pane of a single session, which fills the area.
    pub open spec fn picture(
        self,
        area: Rect,
        rows: Seq<RowView>,
        error: Option<Seq<char>>,
        now: Instant,
    ) -> PictureView {
        if self.mode == LaunchMode::Workbench {
            match self.layout {
                Some(layout) => self.painted_workbench(layout, rows, error, now),
                None => PictureView::blank(),
            }
        } else {
            PictureView {
                panes: seq![self.painted_slot(PaneId::Editor, area, true, None, now)],
                ..PictureView::blank()
            }
        }
    }
}

impl AppRuntime {
    /// What is to be painted in the area. The rows and the error are those of
    /// the sidebar.
    pub fn render(&self, area: Rect, rows: &[SidebarRow], error: Option<&str>, now: Instant) -> (
        picture: Picture)
        ensures
            picture@ == self@.picture(area, row_views(rows@), text_view(error), now),
    {
        if self.launch_mode.is_workbench() {
            self.render_workbench(rows, error, now)
        } else {
            let mut panes: Vec<PlacedPane> = Vec::new();
            panes.push(self.render_slot(PaneId::Editor, area, true, None, now));
            let picture = Picture { notice: None, sidebar: None, panes, controls: Vec::new() };
            assert(picture@ =~= self@.picture(area, row_views(rows@), text_view(error), now));
            picture
        }
    }

    fn render_workbench(&self, rows: &[SidebarRow], error: Option<&str>, now: Instant) -> (picture:
        Picture)
        ensures
            picture@ == (match self@.layout {
                Some(layout) => self@.painted_workbench(
                    layout,
                    row_views(rows@),
                    text_view(error),
                    now,
                ),
                None => PictureView::blank(),
            }),
    {
        let layout = match self.layout {
            Some(layout) => layout,
            None => {
                let picture = Picture {
                    notice: None,
                    sidebar: None,
                    panes: Vec::new(),
                    controls: Vec::new(),
                };
                assert(picture@ =~= PictureView::blank());
                return picture;
            },
        };
        if layout.compact {
            let picture = Picture {
                notice: Some(render_compact_workbench()),
                sidebar: None,
                panes: Vec::new(),
                controls: Vec::new(),
            };
            assert(picture@ =~= self@.painted_workbench(
                layout,
                row_views(rows@),
                text_view(error),
                now,
            ));
            return picture;
        }
        let sidebar = if layout.sidebar.width > 0 && layout.sidebar.height > 0 {
            Some(
                (
                    layout.sidebar,
                    render_sidebar(
                        rows,
                        error,
                        self.workbench.is_focused(PaneId::Sidebar),
                        SidebarStyle::default(),
                    ),
                ),
            )
        } else {
            None
        };
        let mut panes: Vec<PlacedPane> = Vec::new();
        self.render_pane(PaneId::Editor, layout.editor, now, &mut panes);
        self.render_pane(PaneId::Agent, layout.agent, now, &mut panes);
        self.render_pane(PaneId::Bottom, layout.bottom, now, &mut panes);
        let picture = Picture {
            notice: None,
            sidebar,
            panes,
            controls: render_layout_controls(layout),
        };
        assert(picture@ =~= self@.painted_workbench(
            layout,
            row_views(rows@),
            text_view(error),
            now,
        ));
        picture
    }

    /// Adds a pane, if there is room for it.
    fn render_pane(&self, pane: PaneId, area: Rect, now: Instant, panes: &mut Vec<PlacedPane>)
        ensures
            pane_views(final(panes)@) == pane_views(old(panes)@) + self@.painted_pane(
                pane,
                area,
                now,
            ),
    {
        let ghost before = panes@;
        if area.width >= MIN_TERMINAL_WIDTH && area.height >= MIN_TERMINAL_HEIGHT {
            panes.push(
                self.render_slot(
                    pane,
                    area,
                    self.workbench.is_focused(pane),
                    self.workbench.selection_range(pane),
                    now,
                ),
            );
        }
        assert(pane_views(panes@) =~= pane_views(before) + self@.painted_pane(pane, area, now));
    }

    fn render_slot(
        &self,
        pane: PaneId,
        area: Rect,
        focused: bool,
        selection: Option<TerminalRange>,
        now: Instant,
    ) -> (placed: PlacedPane)
        ensures
            placed@ == self@.painted_slot(pane, area, focused, selection, now),
    {
        let title_handle = self.launch_mode.is_workbench() && pane == PaneId::Bottom && (
        match self.layout {
            Some(layout) => layout.bottom.height > 0,
            None => false,
        });
        match self.sessions.get(pane) {
            Some(session) => {
                let status = match &self.status {
                    Some(status) => Some(status.as_str()),
                    None => None,
                };
                let title = session_title_with_handle(
                    session.display_name(),
                    status,
                    area.width,
                    title_handle,
                );
                PlacedPane {
                    pane,
                    area,
                    painted: render_terminal_pane(
                        session.screen(),
                        title.as_str(),
                        focused,
                        selection,
                        TerminalPaneStyle::default(),
                    ),
                }
            },
            None => {
                let status = match self.sessions.status(
                    pane,
                    now,
                    self.launch_mode.is_workbench(),
                ) {
                    Some(status) => status,
                    None => "unavailable".to_owned(),
                };
                let name = match self.sessions.display_name(pane) {
                    Some(name) => name,
                    None => "backend",
                };
                let title = session_title_with_handle(
                    name,
                    Some(status.as_str()),
                    area.width,
                    title_handle,
                );
                PlacedPane {
                    pane,
                    area,
                    painted: render_unavailable_terminal_pane(
                        title.as_str(),
                        status.as_str(),
                        focused,
                        TerminalPaneStyle::default(),
                    ),
                }
            },
        }
    }
}

/// While there is no room for the panes, nothing of a terminal is shown.
pub proof fn compact_workbenches_show_no_terminal(
    runtime: RuntimeView,
    area: Rect,
    rows: Seq<RowView>,
    error: Option<Seq<char>>,
    now: Instant,
)
    requires
        runtime.mode == LaunchMode::Workbench,
        runtime.layout matches Some(layout) && layout.compact,
    ensures
        runtime.picture(area, rows, error, now).notice is Some,
        runtime.picture(area, rows, error, now).panes.len() == 0,
        runtime.picture(area, rows, error, now).sidebar is None,
{
}

/// At most one pane has the border of the focus.
pub proof fn one_border_shows_the_focus(
    runtime: RuntimeView,
    area: Rect,
    rows: Seq<RowView>,
    error: Option<Seq<char>>,
    now: Instant,
    i: int,
    j: int,
)
    requires
        ({
            let picture = runtime.picture(area, rows, error, now);
            let focus = TerminalPaneStyle::spec_default().focused_border;
            &&& 0 <= i < picture.panes.len()
            &&& 0 <= j < picture.panes.len()
            &&& picture.panes[i].painted.border == focus
            &&& picture.panes[j].painted.border == focus
        }),
    ensures
        i == j,
{
    if runtime.mode == LaunchMode::Workbench {
        match runtime.layout {
            Some(layout) => {
                let editor = runtime.painted_pane(PaneId::Editor, layout.editor, now);
                let agent = runtime.painted_pane(PaneId::Agent, layout.agent, now);
                let bottom = runtime.painted_pane(PaneId::Bottom, layout.bottom, now);
                let all = editor + agent + bottom;
                assert(forall|k: int|
                    0 <= k < all.len() ==> all[k] == (if k < editor.len() {
                        editor[k]
                    } else if k < editor.len() + agent.len() {
                        agent[k - editor.len()]
                    } else {
                        bottom[k - editor.len() - agent.len()]
                    }));
            },
            None => {},
        }
    }
}

/// A workbench shows every terminal that has room, in its place, with the border
/// of the focus where it has it: the screen of its backend, with what is selected
/// in that pane and no other, or why there is none.
pub proof fn workbenches_show_every_pane(
    runtime: RuntimeView,
    layout: WorkbenchLayout,
    area: Rect,
    rows: Seq<RowView>,
    error: Option<Seq<char>>,
    now: Instant,
    pane: PaneId,
) -> (at: int)
    requires
        runtime.mode == LaunchMode::Workbench,
        runtime.layout == Some(layout),
        !layout.compact,
        pane != PaneId::Sidebar,
        roomy(place_of(layout, pane)),
    ensures
        ({
            let panes = runtime.picture(area, rows, error, now).panes;
            let style = TerminalPaneStyle::spec_default();
            let selection = runtime.workbench.selection;
            &&& 0 <= at < panes.len()
            &&& panes[at].pane == pane
            &&& panes[at].area == place_of(layout, pane)
            &&& panes[at].painted.border == if runtime.workbench.focused == pane {
                style.focused_border
            } else {
                style.unfocused_border
            }
            &&& runtime.sessions.session(pane) matches Some(session) ==> {
                &&& selection is None || selection->0.pane != pane ==> panes[at].painted.body
                    == PaneBodyView::Screen(screen_lines(session.shown(), None))
                &&& selection is Some && selection->0.pane == pane ==> panes[at].painted.body
                    == PaneBodyView::Screen(
                    screen_lines(session.shown(), Some(selection->0.spec_range())),
                )
            }
            &&& runtime.sessions.session(pane) is None ==> panes[at].painted.body is Message
            &&& runtime.sessions.session(pane) is None ==> (runtime.sessions.status_text(
                pane,
                now,
                true,
            ) matches Some(why) ==> panes[at].painted.body == warning(why))
            &&& pane != PaneId::Bottom && runtime.sessions.session(pane) is Some ==> {
                let name = runtime.sessions.session(pane)->0.name;
                let title = panes[at].painted.title;
                &&& title.len() >= name.len()
                &&& title.take(name.len() as int) == name
                &&& runtime.status is None ==> title == name
            }
        }),
{
    let editor = runtime.painted_pane(PaneId::Editor, layout.editor, now);
    let agent = runtime.painted_pane(PaneId::Agent, layout.agent, now);
    let bottom = runtime.painted_pane(PaneId::Bottom, layout.bottom, now);
    let all = editor + agent + bottom;
    let at = match pane {
        PaneId::Editor => 0,
        PaneId::Agent => editor.len() as int,
        _ => (editor.len() + agent.len()) as int,
    };
    assert(all[at] == runtime.painted_pane(pane, place_of(layout, pane), now)[0]);
    if pane != PaneId::Bottom && runtime.sessions.session(pane) is Some {
        let name = runtime.sessions.session(pane)->0.name;
        assert(all[at].painted.title.take(name.len() as int) =~= name);
    }
    at
}

/// The place of a pane in a layout.
pub open spec fn place_of(layout: WorkbenchLayout, pane: PaneId) -> Rect {
    match pane {
        PaneId::Sidebar => layout.sidebar,
        PaneId::Editor => layout.editor,
        PaneId::Agent => layout.agent,
        PaneId::Bottom => layout.bottom,
    }
}

/// The sidebar is shown where it has room, with the border of the focus where it
/// has it. A single session has the whole area, and always the focus.
pub proof fn sidebars_and_single_sessions_are_shown(
    runtime: RuntimeView,
    area: Rect,
    rows: Seq<RowView>,
    error: Option<Seq<char>>,
    now: Instant,
)
    ensures
        ({
            let picture = runtime.picture(area, rows, error, now);
            &&& runtime.mode == LaunchMode::Workbench && runtime.layout is Some
                && !runtime.layout->0.compact ==> {
                let place = runtime.layout->0.sidebar;
                &&& picture.sidebar is Some <==> place.width > 0 && place.height > 0
                &&& picture.sidebar matches Some(shown) ==> {
                    &&& shown.0 == place
                    &&& rows.len() > 0 ==> shown.1.lines.len() == rows.len()
                    &&& shown.1.border == if runtime.workbench.focused == PaneId::Sidebar {
                        SidebarStyle::spec_default().focused_border
                    } else {
                        SidebarStyle::spec_default().unfocused_border
                    }
                }
            }
            &&& runtime.mode != LaunchMode::Workbench ==> {
                &&& picture.panes.len() == 1
                &&& picture.panes[0].area == area
                &&& picture.panes[0].painted.border
                    == TerminalPaneStyle::spec_default().focused_border
                &&& picture.sidebar is None
                &&& picture.controls.len() == 0
            }
        }),
{
}

} // verus!
