//! Focus, selection and collapsed panes of the workbench.

use vstd::prelude::*;

use crate::geometry::Rect;
use crate::terminal::selection::{TerminalPoint, TerminalRange};
use crate::workbench::layout::{
    WorkbenchLayout, WorkbenchLayoutConfig, WorkbenchVisibility, BOTTOM_BREAKPOINT,
    MIN_SHELL_PANE_HEIGHT, MIN_TERMINAL_HEIGHT, MIN_TERMINAL_WIDTH, SIDEBAR_BREAKPOINT,
};
use crate::workbench::pane::{BackendKind, PaneId, PaneKind, PaneState};
use crate::workbench::persistence::LayoutIntent;
use crate::workbench::selection::PaneSelection;
use crate::workbench::tabs::{ShellTabs, TabsView};

verus! {

/// Why a pane is collapsed: because the user said so, or for want of room.
#[derive(Debug, Clone, Copy, PartialEq, Eq, Structural)]
pub struct CollapseState {
    pub manual: bool,
    pub automatic: bool,
}

impl Default for CollapseState {
    fn default() -> (state: CollapseState)
        ensures
            state == (CollapseState { manual: false, automatic: false }),
    {
        CollapseState { manual: false, automatic: false }
    }
}

impl CollapseState {
    pub open spec fn collapsed(self) -> bool {
        self.manual || self.automatic
    }

    pub fn is_collapsed(self) -> (result: bool)
        ensures
            result == self.collapsed(),
    {
        self.manual || self.automatic
    }

    pub fn is_manually_collapsed(self) -> (result: bool)
        ensures
            result == self.manual,
    {
        self.manual
    }

    pub fn is_automatically_collapsed(self) -> (result: bool)
        ensures
            result == self.automatic,
    {
        self.automatic
    }

    fn toggle_manual(&mut self)
        ensures
            *final(self) == (CollapseState { manual: !old(self).manual, ..*old(self) }),
    {
        self.manual = !self.manual;
    }
}

#[derive(Debug)]
pub struct WorkbenchState {
    pub focused_pane: PaneId,
    pub selection: Option<PaneSelection>,
    pub sidebar_collapse: CollapseState,
    pub bottom_collapse: CollapseState,
    pub shell_tabs: ShellTabs,
}

pub struct WorkbenchView {
    pub focused: PaneId,
    pub selection: Option<PaneSelection>,
    pub sidebar: CollapseState,
    pub bottom: CollapseState,
    pub tabs: TabsView,
}

impl View for WorkbenchState {
    type V = WorkbenchView;

    open spec fn view(&self) -> WorkbenchView {
        WorkbenchView {
            focused: self.focused_pane,
            selection: self.selection,
            sidebar: self.sidebar_collapse,
            bottom: self.bottom_collapse,
            tabs: self.shell_tabs@,
        }
    }
}

impl WorkbenchView {
    /// The workbench at the start: nothing collapsed, the editor focused.
    pub open spec fn initial() -> WorkbenchView {
        WorkbenchView {
            focused: PaneId::Editor,
            selection: None,
            sidebar: CollapseState { manual: false, automatic: false },
            bottom: CollapseState { manual: false, automatic: false },
            tabs: TabsView::initial(),
        }
    }

    pub open spec fn shows(self, pane: PaneId) -> bool {
        match pane {
            PaneId::Sidebar => !self.sidebar.collapsed(),
            PaneId::Bottom => !self.bottom.collapsed(),
            PaneId::Editor | PaneId::Agent => true,
        }
    }

    /// The pane that has the focus is never collapsed.
    pub open spec fn wf(self) -> bool {
        self.shows(self.focused)
    }

    pub open spec fn visibility(self) -> WorkbenchVisibility {
        WorkbenchVisibility {
            sidebar: !self.sidebar.collapsed(),
            bottom: !self.bottom.collapsed(),
        }
    }

    /// Focus falls back to the editor where its pane is collapsed.
    pub open spec fn settled(self) -> WorkbenchView {
        if self.shows(self.focused) {
            self
        } else {
            WorkbenchView { focused: PaneId::Editor, ..self }
        }
    }

    pub open spec fn can_focus(self, target: PaneId) -> bool {
        target != self.focused && self.shows(target)
    }

    pub open spec fn with_focus(self, target: PaneId) -> WorkbenchView {
        if self.can_focus(target) {
            WorkbenchView { focused: target, ..self }
        } else {
            self
        }
    }

    pub open spec fn with_manual(self, sidebar: bool, bottom: bool) -> WorkbenchView {
        WorkbenchView {
            sidebar: CollapseState { manual: sidebar, ..self.sidebar },
            bottom: CollapseState { manual: bottom, ..self.bottom },
            ..self
        }.settled()
    }

    pub open spec fn sidebar_toggled(self) -> WorkbenchView {
        self.with_manual(!self.sidebar.manual, self.bottom.manual)
    }

    pub open spec fn bottom_toggled(self) -> WorkbenchView {
        self.with_manual(self.sidebar.manual, !self.bottom.manual)
    }

    /// Panes that the viewport has no room for are collapsed, others are not.
    pub open spec fn fitted(self, area: Rect, config: WorkbenchLayoutConfig) -> WorkbenchView {
        WorkbenchView {
            sidebar: CollapseState {
                automatic: area.width < config.spec_sidebar_shortage_width(),
                ..self.sidebar
            },
            bottom: CollapseState {
                automatic: area.height < config.spec_bottom_shortage_height(),
                ..self.bottom
            },
            ..self
        }.settled()
    }

    pub open spec fn intent(self, config: WorkbenchLayoutConfig) -> LayoutIntent {
        LayoutIntent {
            config,
            sidebar_collapsed: self.sidebar.manual,
            bottom_collapsed: self.bottom.manual,
        }
    }

    pub open spec fn with_selection(self, anchor: TerminalPoint) -> WorkbenchView {
        WorkbenchView {
            selection: Some(PaneSelection::spec_new(self.focused, anchor)),
            ..self
        }
    }

    pub open spec fn with_head(self, head: TerminalPoint) -> WorkbenchView {
        match self.selection {
            Some(selection) => WorkbenchView {
                selection: Some(PaneSelection { head, ..selection }),
                ..self
            },
            None => self,
        }
    }

    pub open spec fn without_selection(self) -> WorkbenchView {
        WorkbenchView { selection: None, ..self }
    }
}

/// What a pane is.
pub open spec fn pane_kind(pane: PaneId) -> PaneKind {
    match pane {
        PaneId::Sidebar => PaneKind::Sidebar,
        PaneId::Editor => PaneKind::Backend(BackendKind::Editor),
        PaneId::Agent => PaneKind::Backend(BackendKind::Agent),
        PaneId::Bottom => PaneKind::Backend(BackendKind::Shell),
    }
}

impl Default for WorkbenchState {
    fn default() -> (state: WorkbenchState)
        ensures
            state@ == WorkbenchView::initial(),
            state@.wf(),
    {
        WorkbenchState {
            focused_pane: PaneId::Editor,
            selection: None,
            sidebar_collapse: CollapseState::default(),
            bottom_collapse: CollapseState::default(),
            shell_tabs: ShellTabs::default(),
        }
    }
}

impl WorkbenchState {
    pub fn shell_tabs(&self) -> (tabs: &ShellTabs)
        ensures
            tabs@ == self@.tabs,
    {
        &self.shell_tabs
    }

    pub fn shell_tabs_mut(&mut self) -> (tabs: &mut ShellTabs)
        ensures
            tabs@ == old(self)@.tabs,
            final(self)@ == (WorkbenchView { tabs: final(tabs)@, ..old(self)@ }),
    {
        &mut self.shell_tabs
    }

    pub fn focused_pane(&self) -> (pane: PaneId)
        ensures
            pane == self@.focused,
    {
        self.focused_pane
    }

    pub fn is_focused(&self, pane: PaneId) -> (result: bool)
        ensures
            result == (self@.focused == pane),
    {
        self.focused_pane == pane
    }

    /// Moves the focus to a pane that is shown; tells whether it moved.
    pub fn focus_pane(&mut self, target: PaneId) -> (moved: bool)
        ensures
            moved == old(self)@.can_focus(target),
            final(self)@ == old(self)@.with_focus(target),
            old(self)@.wf() ==> final(self)@.wf(),
    {
        if target != self.focused_pane && self.visible(target) {
            self.focused_pane = target;
            true
        } else {
            false
        }
    }

    pub fn toggle_sidebar(&mut self)
        ensures
            final(self)@ == old(self)@.sidebar_toggled(),
            final(self)@.wf(),
    {
        self.sidebar_collapse.toggle_manual();
        self.update_pane_visibility();
    }

    pub fn toggle_bottom(&mut self)
        ensures
            final(self)@ == old(self)@.bottom_toggled(),
            final(self)@.wf(),
    {
        self.bottom_collapse.toggle_manual();
        self.update_pane_visibility();
    }

    pub fn set_manual_collapse(&mut self, sidebar: bool, bottom: bool)
        ensures
            final(self)@ == old(self)@.with_manual(sidebar, bottom),
            final(self)@.wf(),
    {
        self.sidebar_collapse.manual = sidebar;
        self.bottom_collapse.manual = bottom;
        self.update_pane_visibility();
    }

    pub fn manual_collapse(&self) -> (collapsed: (bool, bool))
        ensures
            collapsed == (self@.sidebar.manual, self@.bottom.manual),
    {
        (self.sidebar_collapse.manual, self.bottom_collapse.manual)
    }

    pub fn layout_intent(&self, config: WorkbenchLayoutConfig) -> (intent: LayoutIntent)
        ensures
            intent == self@.intent(config),
    {
        let (sidebar_collapsed, bottom_collapsed) = self.manual_collapse();
        LayoutIntent { config, sidebar_collapsed, bottom_collapsed }
    }

    pub fn sidebar_collapse(&self) -> (state: CollapseState)
        ensures
            state == self@.sidebar,
    {
        self.sidebar_collapse
    }

    pub fn bottom_collapse(&self) -> (state: CollapseState)
        ensures
            state == self@.bottom,
    {
        self.bottom_collapse
    }

    pub fn update_auto_collapse(&mut self, area: Rect, config: WorkbenchLayoutConfig)
        ensures
            final(self)@ == old(self)@.fitted(area, config),
            final(self)@.wf(),
    {
        self.sidebar_collapse.automatic = area.width < config.sidebar_shortage_width();
        self.bottom_collapse.automatic = area.height < config.bottom_shortage_height();
        self.update_pane_visibility();
    }

    pub fn visibility(&self) -> (visibility: WorkbenchVisibility)
        ensures
            visibility == self@.visibility(),
    {
        WorkbenchVisibility {
            sidebar: !self.sidebar_collapse.is_collapsed(),
            bottom: !self.bottom_collapse.is_collapsed(),
        }
    }

    fn visible(&self, pane: PaneId) -> (result: bool)
        ensures
            result == self@.shows(pane),
    {
        let visibility = self.visibility();
        match pane {
            PaneId::Sidebar => visibility.sidebar,
            PaneId::Bottom => visibility.bottom,
            PaneId::Editor | PaneId::Agent => true,
        }
    }

    fn update_pane_visibility(&mut self)
        ensures
            final(self)@ == old(self)@.settled(),
            final(self)@.wf(),
    {
        if !self.visible(self.focused_pane) {
            self.focused_pane = PaneId::Editor;
        }
    }

    /// Begins a selection in the focused pane.
    pub fn begin_selection(&mut self, anchor: TerminalPoint)
        ensures
            final(self)@ == old(self)@.with_selection(anchor),
    {
        self.selection = Some(PaneSelection::new(self.focused_pane, anchor));
    }

    pub fn clear_selection(&mut self)
        ensures
            final(self)@ == old(self)@.without_selection(),
    {
        self.selection = None;
    }

    pub fn selection(&self) -> (selection: Option<PaneSelection>)
        ensures
            selection == self@.selection,
    {
        self.selection
    }

    pub fn selection_range(&self, pane: PaneId) -> (range: Option<TerminalRange>)
        ensures
            range == match self@.selection {
                Some(selection) => if selection.pane == pane {
                    Some(selection.spec_range())
                } else {
                    None
                },
                None => None,
            },
    {
        match self.selection {
            Some(selection) => if selection.pane() == pane {
                Some(selection.range())
            } else {
                None
            },
            None => None,
        }
    }

    pub fn set_selection_head(&mut self, head: TerminalPoint)
        ensures
            final(self)@ == old(self)@.with_head(head),
    {
        if let Some(mut selection) = self.selection {
            selection.set_head(head);
            self.selection = Some(selection);
        }
    }

    pub fn pane(&self, id: PaneId) -> (pane: Option<PaneState>)
        ensures
            pane == Some(
                PaneState { visible: self@.shows(id), ..PaneState::spec_new(id, pane_kind(id)) },
            ),
    {
        let kind = match id {
            PaneId::Sidebar => PaneKind::Sidebar,
            PaneId::Editor => PaneKind::Backend(BackendKind::Editor),
            PaneId::Agent => PaneKind::Backend(BackendKind::Agent),
            PaneId::Bottom => PaneKind::Backend(BackendKind::Shell),
        };
        let mut pane = PaneState::new(id, kind);
        pane.visible = self.visible(id);
        Some(pane)
    }
}

/// Collapsing for want of room never changes what the user asked for, and goes
/// away with the room.
pub proof fn automatic_collapse_keeps_the_intent(
    state: WorkbenchView,
    area: Rect,
    config: WorkbenchLayoutConfig,
)
    ensures
        state.fitted(area, config).intent(config) == state.intent(config),
        area.width >= config.spec_sidebar_shortage_width() && !state.sidebar.manual
            ==> state.fitted(area, config).shows(PaneId::Sidebar),
        area.height >= config.spec_bottom_shortage_height() && !state.bottom.manual
            ==> state.fitted(area, config).shows(PaneId::Bottom),
{
}

/// A pane is collapsed exactly when the user collapsed it or there is no room.
pub proof fn collapse_has_two_reasons(
    state: WorkbenchView,
    area: Rect,
    config: WorkbenchLayoutConfig,
)
    ensures
        state.fitted(area, config).shows(PaneId::Sidebar) <==> !(state.sidebar.manual || area.width
            < config.spec_sidebar_shortage_width()),
        state.fitted(area, config).shows(PaneId::Bottom) <==> !(state.bottom.manual || area.height
            < config.spec_bottom_shortage_height()),
{
}

/// Small viewports belong to the backends: below its breakpoint a secondary pane
/// is hidden, and editor and agent are shown at any size.
pub proof fn secondary_panes_go_first(
    state: WorkbenchView,
    area: Rect,
    config: WorkbenchLayoutConfig,
)
    ensures
        area.width < SIDEBAR_BREAKPOINT ==> !state.fitted(area, config).shows(PaneId::Sidebar),
        area.height < BOTTOM_BREAKPOINT ==> !state.fitted(area, config).shows(PaneId::Bottom),
        state.fitted(area, config).shows(PaneId::Editor),
        state.fitted(area, config).shows(PaneId::Agent),
{
}

/// Collapsing and restoring a pane keeps the selection, and the focus too
/// unless the focused pane is the one that goes.
pub proof fn toggles_keep_selection_and_focus(state: WorkbenchView)
    requires
        state.wf(),
    ensures
        state.sidebar_toggled().selection == state.selection,
        state.bottom_toggled().selection == state.selection,
        state.focused != PaneId::Sidebar ==> state.sidebar_toggled().focused == state.focused,
        state.focused != PaneId::Bottom ==> state.bottom_toggled().focused == state.focused,
        state.sidebar_toggled().sidebar_toggled().sidebar == state.sidebar,
        state.bottom_toggled().bottom_toggled().bottom == state.bottom,
{
}

/// No operation leaves the focus on a collapsed pane.
pub proof fn focus_stays_on_shown_panes(
    state: WorkbenchView,
    pane: PaneId,
    area: Rect,
    config: WorkbenchLayoutConfig,
    sidebar: bool,
    bottom: bool,
)
    requires
        state.wf(),
    ensures
        WorkbenchView::initial().wf(),
        state.with_focus(pane).wf(),
        state.with_manual(sidebar, bottom).wf(),
        state.fitted(area, config).wf(),
{
}

/// A toggle hides a pane that the user shows and shows one that the user hides,
/// and leaves the other pane alone.
pub proof fn toggles_hide_and_show(state: WorkbenchView)
    ensures
        state.sidebar_toggled().sidebar.manual == !state.sidebar.manual,
        state.sidebar_toggled().sidebar.automatic == state.sidebar.automatic,
        state.sidebar_toggled().bottom == state.bottom,
        state.sidebar_toggled().tabs == state.tabs,
        state.bottom_toggled().bottom.manual == !state.bottom.manual,
        state.bottom_toggled().bottom.automatic == state.bottom.automatic,
        state.bottom_toggled().sidebar == state.sidebar,
        state.bottom_toggled().tabs == state.tabs,
        !state.sidebar.automatic ==> state.sidebar_toggled().shows(PaneId::Sidebar)
            == state.sidebar.manual,
        !state.bottom.automatic ==> state.bottom_toggled().shows(PaneId::Bottom)
            == state.bottom.manual,
{
}

/// The focus goes to a pane that is shown, and nowhere else; where its pane goes
/// it goes to the editor. Nothing else changes with it.
pub proof fn focus_goes_to_shown_panes(state: WorkbenchView, pane: PaneId)
    requires
        state.wf(),
    ensures
        state.with_focus(pane).focused == if state.shows(pane) {
            pane
        } else {
            state.focused
        },
        state.with_focus(pane) == (WorkbenchView {
            focused: state.with_focus(pane).focused,
            ..state
        }),
        state.with_focus(pane).with_focus(pane) == state.with_focus(pane),
        state.focused == PaneId::Sidebar ==> state.sidebar_toggled().focused == PaneId::Editor,
        state.focused == PaneId::Bottom ==> state.bottom_toggled().focused == PaneId::Editor,
{
}

/// The panes that a viewport has room for fit in it: where two terminals fit at
/// all, the layout is never compact, and shows just the panes that are not
/// collapsed.
pub proof fn shown_panes_fit(state: WorkbenchView, area: Rect, config: WorkbenchLayoutConfig)
    requires
        area.fits(),
        area.width >= 2 * MIN_TERMINAL_WIDTH,
        area.height >= MIN_TERMINAL_HEIGHT,
        config.sidebar_width > 0,
        config.sidebar_width < u16::MAX - 8,
        config.bottom_height < u16::MAX - MIN_TERMINAL_HEIGHT,
    ensures
        ({
            let fitted = state.fitted(area, config);
            let layout = WorkbenchLayout::solved(area, config, fitted.visibility());
            &&& !layout.compact
            &&& layout.sidebar.width > 0 <==> fitted.shows(PaneId::Sidebar)
            &&& fitted.shows(PaneId::Sidebar) ==> layout.sidebar.width == config.sidebar_width
            &&& layout.bottom.height > 0 <==> fitted.shows(PaneId::Bottom)
            &&& fitted.shows(PaneId::Bottom) && config.bottom_height >= MIN_SHELL_PANE_HEIGHT
                ==> layout.bottom.height == config.bottom_height
        }),
{
}

/// A selection begins in the focused pane; to move its head moves nothing else,
/// and to drop it drops nothing else.
pub proof fn selections_begin_in_the_focused_pane(
    state: WorkbenchView,
    anchor: TerminalPoint,
    head: TerminalPoint,
)
    ensures
        state.with_selection(anchor).selection == Some(
            PaneSelection { pane: state.focused, anchor, head: anchor },
        ),
        state.with_selection(anchor).with_head(head).selection == Some(
            PaneSelection { pane: state.focused, anchor, head },
        ),
        state.with_selection(anchor).without_selection() == state.without_selection(),
        state.without_selection().with_head(head) == state.without_selection(),
        state.with_selection(anchor).focused == state.focused,
{
}

} // verus!
