//! Shell tabs: their identities, and where the tab row shows them.

use crate::geometry::Rect;
use vstd::prelude::*;

verus! {

#[derive(Debug, Clone, Copy, PartialEq, Eq, Hash, PartialOrd, Ord, Structural)]
pub struct ShellTabId(pub u64);

#[derive(Debug, PartialEq, Eq)]
pub struct ShellTabs {
    tabs: Vec<ShellTabId>,
    active: ShellTabId,
    next: u64,
}

/// The open tabs from left to right, the active one, and the number that the
/// next tab gets.
#[verifier::ext_equal]
pub struct TabsView {
    pub ids: Seq<ShellTabId>,
    pub active: ShellTabId,
    pub next: int,
}

impl TabsView {
    /// Tabs stand in the order of their numbers, all of which have been given
    /// out, and the active tab is one of them.
    pub open spec fn valid(self) -> bool {
        &&& self.ids.contains(self.active)
        &&& forall|i: int, j: int|
            0 <= i < j < self.ids.len() ==> (#[trigger] self.ids[i]).0 < (#[trigger] self.ids[j]).0
        &&& forall|i: int| 0 <= i < self.ids.len() ==> (#[trigger] self.ids[i]).0 < self.next
        &&& 0 <= self.next <= u64::MAX
    }

    /// The single tab that a workbench starts with.
    pub open spec fn initial() -> TabsView {
        TabsView { ids: seq![ShellTabId(1)], active: ShellTabId(1), next: 2 }
    }

    /// A new tab at the right end becomes the active one.
    pub open spec fn opened(self) -> TabsView {
        let id = ShellTabId(self.next as u64);
        TabsView { ids: self.ids.push(id), active: id, next: self.next + 1 }
    }

    /// The position of a tab that is open.
    pub open spec fn position(self, id: ShellTabId) -> int {
        self.ids.index_of(id)
    }

    /// The tab is gone. If it was the only one, a new tab replaces it; if it
    /// was the active one, its right neighbour is active, or the last tab if it
    /// had none.
    pub open spec fn closed(self, id: ShellTabId) -> TabsView {
        let at = self.position(id);
        let rest = self.ids.remove(at);
        if rest.len() == 0 {
            let replacement = ShellTabId(self.next as u64);
            TabsView { ids: seq![replacement], active: replacement, next: self.next + 1 }
        } else if self.active == id {
            TabsView {
                ids: rest,
                active: rest[if at < rest.len() {
                    at
                } else {
                    rest.len() - 1
                }],
                next: self.next,
            }
        } else {
            TabsView { ids: rest, ..self }
        }
    }
}

impl ShellTabs {
    pub closed spec fn view(&self) -> TabsView {
        TabsView { ids: self.tabs@, active: self.active, next: self.next as int }
    }

    #[verifier::type_invariant]
    spec fn tabs_are_valid(self) -> bool {
        self@.valid()
    }

    /// The open tabs from left to right.
    pub fn ids(&self) -> (ids: Vec<ShellTabId>)
        ensures
            ids@ == self@.ids,
            self@.valid(),
    {
        proof {
            use_type_invariant(self);
        }
        let mut ids: Vec<ShellTabId> = Vec::new();
        let mut i: usize = 0;
        while i < self.tabs.len()
            invariant
                i <= self.tabs@.len(),
                ids@ == self.tabs@.take(i as int),
            decreases self.tabs@.len() - i,
        {
            ids.push(self.tabs[i]);
            i += 1;
        }
        ids
    }

    pub fn active(&self) -> (active: ShellTabId)
        ensures
            active == self@.active,
            self@.ids.contains(active),
    {
        proof {
            use_type_invariant(self);
        }
        self.active
    }

    pub fn len(&self) -> (len: usize)
        ensures
            len == self@.ids.len(),
            len > 0,
    {
        proof {
            use_type_invariant(self);
        }
        self.tabs.len()
    }

    /// Whether another tab can still be numbered.
    pub fn can_open(&self) -> (can: bool)
        ensures
            can == (self@.next < u64::MAX),
    {
        self.next < u64::MAX
    }

    pub fn new_tab(&mut self) -> (id: ShellTabId)
        requires
            old(self)@.next < u64::MAX,
        ensures
            final(self)@ == old(self)@.opened(),
            id == final(self)@.active,
            id.0 == old(self)@.next,
            !old(self)@.ids.contains(id),
    {
        proof {
            use_type_invariant(&*self);
        }
        let id = ShellTabId(self.next);
        let mut tabs = self.ids();
        let ghost before = tabs@;
        tabs.push(id);
        proof {
            assert(tabs@[before.len() as int] == id);
        }
        *self = ShellTabs { tabs, active: id, next: self.next + 1 };
        id
    }

    fn find(&self, id: ShellTabId) -> (index: Option<usize>)
        ensures
            match index {
                Some(i) => i < self@.ids.len() && self@.ids[i as int] == id,
                None => !self@.ids.contains(id),
            },
    {
        let mut i: usize = 0;
        while i < self.tabs.len()
            invariant
                i <= self.tabs@.len(),
                forall|j: int| 0 <= j < i ==> self.tabs@[j] != id,
            decreases self.tabs@.len() - i,
        {
            if self.tabs[i] == id {
                return Some(i);
            }
            i += 1;
        }
        None
    }

    pub fn select(&mut self, id: ShellTabId) -> (selected: bool)
        ensures
            selected == old(self)@.ids.contains(id),
            selected ==> final(self)@ == (TabsView { active: id, ..old(self)@ }),
            !selected ==> final(self)@ == old(self)@,
    {
        proof {
            use_type_invariant(&*self);
        }
        match self.find(id) {
            Some(_) => {
                self.active = id;
                true
            },
            None => false,
        }
    }

    /// Removes a tab and returns `(removed, replacement)`. A replacement is
    /// allocated immediately when the last tab closes, so identities never
    /// get reused (including shell process exits).
    pub fn close(&mut self, id: ShellTabId) -> (closed: Option<(ShellTabId, Option<ShellTabId>)>)
        requires
            old(self)@.ids.contains(id) && old(self)@.ids.len() == 1 ==> old(self)@.next
                < u64::MAX,
        ensures
            match closed {
                None => !old(self)@.ids.contains(id) && final(self)@ == old(self)@,
                Some((removed, replacement)) => {
                    &&& old(self)@.ids.contains(id)
                    &&& removed == id
                    &&& final(self)@ == old(self)@.closed(id)
                    &&& replacement == if old(self)@.ids.len() == 1 {
                        Some(ShellTabId(old(self)@.next as u64))
                    } else {
                        None
                    }
                },
            },
    {
        proof {
            use_type_invariant(&*self);
        }
        let ghost before = self@;
        let index: usize = match self.find(id) {
            Some(index) => index,
            None => {
                return None;
            },
        };
        proof {
            assert(before.position(id) == index);
        }
        let mut tabs = self.ids();
        tabs.remove(index);
        let ghost rest = tabs@;
        if tabs.len() == 0 {
            let replacement = ShellTabId(self.next);
            tabs.push(replacement);
            proof {
                assert(tabs@ == seq![replacement]);
                assert(tabs@[0] == replacement);
            }
            *self = ShellTabs { tabs, active: replacement, next: self.next + 1 };
            return Some((id, Some(replacement)));
        }
        let active = if self.active == id {
            // The right neighbor moves into the removed index; if there was no
            // right neighbor, use the previous (now last) tab.
            let last: usize = tabs.len() - 1;
            tabs[if index < last {
                index
            } else {
                last
            }]
        } else {
            proof {
                let at = before.ids.index_of(self.active);
                if at < index {
                    assert(rest[at] == self.active);
                } else {
                    assert(rest[at - 1] == self.active);
                }
            }
            self.active
        };
        *self = ShellTabs { tabs, active, next: self.next };
        Some((id, None))
    }
}

impl Clone for ShellTabs {
    fn clone(&self) -> (copy: ShellTabs)
        ensures
            copy@ == self@,
    {
        proof {
            use_type_invariant(self);
        }
        ShellTabs { tabs: self.ids(), active: self.active, next: self.next }
    }
}

impl Default for ShellTabs {
    fn default() -> (tabs: ShellTabs)
        ensures
            tabs@ == TabsView::initial(),
    {
        let mut tabs: Vec<ShellTabId> = Vec::new();
        tabs.push(ShellTabId(1));
        proof {
            assert(tabs@[0] == ShellTabId(1));
            assert(tabs@ == seq![ShellTabId(1)]);
        }
        ShellTabs { tabs, active: ShellTabId(1), next: 2 }
    }
}

/// The number of a tab that is closed, or was never opened but could have been,
/// stays unused: no later operation opens a tab under it.
pub proof fn identities_are_never_reused(tabs: TabsView, retired: ShellTabId, id: ShellTabId)
    requires
        tabs.valid(),
        tabs.next < u64::MAX,
        retired.0 < tabs.next,
        !tabs.ids.contains(retired),
        tabs.ids.contains(id),
    ensures
        retired.0 < tabs.opened().next,
        !tabs.opened().ids.contains(retired),
        retired.0 < tabs.closed(id).next,
        !tabs.closed(id).ids.contains(retired),
        id.0 < tabs.closed(id).next,
        !tabs.closed(id).ids.contains(id),
{
    let at = tabs.position(id);
    let rest = tabs.ids.remove(at);
    assert forall|i: int| 0 <= i < rest.len() implies rest[i] != retired && rest[i] != id by {
        if i < at {
            assert(rest[i] == tabs.ids[i]);
        } else {
            assert(rest[i] == tabs.ids[i + 1]);
        }
    }
}

/// Opening, selecting and closing keep the tabs valid.
pub proof fn operations_keep_tabs_valid(tabs: TabsView, id: ShellTabId)
    requires
        tabs.valid(),
        tabs.next < u64::MAX,
        tabs.ids.contains(id),
    ensures
        tabs.opened().valid(),
        (TabsView { active: id, ..tabs }).valid(),
        tabs.closed(id).valid(),
{
    let opened = tabs.opened();
    assert(opened.ids[tabs.ids.len() as int] == opened.active);
    let at = tabs.position(id);
    let rest = tabs.ids.remove(at);
    if rest.len() == 0 {
        assert(tabs.closed(id).ids[0] == tabs.closed(id).active);
    } else if tabs.active != id {
        let active = tabs.position(tabs.active);
        assert(rest[if active < at {
            active
        } else {
            active - 1
        }] == tabs.active);
    }
}

#[derive(Debug, Clone, Copy, PartialEq, Eq, Structural)]
pub enum ShellTabTarget {
    Body(ShellTabId),
    Close(ShellTabId),
    Plus,
}

#[derive(Debug, Clone, Copy, PartialEq, Eq, Structural)]
pub struct ShellTabGeometry {
    pub id: ShellTabId,
    /// One-based position in the current ordered tab list. Unlike `id`, this
    /// is presentation-only and closes gaps after tabs are removed.
    pub display_number: usize,
    pub x: u16,
    pub width: u16,
    pub close_x: u16,
}

pub const SHELL_TAB_ROW_OFFSET: u16 = 1;

pub const TAB_WIDTH: u16 = 7;

/// Columns between the left border and the plus button.
pub open spec fn tab_columns(area: Rect) -> int {
    area.width - 3
}

/// Whether the pane is large enough for a tab row inside its border.
pub open spec fn has_tab_row(area: Rect) -> bool {
    area.width > 2 && area.height > 2
}

/// How many tabs the row shows: as many as fit, but at least one, and none
/// where no column is left.
pub open spec fn shown_tabs(area: Rect, count: int) -> int {
    if !has_tab_row(area) || tab_columns(area) == 0 {
        0
    } else {
        tab_capacity(area, count)
    }
}

pub open spec fn tab_capacity(area: Rect, count: int) -> int {
    let fitting = if tab_columns(area) / 7 > 1 {
        tab_columns(area) / 7
    } else {
        1
    };
    if fitting < count {
        fitting
    } else {
        count
    }
}

/// The first tab that is shown: the active tab is in the middle of the window,
/// as far as the window does not pass the ends of the row.
pub open spec fn first_shown(area: Rect, tabs: TabsView) -> int {
    let count = tabs.ids.len() as int;
    let capacity = tab_capacity(area, count);
    let centred = if tabs.position(tabs.active) > capacity / 2 {
        tabs.position(tabs.active) - capacity / 2
    } else {
        0
    };
    if centred > count - capacity {
        count - capacity
    } else {
        centred
    }
}

/// Columns of each tab that is shown.
pub open spec fn shown_width(area: Rect) -> int {
    if tab_columns(area) < 7 {
        tab_columns(area)
    } else {
        7
    }
}

/// The tab at position `i` of the window. The last cell of a tab closes it.
pub open spec fn shown_tab(area: Rect, tabs: TabsView, i: int) -> ShellTabGeometry {
    let at = first_shown(area, tabs) + i;
    ShellTabGeometry {
        id: tabs.ids[at],
        display_number: (at + 1) as usize,
        x: (area.x + 1 + 7 * i) as u16,
        width: shown_width(area) as u16,
        close_x: (area.x + 7 * i + shown_width(area)) as u16,
    }
}

pub open spec fn shown_row(area: Rect, tabs: TabsView) -> Seq<ShellTabGeometry> {
    Seq::new(shown_tabs(area, tabs.ids.len() as int) as nat, |i: int| shown_tab(area, tabs, i))
}

/// The cell of the plus button: the last inner cell of the tab row.
pub open spec fn plus_cell(area: Rect) -> Option<(u16, u16)> {
    if has_tab_row(area) {
        Some(((area.x + area.width - 2) as u16, (area.y + 1) as u16))
    } else {
        None
    }
}

/// Returns a contiguous visible window. The active tab is always retained and
/// the final inner cell is permanently reserved for the plus button.
pub fn shell_tab_geometry(area: Rect, tabs: &ShellTabs) -> (result: (
    Vec<ShellTabGeometry>,
    Option<(u16, u16)>,
))
    requires
        area.fits(),
    ensures
        result.0@ == shown_row(area, tabs@),
        result.1 == plus_cell(area),
{
    if area.width <= 2 || area.height <= 2 {
        return (Vec::new(), None);
    }
    let count: usize = tabs.len();
    let ghost view = tabs@;
    proof {
        use_type_invariant(tabs);
    }
    let inner: u16 = area.width - 2;
    let plus_x: u16 = area.x + area.width - 2;
    let available: u16 = inner - 1;
    let fitting: usize = (available / TAB_WIDTH) as usize;
    let at_least_one: usize = if fitting > 1 {
        fitting
    } else {
        1
    };
    let capacity: usize = if at_least_one < count {
        at_least_one
    } else {
        count
    };
    let active: usize = match tabs.find(tabs.active) {
        Some(index) => index,
        None => 0,
    };
    proof {
        assert(view.position(view.active) == active);
    }
    let centred: usize = active.saturating_sub(capacity / 2);
    let start: usize = if centred > count - capacity {
        count - capacity
    } else {
        centred
    };
    let mut result: Vec<ShellTabGeometry> = Vec::new();
    let plus: Option<(u16, u16)> = Some((plus_x, area.y + SHELL_TAB_ROW_OFFSET));
    if available == 0 {
        return (result, plus);
    }
    let width: u16 = if available < TAB_WIDTH {
        available
    } else {
        TAB_WIDTH
    };
    let mut offset: usize = 0;
    let mut x: u16 = area.x + 1;
    while offset < capacity
        invariant
            offset <= capacity,
            area.fits(),
            has_tab_row(area),
            tab_columns(area) > 0,
            view == tabs@,
            count == view.ids.len(),
            capacity == tab_capacity(area, count as int),
            capacity <= count,
            start + capacity <= count,
            start == first_shown(area, view),
            width == shown_width(area),
            offset < capacity ==> x == area.x + 1 + 7 * offset,
            result@ == Seq::new(offset as nat, |i: int| shown_tab(area, view, i)),
        decreases capacity - offset,
    {
        proof {
            if capacity > 1 {
                assert(7 * capacity <= tab_columns(area));
            }
            assert(7 * offset + width <= tab_columns(area));
        }
        result.push(
            ShellTabGeometry {
                id: tabs.tabs[start + offset],
                display_number: start + offset + 1,
                x,
                width,
                close_x: x + width - 1,
            },
        );
        x += width;
        offset += 1;
    }
    (result, plus)
}

/// What a cell of the pane belongs to in the tab row.
pub open spec fn tab_target(area: Rect, tabs: TabsView, column: u16, row: u16) -> Option<
    ShellTabTarget,
> {
    let shown = shown_row(area, tabs);
    if plus_cell(area) == Some((column, row)) {
        Some(ShellTabTarget::Plus)
    } else if has_tab_row(area) && row == area.y + 1 && exists|i: int|
        0 <= i < shown.len() && #[trigger] shown[i].x <= column < shown[i].x + shown[i].width {
        let tab = shown[tab_under(shown, column)];
        Some(
            if column == tab.close_x {
                ShellTabTarget::Close(tab.id)
            } else {
                ShellTabTarget::Body(tab.id)
            },
        )
    } else {
        None
    }
}

/// The position of the tab that covers a column.
pub open spec fn tab_under(shown: Seq<ShellTabGeometry>, column: u16) -> int {
    choose|i: int|
        0 <= i < shown.len() && (#[trigger] shown[i]).x <= column < shown[i].x + shown[i].width
}

pub fn shell_tab_hit_test(area: Rect, tabs: &ShellTabs, column: u16, row: u16) -> (target: Option<
    ShellTabTarget,
>)
    requires
        area.fits(),
    ensures
        target == tab_target(area, tabs@, column, row),
{
    let (geometry, plus) = shell_tab_geometry(area, tabs);
    if let Some((plus_x, plus_y)) = plus {
        if plus_x == column && plus_y == row {
            return Some(ShellTabTarget::Plus);
        }
    } else {
        return None;
    }
    if row != area.y + SHELL_TAB_ROW_OFFSET {
        return None;
    }
    let ghost shown = geometry@;
    proof {
        use_type_invariant(tabs);
        tabs_do_not_overlap(area, tabs@);
    }
    let mut i: usize = 0;
    while i < geometry.len()
        invariant
            i <= geometry@.len(),
            geometry@ == shown,
            shown == shown_row(area, tabs@),
            area.fits(),
            has_tab_row(area),
            row == area.y + 1,
            plus_cell(area) != Some((column, row)),
            tabs@.valid(),
            forall|j: int| 0 <= j < shown.len() ==> (#[trigger] shown[j]).x + shown[j].width
                <= u16::MAX,
            forall|j: int, k: int|
                0 <= j < k < shown.len() ==> (#[trigger] shown[j]).x + shown[j].width <= (
                #[trigger] shown[k]).x,
            forall|j: int|
                0 <= j < i ==> !((#[trigger] shown[j]).x <= column < shown[j].x + shown[j].width),
        decreases geometry@.len() - i,
    {
        let tab = geometry[i];
        if column >= tab.x && column < tab.x + tab.width {
            proof {
                assert(shown[i as int].x <= column < shown[i as int].x + shown[i as int].width);
                let k = tab_under(shown, column);
                assert(k == i);
            }
            return Some(
                if column == tab.close_x {
                    ShellTabTarget::Close(tab.id)
                } else {
                    ShellTabTarget::Body(tab.id)
                },
            );
        }
        i += 1;
    }
    None
}

/// Tabs in the row overlap neither each other nor the plus button.
pub proof fn tabs_do_not_overlap(area: Rect, tabs: TabsView)
    requires
        area.fits(),
        tabs.valid(),
    ensures
        ({
            let shown = shown_row(area, tabs);
            &&& forall|i: int, j: int|
                0 <= i < j < shown.len() ==> (#[trigger] shown[i]).x + shown[i].width <= (
                #[trigger] shown[j]).x
            &&& forall|i: int|
                0 <= i < shown.len() ==> {
                    &&& area.x < (#[trigger] shown[i]).x
                    &&& shown[i].width > 0
                    &&& shown[i].close_x == shown[i].x + shown[i].width - 1
                    &&& shown[i].x + shown[i].width <= area.x + area.width - 2
                }
        }),
{
    let shown = shown_row(area, tabs);
    if shown.len() > 0 {
        let capacity = tab_capacity(area, tabs.ids.len() as int);
        assert(capacity == shown.len());
        if capacity > 1 {
            assert(capacity <= tab_columns(area) / 7);
            assert(7 * (tab_columns(area) / 7) <= tab_columns(area));
        }
    }
}

/// The active tab is shown wherever the row has room for a tab at all, and the
/// tabs that are shown are numbered by their places.
pub proof fn active_tab_is_shown(area: Rect, tabs: TabsView)
    requires
        area.fits(),
        tabs.valid(),
        has_tab_row(area),
        area.width > 3,
        tabs.ids.len() <= usize::MAX,
    ensures
        ({
            let shown = shown_row(area, tabs);
            &&& exists|i: int| 0 <= i < shown.len() && (#[trigger] shown[i]).id == tabs.active
            &&& forall|i: int|
                0 <= i < shown.len() ==> {
                    &&& 1 <= (#[trigger] shown[i]).display_number <= tabs.ids.len()
                    &&& shown[i].id == tabs.ids[shown[i].display_number - 1]
                }
        }),
{
    let shown = shown_row(area, tabs);
    let at = tabs.position(tabs.active);
    let start = first_shown(area, tabs);
    assert(0 <= start <= at < start + shown.len());
    assert(shown[at - start].id == tabs.active);
}

/// Closing a tab leaves every other one. The tab that is active stays so; if it
/// is the one that closes, the next one to the right takes its place, or the
/// last one where there is none to the right.
pub proof fn closing_moves_to_a_neighbour(tabs: TabsView, id: ShellTabId, other: ShellTabId)
    requires
        tabs.valid(),
        tabs.next < u64::MAX,
        tabs.ids.contains(id),
        tabs.ids.contains(other),
        other != id,
    ensures
        ({
            let after = tabs.closed(id);
            &&& after.ids.contains(other)
            &&& !after.ids.contains(id)
            &&& after.ids.len() == tabs.ids.len() - 1
            &&& after.next == tabs.next
            &&& tabs.active != id ==> after.active == tabs.active
            &&& tabs.active == id && other.0 > id.0 ==> id.0 < after.active.0 <= other.0
            &&& tabs.active == id && after.active.0 < id.0 ==> other.0 <= after.active.0
        }),
{
    let at = tabs.position(id);
    let rest = tabs.ids.remove(at);
    let j = tabs.position(other);
    assert(rest.len() > 0);
    let k = if j < at {
        j
    } else {
        j - 1
    };
    assert(rest[k] == other);
    assert forall|i: int| 0 <= i < rest.len() implies rest[i] != id by {
        assert(rest[i] == tabs.ids[if i < at {
            i
        } else {
            i + 1
        }]);
    }
    if tabs.active == id {
        let after = tabs.closed(id);
        if at < rest.len() {
            assert(after.active == tabs.ids[at + 1]);
        } else {
            assert(after.active == tabs.ids[at - 1]);
        }
    }
}

/// The only tab is replaced when it closes, by one with a number of its own.
pub proof fn last_tabs_are_replaced(tabs: TabsView, id: ShellTabId)
    requires
        tabs.valid(),
        tabs.next < u64::MAX,
        tabs.ids == seq![id],
    ensures
        tabs.closed(id).ids.len() == 1,
        tabs.closed(id).ids[0] == tabs.closed(id).active,
        tabs.closed(id).active.0 > id.0,
        tabs.closed(id).next > tabs.closed(id).active.0,
{
    assert(tabs.ids[0] == id);
}

/// A new tab stands last, is active, and has a number that no tab had. The
/// others stay in their places.
pub proof fn new_tabs_come_last(tabs: TabsView, i: int)
    requires
        tabs.valid(),
        tabs.next < u64::MAX,
        0 <= i < tabs.ids.len(),
    ensures
        tabs.opened().ids.len() == tabs.ids.len() + 1,
        tabs.opened().ids[i] == tabs.ids[i],
        tabs.opened().ids[i].0 < tabs.opened().active.0,
        tabs.opened().ids.last() == tabs.opened().active,
        !tabs.ids.contains(tabs.opened().active),
{
}

/// A tab is seven cells wide: a press in one of the first six of them selects
/// it, and one in the last closes it.
pub proof fn tabs_answer_in_their_cells(area: Rect, tabs: TabsView, i: int, offset: int)
    requires
        area.fits(),
        tabs.valid(),
        area.width >= 10,
        area.height > 2,
        0 <= i < shown_row(area, tabs).len(),
        0 <= offset < 7,
    ensures
        ({
            let column = (area.x + 1 + 7 * i + offset) as u16;
            let row = (area.y + 1) as u16;
            let id = shown_row(area, tabs)[i].id;
            &&& column == area.x + 1 + 7 * i + offset
            &&& tab_target(area, tabs, column, row) == Some(
                if offset == 6 {
                    ShellTabTarget::Close(id)
                } else {
                    ShellTabTarget::Body(id)
                },
            )
        }),
{
    let shown = shown_row(area, tabs);
    tabs_do_not_overlap(area, tabs);
    let column = (area.x + 1 + 7 * i + offset) as u16;
    assert(shown[i].x + shown[i].width <= area.x + area.width - 2);
    assert(shown[i].x <= column < shown[i].x + shown[i].width);
    let k = tab_under(shown, column);
    if k < i {
        assert(shown[k].x + shown[k].width <= shown[i].x);
    } else if i < k {
        assert(shown[i].x + shown[i].width <= shown[k].x);
    }
}

/// A new tab is asked for in the last cell of the row inside the border. No cell
/// of another row belongs to a tab.
pub proof fn other_cells_of_the_row(area: Rect, tabs: TabsView, column: u16, row: u16)
    requires
        area.fits(),
        area.width > 2,
        area.height > 2,
    ensures
        tab_target(area, tabs, (area.x + area.width - 2) as u16, (area.y + 1) as u16) == Some(
            ShellTabTarget::Plus,
        ),
        row != area.y + 1 ==> tab_target(area, tabs, column, row) is None,
        column <= area.x || column >= area.x + area.width - 1 ==> tab_target(
            area,
            tabs,
            column,
            row,
        ) !is Some || tab_target(area, tabs, column, row)->0 !is Plus,
{
}

/// The tabs that are shown are neighbours. All are shown if there is room for
/// all, and as many as fit otherwise. Where tabs are hidden on both sides the
/// active one is in the middle.
pub proof fn shown_tabs_are_neighbours(area: Rect, tabs: TabsView, i: int)
    requires
        area.fits(),
        tabs.valid(),
        area.width >= 10,
        area.height > 2,
        tabs.ids.len() <= usize::MAX,
        0 <= i < shown_row(area, tabs).len(),
    ensures
        ({
            let shown = shown_row(area, tabs);
            let count = tabs.ids.len();
            &&& shown[i].display_number == shown[0].display_number + i
            &&& shown[i].id == tabs.ids[shown[i].display_number - 1]
            &&& 7 * count <= area.width - 3 ==> shown.len() == count && shown[0].display_number
                == 1
            &&& 7 * count > area.width - 3 ==> 7 * shown.len() <= area.width - 3 < 7 * (shown.len()
                + 1)
            &&& shown[0].display_number > 1 && shown.last().display_number < count ==> shown[(
            shown.len() / 2) as int].id == tabs.active
        }),
{
    let shown = shown_row(area, tabs);
    let start = first_shown(area, tabs);
    let count = tabs.ids.len();
    assert(0 <= start <= count - shown.len());
    if shown[0].display_number > 1 && shown.last().display_number < count {
        assert(shown[(shown.len() / 2) as int].id == tabs.ids[start + shown.len() / 2]);
    }
}

} // verus!
