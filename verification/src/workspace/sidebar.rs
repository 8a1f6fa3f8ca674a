//! The file sidebar.
//!
//! Directories are read and Git is asked on another thread: the sidebar says
//! what is wanted, and takes the replies. A reply that is no longer wanted is
//! told by its number.

use vstd::prelude::*;
use vstd::string::*;

use crate::bytes::{byte_strings, same_bytes};
use crate::path::{parts, Component, FilePath, Part};
use crate::text::{decimal, decimal_text};
use crate::time::{Duration, Instant};
use crate::workspace::git::{change_views, ChangeView, GitChange, GitDecoration, GitStatus};
use crate::workspace::loading::{path_views, DirectoryView, LoadedDirectory};
use crate::workspace::rows::{
    copy_names, path_view, row_of, row_views, rows_of, same_names, RowView, SidebarRow,
};
use crate::workspace::tree::{
    changes_mark_what_leads_to_them, child_named, children_are_views, cleared, copy_bytes,
    entry_views, find, gone, index_of, lemma_index_of, listed, listing_keeps_names, marked,
    node_view, put, refreshed_children, what_is_put_is_found, EntryKind, EntryView, LoadedEntry,
    Node, NodeView,
};

verus! {

/// Default maximum number of children loaded from one directory.
pub const DEFAULT_ENTRY_CAP: usize = 10_000;

#[derive(Debug, Clone, Copy, PartialEq, Eq, Structural)]
pub struct SidebarConfig {
    pub entry_cap: usize,
    pub channel_capacity: usize,
    pub git_refresh_interval: Duration,
}

impl Default for SidebarConfig {
    fn default() -> (config: SidebarConfig)
        ensures
            config == (SidebarConfig {
                entry_cap: DEFAULT_ENTRY_CAP,
                channel_capacity: 8,
                git_refresh_interval: Duration { nanos: 3_000_000_000 },
            }),
    {
        SidebarConfig {
            entry_cap: DEFAULT_ENTRY_CAP,
            channel_capacity: 8,
            git_refresh_interval: Duration::from_secs(3),
        }
    }
}

/// The entry cap or the channel capacity is zero.
#[derive(Debug, Clone, Copy, PartialEq, Eq, Structural)]
pub struct InvalidConfig;

impl InvalidConfig {
    pub fn message(self) -> (message: &'static str)
        ensures
            message@ == "sidebar entry cap and channel capacity must be non-zero"@,
    {
        "sidebar entry cap and channel capacity must be non-zero"
    }
}

/// What is asked of the other thread.
#[derive(Debug)]
pub enum Job {
    Load {
        id: u64,
        path: Vec<Vec<u8>>,
        /// What the directories that lead to the path resolve to.
        ancestor_targets: Vec<FilePath>,
        cap: usize,
    },
    Git { id: u64 },
}

pub enum JobView {
    Load { id: u64, path: Seq<Seq<u8>>, ancestor_targets: Seq<Seq<u8>>, cap: usize },
    Git { id: u64 },
}

impl View for Job {
    type V = JobView;

    open spec fn view(&self) -> JobView {
        match self {
            Job::Load { id, path, ancestor_targets, cap } => JobView::Load {
                id: *id,
                path: byte_strings(path@),
                ancestor_targets: path_views(ancestor_targets@),
                cap: *cap,
            },
            Job::Git { id } => JobView::Git { id: *id },
        }
    }
}

/// A load that was asked for and has not been answered.
#[derive(Debug)]
pub struct PendingLoad {
    pub path: Vec<Vec<u8>>,
    pub id: u64,
}

/// The loads that a list holds; a later one takes the place of an earlier one.
pub open spec fn pending_map(pending: Seq<PendingLoad>) -> Map<Seq<Seq<u8>>, u64>
    decreases pending.len(),
{
    if pending.len() == 0 {
        Map::empty()
    } else {
        pending_map(pending.drop_last()).insert(
            byte_strings(pending.last().path@),
            pending.last().id,
        )
    }
}

#[derive(Debug)]
pub struct Sidebar {
    pub root: FilePath,
    pub config: SidebarConfig,
    pub tree: Node,
    pub selected: Option<Vec<Vec<u8>>>,
    pub scroll: usize,
    pub next_id: u64,
    pub pending_loads: Vec<PendingLoad>,
    pub pending_git: Option<u64>,
    pub last_git_request: Instant,
    pub git_error: Option<String>,
}

#[verifier::ext_equal]
pub struct SidebarView {
    pub root: Seq<u8>,
    pub config: SidebarConfig,
    pub tree: NodeView,
    pub selected: Option<Seq<Seq<u8>>>,
    pub scroll: usize,
    pub next_id: u64,
    pub pending: Map<Seq<Seq<u8>>, u64>,
    pub pending_git: Option<u64>,
    pub last_git: Instant,
    pub git_error: Option<Seq<char>>,
}

impl View for Sidebar {
    type V = SidebarView;

    open spec fn view(&self) -> SidebarView {
        SidebarView {
            root: self.root@,
            config: self.config,
            tree: self.tree@,
            selected: path_view(self.selected),
            scroll: self.scroll,
            next_id: self.next_id,
            pending: pending_map(self.pending_loads@),
            pending_git: self.pending_git,
            last_git: self.last_git_request,
            git_error: match self.git_error {
                Some(error) => Some(error@),
                None => None,
            },
        }
    }
}

/// The last name of a path; the path itself where it has none.
pub open spec fn root_name(root: Seq<u8>) -> Seq<u8> {
    if parts(root).len() > 0 {
        match parts(root).last() {
            Part::Name(name) => name,
            _ => root,
        }
    } else {
        root
    }
}

/// The names among the parts of a path, up to `count`.
pub open spec fn names_among(found: Seq<Part>, count: int) -> Seq<Seq<u8>>
    decreases count,
{
    if count <= 0 {
        Seq::empty()
    } else {
        match found[count - 1] {
            Part::Name(name) => names_among(found, count - 1).push(name),
            _ => names_among(found, count - 1),
        }
    }
}

/// The names of a path below the root. A path that could lead elsewhere has
/// none.
pub open spec fn names_below(path: Seq<u8>) -> Option<Seq<Seq<u8>>> {
    let found = parts(path);
    if path.len() == 0 || exists|i: int|
        0 <= i < found.len() && (#[trigger] found[i] is Root || found[i] is Parent) {
        None
    } else {
        Some(names_among(found, found.len() as int))
    }
}

/// The tree once a change that Git told is shown. A file that is gone gets a
/// node where its directory is open.
pub open spec fn change_shown(tree: NodeView, change: ChangeView) -> NodeView {
    match names_below(change.path) {
        None => tree,
        Some(names) => marked(gone_shown(tree, names, change.status), names, change.status),
    }
}

pub open spec fn gone_shown(tree: NodeView, names: Seq<Seq<u8>>, status: GitStatus) -> NodeView {
    if status == GitStatus::Deleted && find(tree, names) is None {
        match find(tree, names.drop_last()) {
            Some(parent) => if parent.loaded && parent.expanded {
                put(
                    tree,
                    names.drop_last(),
                    NodeView {
                        children: listed(parent.children.push(gone(names.last()))),
                        ..parent
                    },
                )
            } else {
                tree
            },
            None => tree,
        }
    } else {
        tree
    }
}

/// The tree once the first `count` changes are shown.
pub open spec fn changes_shown(tree: NodeView, changes: Seq<ChangeView>, count: int) -> NodeView
    decreases count,
{
    if count <= 0 {
        tree
    } else {
        change_shown(changes_shown(tree, changes, count - 1), changes[count - 1])
    }
}

/// What the directories on the way to a path resolve to, the nearest first.
pub open spec fn targets_on_way(tree: NodeView, path: Seq<Seq<u8>>, count: int) -> Seq<Seq<u8>>
    decreases count,
{
    if count <= 0 {
        Seq::empty()
    } else {
        let nearest = match find(tree, path.take(count - 1)) {
            Some(node) => match node.canonical_dir {
                Some(target) => seq![target],
                None => Seq::empty(),
            },
            None => Seq::empty(),
        };
        nearest + targets_on_way(tree, path, count - 1)
    }
}

pub open spec fn following_id(id: u64) -> u64 {
    if id == u64::MAX {
        1
    } else {
        (id + 1) as u64
    }
}

/// Whether a path leads below a child of a directory that is no longer there.
pub open spec fn below_lost(
    path: Seq<Seq<u8>>,
    directory: Seq<Seq<u8>>,
    children: Seq<NodeView>,
    entries: Seq<EntryView>,
) -> bool {
    &&& path.len() > directory.len()
    &&& path.take(directory.len() as int) == directory
    &&& exists|i: int|
        0 <= i < children.len() && (#[trigger] children[i]).name == path[directory.len() as int]
    &&& forall|i: int|
        0 <= i < entries.len() ==> (#[trigger] entries[i]).name != path[directory.len() as int]
}

/// The loads that are still wanted once the entries of a directory are known.
pub open spec fn still_pending(
    pending: Map<Seq<Seq<u8>>, u64>,
    directory: Seq<Seq<u8>>,
    children: Seq<NodeView>,
    entries: Seq<EntryView>,
) -> Map<Seq<Seq<u8>>, u64> {
    Map::new(
        |path: Seq<Seq<u8>>|
            pending.dom().contains(path) && !below_lost(path, directory, children, entries),
        |path: Seq<Seq<u8>>| pending[path],
    )
}

impl SidebarView {
    pub open spec fn opened(root: Seq<u8>, config: SidebarConfig, now: Instant) -> SidebarView {
        SidebarView {
            root,
            config,
            tree: NodeView {
                name: root_name(root),
                kind: EntryKind::Directory,
                expanded: false,
                loading: false,
                loaded: false,
                error: None,
                children: Seq::empty(),
                canonical_dir: Some(root),
                synthetic_deleted: false,
                git: GitDecoration::plain(),
            },
            selected: None,
            scroll: 0,
            next_id: 1,
            pending: Map::empty(),
            pending_git: None,
            last_git: now,
            git_error: None,
        }
    }

    pub open spec fn is_directory(self, path: Seq<Seq<u8>>) -> bool {
        find(self.tree, path) matches Some(node) && node.kind.directory()
    }

    pub open spec fn with_node(self, path: Seq<Seq<u8>>, node: NodeView) -> SidebarView {
        SidebarView { tree: put(self.tree, path, node), ..self }
    }

    /// Whether a directory has to be read before it can be opened.
    pub open spec fn needs_load(self, path: Seq<Seq<u8>>) -> bool {
        self.is_directory(path) && !find(self.tree, path)->0.loaded
    }

    /// A directory is asked to open.
    pub open spec fn expanding(self, path: Seq<Seq<u8>>) -> SidebarView {
        if !self.is_directory(path) {
            self
        } else if self.needs_load(path) {
            SidebarView { next_id: following_id(self.next_id), ..self }
        } else {
            self.with_node(path, NodeView { expanded: true, ..find(self.tree, path)->0 })
        }
    }

    pub open spec fn load_job(self, path: Seq<Seq<u8>>) -> Option<JobView> {
        if self.needs_load(path) {
            Some(
                JobView::Load {
                    id: self.next_id,
                    path,
                    ancestor_targets: targets_on_way(self.tree, path, path.len() as int),
                    cap: self.config.entry_cap,
                },
            )
        } else {
            None
        }
    }

    /// A load was taken on by the other thread.
    pub open spec fn load_queued(self, path: Seq<Seq<u8>>, id: u64) -> SidebarView {
        match find(self.tree, path) {
            Some(node) => SidebarView {
                tree: put(
                    self.tree,
                    path,
                    NodeView { expanded: true, loading: true, error: None, ..node },
                ),
                pending: self.pending.insert(path, id),
                ..self
            },
            None => self,
        }
    }

    /// What is known of a directory is to be read again.
    pub open spec fn invalidated(self, path: Seq<Seq<u8>>) -> SidebarView {
        if self.is_directory(path) {
            self.with_node(path, NodeView { loaded: false, ..find(self.tree, path)->0 })
        } else {
            self
        }
    }

    pub open spec fn collapsed(self, path: Seq<Seq<u8>>) -> SidebarView {
        let closed = match find(self.tree, path) {
            Some(node) => self.with_node(
                path,
                NodeView { expanded: false, loading: false, ..node },
            ),
            None => self,
        };
        SidebarView { pending: self.pending.remove(path), ..closed }
    }

    pub open spec fn git_asked(self) -> SidebarView {
        if self.pending_git is Some {
            self
        } else {
            SidebarView { next_id: following_id(self.next_id), ..self }
        }
    }

    pub open spec fn git_job(self) -> Option<JobView> {
        if self.pending_git is Some {
            None
        } else {
            Some(JobView::Git { id: self.next_id })
        }
    }

    /// Whether it is time to ask Git again.
    pub open spec fn git_due(self, now: Instant) -> bool {
        self.pending_git is None && now.since(self.last_git)
            >= self.config.git_refresh_interval.nanos
    }

    /// A directory could not be read.
    pub open spec fn load_failed(self, path: Seq<Seq<u8>>, error: Seq<char>) -> SidebarView {
        match find(self.tree, path) {
            Some(node) => self.with_node(
                path,
                NodeView { loading: false, loaded: false, error: Some(error), ..node },
            ),
            None => self,
        }
    }

    pub open spec fn cap_error(self, truncated: bool) -> Option<Seq<char>> {
        if truncated {
            Some("entry cap reached ("@ + decimal(self.config.entry_cap as nat) + ")"@)
        } else {
            None
        }
    }

    /// A directory was read. What was known of its entries is kept, and what is
    /// gone is forgotten, with the loads that were asked for below it.
    pub open spec fn loaded(self, path: Seq<Seq<u8>>, directory: DirectoryView) -> SidebarView {
        match find(self.tree, path) {
            Some(node) => SidebarView {
                tree: put(
                    self.tree,
                    path,
                    NodeView {
                        loading: false,
                        loaded: true,
                        canonical_dir: Some(directory.canonical),
                        error: self.cap_error(directory.truncated),
                        children: refreshed_children(node.children, directory.entries),
                        ..node
                    },
                ),
                pending: still_pending(self.pending, path, node.children, directory.entries),
                ..self
            },
            None => self,
        }
    }

    /// Whether a reply to a load is the one that is waited for.
    pub open spec fn awaits(self, path: Seq<Seq<u8>>, id: u64) -> bool {
        self.pending.dom().contains(path) && self.pending[path] == id
    }

    pub open spec fn answered(self, path: Seq<Seq<u8>>) -> SidebarView {
        SidebarView { pending: self.pending.remove(path), ..self }
    }

    pub open spec fn load_replied(
        self,
        path: Seq<Seq<u8>>,
        id: u64,
        result: Result<DirectoryView, Seq<char>>,
    ) -> SidebarView {
        if !self.awaits(path, id) {
            self
        } else {
            match result {
                Ok(directory) => self.answered(path).loaded(path, directory),
                Err(error) => self.answered(path).load_failed(path, error),
            }
        }
    }

    pub open spec fn git_shown(self, changes: Seq<ChangeView>) -> SidebarView {
        SidebarView {
            tree: changes_shown(cleared(self.tree), changes, changes.len() as int),
            ..self
        }
    }

    pub open spec fn git_replied(
        self,
        id: u64,
        result: Result<Seq<ChangeView>, Seq<char>>,
    ) -> SidebarView {
        if self.pending_git != Some(id) {
            self
        } else {
            let answered = SidebarView { pending_git: None, ..self };
            match result {
                Ok(changes) => SidebarView { git_error: None, ..answered }.git_shown(changes),
                Err(error) => SidebarView {
                    git_error: Some(error),
                    tree: cleared(self.tree),
                    ..answered
                },
            }
        }
    }

    /// All rows, before the view is scrolled.
    pub open spec fn rows(self) -> Seq<RowView> {
        rows_of(self.tree, Seq::empty(), self.selected)
    }

    /// The rows in a view of the given height.
    pub open spec fn rows_in_view(self, height: int) -> Seq<RowView> {
        let all = self.rows();
        let first = if self.scroll <= all.len() {
            self.scroll as int
        } else {
            all.len() as int
        };
        let last = if first + height <= all.len() {
            first + height
        } else {
            all.len() as int
        };
        all.subrange(first, last)
    }

    /// The path of the row under the pointer.
    pub open spec fn clicked_path(self, row: int, height: int) -> Option<Seq<Seq<u8>>> {
        if row < height && self.scroll + row < self.rows().len() {
            Some(self.rows()[self.scroll + row].path)
        } else {
            None
        }
    }

    /// A click selects a row, and opens or closes a directory.
    pub open spec fn clicked(self, path: Seq<Seq<u8>>) -> SidebarView {
        let chosen = SidebarView { selected: Some(path), ..self };
        if self.is_directory(path) {
            if find(self.tree, path)->0.expanded {
                chosen.collapsed(path)
            } else {
                chosen.expanding(path)
            }
        } else {
            chosen
        }
    }

    pub open spec fn click_job(self, path: Seq<Seq<u8>>) -> Option<JobView> {
        if self.is_directory(path) && !find(self.tree, path)->0.expanded {
            self.load_job(path)
        } else {
            None
        }
    }

    /// The first row in view after scrolling: never past the last viewful.
    pub open spec fn scroll_goal(self, delta: int, height: int) -> int {
        let total = self.rows().len();
        let maximum = if total > height {
            total - height
        } else {
            0
        };
        let wanted = self.scroll + delta;
        if wanted < 0 {
            0
        } else if wanted > maximum {
            maximum
        } else {
            wanted
        }
    }
}

/// The names of a path below the root, as it is shown in the tree.
pub fn safe_join(path: &FilePath) -> (names: Option<Vec<Vec<u8>>>)
    ensures
        names is Some <==> names_below(path@) is Some,
        names matches Some(n) ==> names_below(path@) == Some(byte_strings(n@)),
{
    if path.bytes.len() == 0 {
        return None;
    }
    let found = path.components();
    let ghost all = parts(path@);
    let mut names: Vec<Vec<u8>> = Vec::new();
    let mut i: usize = 0;
    assert(byte_strings(names@) =~= names_among(all, 0));
    while i < found.len()
        invariant
            i <= found@.len(),
            path@.len() > 0,
            all == parts(path@),
            crate::path::part_views(found@) == all,
            forall|j: int| 0 <= j < i ==> #[trigger] all[j] !is Root && all[j] !is Parent,
            byte_strings(names@) == names_among(all, i as int),
        decreases found@.len() - i,
    {
        assert(all[i as int] == found@[i as int]@);
        let ghost before = byte_strings(names@);
        match &found[i] {
            Component::Root | Component::Parent => return None,
            Component::Current => {},
            Component::Name(name) => {
                names.push(copy_bytes(name));
                assert(byte_strings(names@) =~= before.push(name@));
            },
        }
        i += 1;
    }
    Some(names)
}

/// A list that holds the loads of another, except those that a test drops.
fn without_path(pending: &Vec<PendingLoad>, path: &Vec<Vec<u8>>) -> (kept: Vec<PendingLoad>)
    ensures
        pending_map(kept@) == pending_map(pending@).remove(byte_strings(path@)),
{
    let ghost dropped = byte_strings(path@);
    let mut kept: Vec<PendingLoad> = Vec::new();
    let mut i: usize = 0;
    assert(pending_map(kept@) =~= pending_map(pending@.take(0)).remove(dropped));
    while i < pending.len()
        invariant
            i <= pending@.len(),
            dropped == byte_strings(path@),
            pending_map(kept@) == pending_map(pending@.take(i as int)).remove(dropped),
        decreases pending@.len() - i,
    {
        let ghost next = pending@.take(i + 1);
        let ghost before = kept@;
        assert(next.drop_last() =~= pending@.take(i as int));
        if !same_names(&pending[i].path, path) {
            kept.push(PendingLoad { path: copy_names(&pending[i].path), id: pending[i].id });
            assert(kept@.drop_last() =~= before);
        }
        assert(pending_map(kept@) =~= pending_map(next).remove(dropped));
        i += 1;
    }
    assert(pending@.take(i as int) =~= pending@);
    kept
}

fn has_entry(entries: &Vec<LoadedEntry>, name: &Vec<u8>) -> (result: bool)
    ensures
        result == exists|i: int|
            0 <= i < entries@.len() && (#[trigger] entry_views(entries@)[i]).name == name@,
{
    let ghost views = entry_views(entries@);
    let mut i: usize = 0;
    while i < entries.len()
        invariant
            i <= entries@.len(),
            views == entry_views(entries@),
            forall|j: int| 0 <= j < i ==> (#[trigger] views[j]).name != name@,
        decreases entries@.len() - i,
    {
        assert(views[i as int] == entries@[i as int]@);
        if same_bytes(entries[i].name.as_slice(), name.as_slice()) {
            return true;
        }
        i += 1;
    }
    false
}

fn has_child(node: &Node, name: &Vec<u8>) -> (result: bool)
    ensures
        result == exists|i: int|
            0 <= i < node@.children.len() && (#[trigger] node@.children[i]).name == name@,
{
    broadcast use children_are_views;

    let ghost views = node@.children;
    let mut i: usize = 0;
    assert(views =~= node.children@.map_values(|child: Node| node_view(child)));
    while i < node.children.len()
        invariant
            i <= node.children@.len(),
            views == node@.children,
            views == node.children@.map_values(|child: Node| node_view(child)),
            forall|j: int| 0 <= j < i ==> (#[trigger] views[j]).name != name@,
        decreases node.children@.len() - i,
    {
        assert(views[i as int] == node_view(node.children@[i as int]));
        if same_bytes(node.children[i].name.as_slice(), name.as_slice()) {
            return true;
        }
        i += 1;
    }
    false
}

fn starts_with_names(path: &Vec<Vec<u8>>, start: &Vec<Vec<u8>>) -> (result: bool)
    ensures
        result == (byte_strings(start@).len() <= byte_strings(path@).len() && byte_strings(
            path@,
        ).take(byte_strings(start@).len() as int) == byte_strings(start@)),
{
    let ghost p = byte_strings(path@);
    let ghost s = byte_strings(start@);
    if start.len() > path.len() {
        return false;
    }
    let mut i: usize = 0;
    while i < start.len()
        invariant
            i <= start@.len() <= path@.len(),
            p == byte_strings(path@),
            s == byte_strings(start@),
            forall|j: int| 0 <= j < i ==> p[j] == s[j],
        decreases start@.len() - i,
    {
        assert(p[i as int] == path@[i as int]@ && s[i as int] == start@[i as int]@);
        if !same_bytes(path[i].as_slice(), start[i].as_slice()) {
            assert(p.take(s.len() as int)[i as int] != s[i as int]);
            return false;
        }
        i += 1;
    }
    assert(p.take(s.len() as int) =~= s);
    true
}

fn is_below_lost(
    path: &Vec<Vec<u8>>,
    directory: &Vec<Vec<u8>>,
    node: &Node,
    entries: &Vec<LoadedEntry>,
) -> (result: bool)
    ensures
        result == below_lost(
            byte_strings(path@),
            byte_strings(directory@),
            node@.children,
            entry_views(entries@),
        ),
{
    if path.len() <= directory.len() || !starts_with_names(path, directory) {
        return false;
    }
    let name: &Vec<u8> = &path[directory.len()];
    assert(byte_strings(path@)[directory@.len() as int] == name@);
    has_child(node, name) && !has_entry(entries, name)
}

/// The loads that are still wanted once the entries of a directory are known.
fn wanted_loads(
    pending: &Vec<PendingLoad>,
    directory: &Vec<Vec<u8>>,
    node: &Node,
    entries: &Vec<LoadedEntry>,
) -> (kept: Vec<PendingLoad>)
    ensures
        pending_map(kept@) == still_pending(
            pending_map(pending@),
            byte_strings(directory@),
            node@.children,
            entry_views(entries@),
        ),
{
    let ghost d = byte_strings(directory@);
    let ghost views = entry_views(entries@);
    let mut kept: Vec<PendingLoad> = Vec::new();
    let mut i: usize = 0;
    assert(pending_map(kept@) =~= still_pending(
        pending_map(pending@.take(0)),
        d,
        node@.children,
        views,
    ));
    while i < pending.len()
        invariant
            i <= pending@.len(),
            d == byte_strings(directory@),
            views == entry_views(entries@),
            pending_map(kept@) == still_pending(
                pending_map(pending@.take(i as int)),
                d,
                node@.children,
                views,
            ),
        decreases pending@.len() - i,
    {
        let ghost next = pending@.take(i + 1);
        let ghost before = kept@;
        assert(next.drop_last() =~= pending@.take(i as int));
        if !is_below_lost(&pending[i].path, directory, node, entries) {
            kept.push(PendingLoad { path: copy_names(&pending[i].path), id: pending[i].id });
            assert(kept@.drop_last() =~= before);
        }
        assert(pending_map(kept@) =~= still_pending(pending_map(next), d, node@.children, views));
        i += 1;
    }
    assert(pending@.take(i as int) =~= pending@);
    kept
}

impl Sidebar {
    pub fn new(root: FilePath, now: Instant) -> (sidebar: Sidebar)
        ensures
            sidebar@ == SidebarView::opened(
                root@,
                SidebarConfig {
                    entry_cap: DEFAULT_ENTRY_CAP,
                    channel_capacity: 8,
                    git_refresh_interval: Duration { nanos: 3_000_000_000 },
                },
                now,
            ),
    {
        Sidebar::open(root, SidebarConfig::default(), now)
    }

    pub fn with_config(root: FilePath, config: SidebarConfig, now: Instant) -> (sidebar: Result<
        Sidebar,
        InvalidConfig,
    >)
        ensures
            sidebar is Err <==> config.entry_cap == 0 || config.channel_capacity == 0,
            sidebar matches Ok(s) ==> s@ == SidebarView::opened(root@, config, now),
    {
        if config.entry_cap == 0 || config.channel_capacity == 0 {
            return Err(InvalidConfig);
        }
        Ok(Sidebar::open(root, config, now))
    }

    fn open(root: FilePath, config: SidebarConfig, now: Instant) -> (sidebar: Sidebar)
        ensures
            sidebar@ == SidebarView::opened(root@, config, now),
    {
        let found = root.components();
        assert(crate::path::part_views(found@) == parts(root@));
        let name: Vec<u8> = if found.len() > 0 {
            assert(parts(root@).last() == found@[found@.len() - 1]@);
            match &found[found.len() - 1] {
                Component::Name(name) => copy_bytes(name),
                _ => copy_bytes(&root.bytes),
            }
        } else {
            assert(parts(root@).len() == 0);
            copy_bytes(&root.bytes)
        };
        let mut tree = Node::plain(name, EntryKind::Directory);
        tree.canonical_dir = Some(root.copy());
        proof {
            children_are_views(tree);
        }
        assert(tree@.children =~= Seq::empty());
        Sidebar {
            root,
            config,
            tree,
            selected: None,
            scroll: 0,
            next_id: 1,
            pending_loads: Vec::new(),
            pending_git: None,
            last_git_request: now,
            git_error: None,
        }
    }

    pub fn root(&self) -> (root: &FilePath)
        ensures
            root@ == self@.root,
    {
        &self.root
    }

    fn take_id(&mut self) -> (id: u64)
        ensures
            id == old(self)@.next_id,
            final(self)@ == (SidebarView {
                next_id: following_id(old(self)@.next_id),
                ..old(self)@
            }),
    {
        let id: u64 = self.next_id;
        self.next_id = if id == u64::MAX {
            1
        } else {
            id + 1
        };
        id
    }

    fn ancestor_targets(&self, path: &Vec<Vec<u8>>) -> (targets: Vec<FilePath>)
        ensures
            path_views(targets@) == targets_on_way(
                self@.tree,
                byte_strings(path@),
                path@.len() as int,
            ),
    {
        let ghost names = byte_strings(path@);
        let ghost total = path@.len() as int;
        let mut targets: Vec<FilePath> = Vec::new();
        let mut above = copy_names(path);
        assert(names.take(total) =~= names);
        assert(path_views(targets@) + targets_on_way(self@.tree, names, total) =~= targets_on_way(
            self@.tree,
            names,
            total,
        ));
        while above.len() > 0
            invariant
                names == byte_strings(path@),
                total == names.len(),
                above@.len() <= total,
                byte_strings(above@) == names.take(above@.len() as int),
                path_views(targets@) + targets_on_way(self@.tree, names, above@.len() as int)
                    == targets_on_way(self@.tree, names, total),
            decreases above@.len(),
        {
            let ghost count = above@.len() as int;
            let ghost before = path_views(targets@);
            above.pop();
            assert(byte_strings(above@) =~= names.take(count - 1));
            assert(byte_strings(above@).skip(0) =~= byte_strings(above@));
            let ghost rest = targets_on_way(self@.tree, names, count - 1);
            match self.tree.get(&above, 0) {
                Some(node) => match &node.canonical_dir {
                    Some(target) => {
                        targets.push(target.copy());
                        assert(path_views(targets@) =~= before.push(target@));
                        assert(before + (seq![target@] + rest) =~= path_views(targets@) + rest);
                    },
                    None => {
                        assert(before + (Seq::empty() + rest) =~= before + rest);
                    },
                },
                None => {
                    assert(before + (Seq::empty() + rest) =~= before + rest);
                },
            }
        }
        assert(path_views(targets@) + Seq::<Seq<u8>>::empty() =~= path_views(targets@));
        targets
    }

    /// Expands and loads the root and asks Git.
    pub fn request_initial(&mut self) -> (jobs: (Option<Job>, Option<Job>))
        ensures
            final(self)@ == old(self)@.expanding(Seq::empty()).git_asked(),
            jobs.0 is Some <==> old(self)@.load_job(Seq::empty()) is Some,
            jobs.0 matches Some(j) ==> old(self)@.load_job(Seq::empty()) == Some(j@),
            jobs.1 is Some <==> old(self)@.expanding(Seq::empty()).git_job() is Some,
            jobs.1 matches Some(j) ==> old(self)@.expanding(Seq::empty()).git_job() == Some(j@),
    {
        let root: Vec<Vec<u8>> = Vec::new();
        assert(byte_strings(root@) =~= Seq::empty());
        let load = self.request_expand(&root);
        let git = self.request_git_refresh();
        (load, git)
    }

    /// Expands a directory. Where it has to be read first, the job asks for it,
    /// and it opens once the job is queued.
    pub fn request_expand(&mut self, path: &Vec<Vec<u8>>) -> (job: Option<Job>)
        ensures
            final(self)@ == old(self)@.expanding(byte_strings(path@)),
            job is Some <==> old(self)@.load_job(byte_strings(path@)) is Some,
            job matches Some(j) ==> old(self)@.load_job(byte_strings(path@)) == Some(j@),
    {
        broadcast use children_are_views;

        let ghost names = byte_strings(path@);
        assert(names.skip(0) =~= names);
        let loaded: bool = match self.tree.get(path, 0) {
            Some(node) => if node.kind.is_directory() {
                node.loaded
            } else {
                return None;
            },
            None => return None,
        };
        if loaded {
            if let Some(node) = self.tree.get_mut(path, 0) {
                node.expanded = true;
            }
            assert(self@ =~= old(self)@.expanding(names));
            return None;
        }
        let ancestor_targets = self.ancestor_targets(path);
        let id: u64 = self.take_id();
        Some(
            Job::Load { id, path: copy_names(path), ancestor_targets, cap: self.config.entry_cap },
        )
    }

    /// Notes that a job was taken on by the other thread.
    pub fn job_queued(&mut self, job: &Job, now: Instant)
        ensures
            final(self)@ == match job@ {
                JobView::Load { id, path, .. } => old(self)@.load_queued(path, id),
                JobView::Git { id } => SidebarView {
                    pending_git: Some(id),
                    last_git: now,
                    ..old(self)@
                },
            },
    {
        broadcast use children_are_views;

        match job {
            Job::Load { id, path, .. } => {
                let ghost names = byte_strings(path@);
                assert(names.skip(0) =~= names);
                let ghost known = self.pending_loads@;
                let found: bool = match self.tree.get_mut(path, 0) {
                    Some(node) => {
                        node.expanded = true;
                        node.loading = true;
                        node.error = None;
                        true
                    },
                    None => false,
                };
                if found {
                    let mut pending = without_path(&self.pending_loads, path);
                    let ghost before = pending@;
                    pending.push(PendingLoad { path: copy_names(path), id: *id });
                    assert(pending@.drop_last() =~= before);
                    self.pending_loads = pending;
                    assert(pending_map(self.pending_loads@) =~= pending_map(known).insert(
                        names,
                        *id,
                    ));
                }
                assert(self@ =~= old(self)@.load_queued(names, *id));
            },
            Job::Git { id } => {
                self.pending_git = Some(*id);
                self.last_git_request = now;
            },
        }
    }

    /// Reads a directory again. Replies to what was asked before are not taken.
    pub fn request_reload(&mut self, path: &Vec<Vec<u8>>) -> (job: Option<Job>)
        ensures
            final(self)@ == old(self)@.invalidated(byte_strings(path@)).expanding(
                byte_strings(path@),
            ),
            job is Some <==> old(self)@.invalidated(byte_strings(path@)).load_job(
                byte_strings(path@),
            ) is Some,
            job matches Some(j) ==> old(self)@.invalidated(byte_strings(path@)).load_job(
                byte_strings(path@),
            ) == Some(j@),
    {
        broadcast use children_are_views;

        let ghost names = byte_strings(path@);
        assert(names.skip(0) =~= names);
        let directory: bool = match self.tree.get(path, 0) {
            Some(node) => node.kind.is_directory(),
            None => false,
        };
        if directory {
            if let Some(node) = self.tree.get_mut(path, 0) {
                node.loaded = false;
            }
        }
        assert(self@ =~= old(self)@.invalidated(names));
        self.request_expand(path)
    }

    pub fn collapse(&mut self, path: &Vec<Vec<u8>>)
        ensures
            final(self)@ == old(self)@.collapsed(byte_strings(path@)),
    {
        broadcast use children_are_views;

        let ghost names = byte_strings(path@);
        assert(names.skip(0) =~= names);
        if let Some(node) = self.tree.get_mut(path, 0) {
            node.expanded = false;
            node.loading = false;
        }
        self.pending_loads = without_path(&self.pending_loads, path);
        assert(self@ =~= old(self)@.collapsed(names));
    }

    /// Asks Git, unless it was asked and has not answered.
    pub fn request_git_refresh(&mut self) -> (job: Option<Job>)
        ensures
            final(self)@ == old(self)@.git_asked(),
            job is Some <==> old(self)@.git_job() is Some,
            job matches Some(j) ==> old(self)@.git_job() == Some(j@),
    {
        if self.pending_git.is_some() {
            return None;
        }
        let id: u64 = self.take_id();
        Some(Job::Git { id })
    }

    /// Asks Git again once it is time.
    pub fn tick(&mut self, now: Instant) -> (job: Option<Job>)
        ensures
            final(self)@ == if old(self)@.git_due(now) {
                old(self)@.git_asked()
            } else {
                old(self)@
            },
            job is Some <==> old(self)@.git_due(now),
            job matches Some(j) ==> old(self)@.git_job() == Some(j@),
    {
        if self.pending_git.is_none() && now.saturating_duration_since(self.last_git_request).nanos
            >= self.config.git_refresh_interval.nanos {
            self.request_git_refresh()
        } else {
            None
        }
    }

    fn flatten_rows(&self) -> (rows: Vec<SidebarRow>)
        ensures
            row_views(rows@) == self@.rows(),
    {
        let mut rows: Vec<SidebarRow> = Vec::new();
        let root: Vec<Vec<u8>> = Vec::new();
        assert(byte_strings(root@) =~= Seq::empty());
        assert(row_views(rows@) =~= Seq::empty());
        self.tree.flatten(&root, &self.selected, &mut rows);
        assert(Seq::empty() + self@.rows() =~= self@.rows());
        rows
    }

    /// Rows after expansion and scroll are applied, limited to `viewport_rows`.
    pub fn visible_rows(&self, viewport_rows: usize) -> (rows: Vec<SidebarRow>)
        ensures
            row_views(rows@) == self@.rows_in_view(viewport_rows as int),
    {
        let mut rows = self.flatten_rows();
        let ghost all = rows@;
        let first: usize = if self.scroll <= rows.len() {
            self.scroll
        } else {
            rows.len()
        };
        let mut shown = rows.split_off(first);
        if viewport_rows < shown.len() {
            shown.truncate(viewport_rows);
        }
        proof {
            let view = self@.rows_in_view(viewport_rows as int);
            assert(row_views(all) == self@.rows());
            assert(row_views(shown@) =~= view);
        }
        shown
    }

    /// All expanded rows, before scroll and viewport clipping.
    pub fn all_visible_rows(&self) -> (rows: Vec<SidebarRow>)
        ensures
            row_views(rows@) == self@.rows(),
    {
        self.flatten_rows()
    }

    /// Selects a row relative to the current viewport and toggles directories.
    pub fn click_visible_row(&mut self, row: usize, viewport_rows: usize) -> (result: (
        Option<Vec<Vec<u8>>>,
        Option<Job>,
    ))
        ensures
            path_view(result.0) == old(self)@.clicked_path(row as int, viewport_rows as int),
            final(self)@ == match old(self)@.clicked_path(row as int, viewport_rows as int) {
                Some(path) => old(self)@.clicked(path),
                None => old(self)@,
            },
            result.1 is Some <==> (old(self)@.clicked_path(
                row as int,
                viewport_rows as int,
            ) matches Some(path) && old(self)@.click_job(path) is Some),
            result.1 matches Some(job) ==> (old(self)@.clicked_path(
                row as int,
                viewport_rows as int,
            ) matches Some(path) && old(self)@.click_job(path) == Some(job@)),
    {
        if row >= viewport_rows {
            return (None, None);
        }
        let rows = self.flatten_rows();
        if self.scroll >= rows.len() || row >= rows.len() - self.scroll {
            return (None, None);
        }
        let at: usize = self.scroll + row;
        let path = copy_names(&rows[at].path);
        let ghost names = byte_strings(path@);
        assert(row_views(rows@)[at as int] == rows@[at as int]@);
        assert(names == self@.rows()[at as int].path);
        assert(names.skip(0) =~= names);
        self.selected = Some(copy_names(&path));
        let ghost chosen = self@;
        assert(chosen =~= (SidebarView { selected: Some(names), ..old(self)@ }));
        let mut job: Option<Job> = None;
        let state: Option<bool> = match self.tree.get(&path, 0) {
            Some(node) => if node.kind.is_directory() {
                Some(node.expanded)
            } else {
                None
            },
            None => None,
        };
        match state {
            Some(expanded) => {
                if expanded {
                    self.collapse(&path);
                } else {
                    job = self.request_expand(&path);
                }
            },
            None => {},
        }
        (Some(path), job)
    }

    pub fn scroll(&mut self, delta: isize, viewport_rows: usize)
        ensures
            final(self)@ == (SidebarView {
                scroll: old(self)@.scroll_goal(delta as int, viewport_rows as int) as usize,
                ..old(self)@
            }),
    {
        let rows = self.flatten_rows();
        let total: usize = rows.len();
        assert(row_views(rows@).len() == total);
        let maximum: usize = if total > viewport_rows {
            total - viewport_rows
        } else {
            0
        };
        let wanted: i128 = self.scroll as i128 + delta as i128;
        self.scroll = if wanted < 0 {
            0
        } else if wanted > maximum as i128 {
            maximum
        } else {
            wanted as usize
        };
    }

    pub fn scroll_offset(&self) -> (offset: usize)
        ensures
            offset == self@.scroll,
    {
        self.scroll
    }

    pub fn selected_path(&self) -> (path: Option<&Vec<Vec<u8>>>)
        ensures
            path is Some <==> self@.selected is Some,
            path matches Some(p) ==> self@.selected == Some(byte_strings(p@)),
    {
        self.selected.as_ref()
    }

    /// What went wrong when Git was last asked. The tree is then shown without
    /// marks.
    pub fn git_error(&self) -> (error: Option<&str>)
        ensures
            error is Some <==> self@.git_error is Some,
            error matches Some(text) ==> self@.git_error == Some(text@),
    {
        match &self.git_error {
            Some(error) => Some(error.as_str()),
            None => None,
        }
    }

    fn pending_id(&self, path: &Vec<Vec<u8>>) -> (id: Option<u64>)
        ensures
            id is Some <==> self@.pending.dom().contains(byte_strings(path@)),
            id matches Some(found) ==> found == self@.pending[byte_strings(path@)],
    {
        let ghost names = byte_strings(path@);
        let mut i: usize = self.pending_loads.len();
        assert(self.pending_loads@.take(i as int) =~= self.pending_loads@);
        while i > 0
            invariant
                i <= self.pending_loads@.len(),
                names == byte_strings(path@),
                pending_map(self.pending_loads@.take(i as int)).dom().contains(names)
                    == self@.pending.dom().contains(names),
                pending_map(self.pending_loads@.take(i as int))[names] == self@.pending[names],
            decreases i,
        {
            let ghost shown = self.pending_loads@.take(i as int);
            i -= 1;
            assert(shown.drop_last() =~= self.pending_loads@.take(i as int));
            if same_names(&self.pending_loads[i].path, path) {
                return Some(self.pending_loads[i].id);
            }
        }
        None
    }

    fn cap_message(&self, truncated: bool) -> (message: Option<String>)
        ensures
            message is Some <==> self@.cap_error(truncated) is Some,
            message matches Some(text) ==> self@.cap_error(truncated) == Some(text@),
    {
        if truncated {
            let mut text = "entry cap reached (".to_owned();
            text.append(decimal_text(self.config.entry_cap as u64).as_str());
            text.append(")");
            Some(text)
        } else {
            None
        }
    }

    /// Takes the reply to a load; tells whether it changed anything.
    pub fn apply_load(
        &mut self,
        id: u64,
        path: &Vec<Vec<u8>>,
        result: Result<LoadedDirectory, String>,
    ) -> (changed: bool)
        ensures
            final(self)@ == old(self)@.load_replied(
                byte_strings(path@),
                id,
                match result {
                    Ok(directory) => Ok(directory@),
                    Err(error) => Err(error@),
                },
            ),
            changed == (old(self)@.awaits(byte_strings(path@), id) && find(
                old(self)@.tree,
                byte_strings(path@),
            ) is Some),
    {
        broadcast use children_are_views;

        let ghost names = byte_strings(path@);
        assert(names.skip(0) =~= names);
        let awaited: bool = match self.pending_id(path) {
            Some(pending) => pending == id,
            None => false,
        };
        if !awaited {
            return false;
        }
        self.pending_loads = without_path(&self.pending_loads, path);
        let ghost answered = self@;
        assert(answered =~= old(self)@.answered(names));
        match result {
            Err(error) => match self.tree.get_mut(path, 0) {
                Some(node) => {
                    node.loading = false;
                    node.error = Some(error);
                    node.loaded = false;
                    true
                },
                None => false,
            },
            Ok(directory) => {
                let message = self.cap_message(directory.truncated);
                let pending = match self.tree.get(path, 0) {
                    Some(node) => wanted_loads(
                        &self.pending_loads,
                        path,
                        node,
                        &directory.entries,
                    ),
                    None => return false,
                };
                self.pending_loads = pending;
                match self.tree.get_mut(path, 0) {
                    Some(node) => {
                        node.loading = false;
                        node.loaded = true;
                        node.canonical_dir = Some(directory.canonical.copy());
                        node.error = message;
                        node.set_entries(&directory.entries);
                    },
                    None => {},
                }
                assert(self@ =~= answered.loaded(names, directory@));
                true
            },
        }
    }

    /// Takes the reply of Git; tells whether it changed anything.
    pub fn apply_git_reply(&mut self, id: u64, result: Result<Vec<GitChange>, String>) -> (changed:
        bool)
        ensures
            final(self)@ == old(self)@.git_replied(
                id,
                match result {
                    Ok(changes) => Ok(change_views(changes@)),
                    Err(error) => Err(error@),
                },
            ),
            changed == (old(self)@.pending_git == Some(id)),
    {
        let awaited: bool = match self.pending_git {
            Some(pending) => pending == id,
            None => false,
        };
        if !awaited {
            return false;
        }
        self.pending_git = None;
        match result {
            Ok(changes) => {
                self.git_error = None;
                self.apply_git(&changes);
            },
            Err(error) => {
                self.git_error = Some(error);
                self.tree.clear_git();
            },
        }
        true
    }

    /// Shows what Git told, in place of what it told before.
    pub fn apply_git(&mut self, changes: &Vec<GitChange>)
        ensures
            final(self)@ == old(self)@.git_shown(change_views(changes@)),
    {
        self.tree.clear_git();
        let ghost base = self.tree@;
        let ghost views = change_views(changes@);
        let mut i: usize = 0;
        while i < changes.len()
            invariant
                i <= changes@.len(),
                views == change_views(changes@),
                base == cleared(old(self)@.tree),
                self@ == (SidebarView {
                    tree: changes_shown(base, views, i as int),
                    ..old(self)@
                }),
            decreases changes@.len() - i,
        {
            assert(views[i as int] == changes@[i as int]@);
            self.apply_change(&changes[i]);
            i += 1;
        }
    }

    fn apply_change(&mut self, change: &GitChange)
        ensures
            final(self)@ == (SidebarView {
                tree: change_shown(old(self)@.tree, change@),
                ..old(self)@
            }),
    {
        let names = match safe_join(&change.path) {
            Some(names) => names,
            None => return,
        };
        let ghost path = byte_strings(names@);
        assert(path.skip(0) =~= path);
        if change.status == GitStatus::Deleted && self.tree.get(&names, 0).is_none() {
            self.show_gone(&names);
        }
        self.tree.mark(&names, 0, change.status);
    }

    fn show_gone(&mut self, names: &Vec<Vec<u8>>)
        requires
            find(old(self)@.tree, byte_strings(names@)) is None,
        ensures
            final(self)@ == (SidebarView {
                tree: gone_shown(old(self)@.tree, byte_strings(names@), GitStatus::Deleted),
                ..old(self)@
            }),
    {
        let ghost path = byte_strings(names@);
        assert(path.len() == names@.len());
        let mut above = copy_names(names);
        let name: Vec<u8> = match above.pop() {
            Some(name) => name,
            None => return,
        };
        assert(name@ == path.last());
        assert(byte_strings(above@) =~= path.drop_last());
        assert(byte_strings(above@).skip(0) =~= path.drop_last());
        let open: bool = match self.tree.get(&above, 0) {
            Some(parent) => parent.loaded && parent.expanded,
            None => false,
        };
        if open {
            if let Some(parent) = self.tree.get_mut(&above, 0) {
                parent.add_gone(name);
            }
        }
    }
}

/// A reply that is not waited for changes nothing. None is waited for once a
/// directory is closed, and none but the last once it was asked for again.
pub proof fn stale_replies_are_dropped(
    sidebar: SidebarView,
    path: Seq<Seq<u8>>,
    stale: u64,
    id: u64,
    reply: Result<DirectoryView, Seq<char>>,
)
    ensures
        !sidebar.awaits(path, stale) ==> sidebar.load_replied(path, stale, reply) == sidebar,
        sidebar.collapsed(path).load_replied(path, stale, reply) == sidebar.collapsed(path),
        stale != id && find(sidebar.tree, path) is Some ==> sidebar.load_queued(
            path,
            id,
        ).load_replied(path, stale, reply) == sidebar.load_queued(path, id),
{
}

/// A directory that is closed takes one row, its own: loading goes on unseen and
/// its reply is not taken.
pub proof fn collapsing_closes(sidebar: SidebarView, path: Seq<Seq<u8>>)
    requires
        find(sidebar.tree, path) is Some,
    ensures
        find(sidebar.collapsed(path).tree, path) matches Some(node) && !node.expanded
            && !node.loading && rows_of(node, path, sidebar.selected) == seq![
            row_of(node, path, sidebar.selected),
        ],
        !sidebar.collapsed(path).pending.dom().contains(path),
{
    let node = find(sidebar.tree, path)->0;
    what_is_put_is_found(
        sidebar.tree,
        path,
        NodeView { expanded: false, loading: false, ..node },
    );
}

/// A directory that was read shows its entries in the order in which they were
/// listed, and those that were open stay open.
pub proof fn loading_keeps_what_was_open(
    sidebar: SidebarView,
    path: Seq<Seq<u8>>,
    directory: DirectoryView,
    at: int,
)
    requires
        find(sidebar.tree, path) is Some,
        0 <= at < directory.entries.len(),
    ensures
        find(sidebar.loaded(path, directory).tree, path) matches Some(after) && {
            let before = find(sidebar.tree, path)->0;
            let entry = directory.entries[at];
            &&& after.children.len() == directory.entries.len()
            &&& after.children[at].name == entry.name
            &&& after.children[at].kind == entry.kind
            &&& after.children[at].expanded <==> (child_named(
                before.children,
                entry.name,
            ) matches Some(known) && known.expanded)
        },
{
    let node = find(sidebar.tree, path)->0;
    what_is_put_is_found(
        sidebar.tree,
        path,
        NodeView {
            loading: false,
            loaded: true,
            canonical_dir: Some(directory.canonical),
            error: sidebar.cap_error(directory.truncated),
            children: refreshed_children(node.children, directory.entries),
            ..node
        },
    );
}

/// A file that Git says was deleted is shown as such in a directory that is
/// open, and everything that leads to it is marked.
pub proof fn deleted_files_are_shown(tree: NodeView, change: ChangeView, names: Seq<Seq<u8>>)
    requires
        change.status == GitStatus::Deleted,
        names_below(change.path) == Some(names),
        find(tree, names) is None,
        find(tree, names.drop_last()) matches Some(parent) && parent.loaded && parent.expanded
            && parent.children.len() < usize::MAX,
    ensures
        find(change_shown(tree, change), names) matches Some(node) && node.kind
            == EntryKind::Deleted && node.git.status == Some(GitStatus::Deleted),
        find(change_shown(tree, change), names.drop_last()) matches Some(node)
            && node.git.dirty_descendant,
        change_shown(tree, change).git.dirty_descendant,
{
    let above = names.drop_last();
    let parent = find(tree, above)->0;
    let shown = gone_shown(tree, names, GitStatus::Deleted);
    let children = parent.children.push(gone(names.last()));
    let opened = NodeView { children: listed(children), ..parent };
    what_is_put_is_found(tree, above, opened);
    found_below(tree, above, names.last());
    assert(above.push(names.last()) =~= names);
    lemma_index_of(parent.children, names.last());
    let last = parent.children.len() as int;
    assert forall|i: int| 0 <= i < children.len() && i != last implies (#[trigger] children[i]).name
        != children[last].name by {
        assert(children[i] == parent.children[i]);
    }
    listing_keeps_names(children, last);
    found_below(shown, above, names.last());
    assert(names.take(names.len() as int) =~= names);
    assert(names.take(names.len() - 1) =~= above);
    assert(names.take(0) =~= Seq::empty());
    changes_mark_what_leads_to_them(shown, names, GitStatus::Deleted, names.len() as int);
    changes_mark_what_leads_to_them(shown, names, GitStatus::Deleted, names.len() - 1);
    changes_mark_what_leads_to_them(shown, names, GitStatus::Deleted, 0);
}

/// A child is found below the directory that it is in.
proof fn found_below(tree: NodeView, path: Seq<Seq<u8>>, name: Seq<u8>)
    requires
        find(tree, path) is Some,
    ensures
        find(tree, path.push(name)) == child_named(find(tree, path)->0.children, name),
    decreases path.len(),
{
    let longer = path.push(name);
    if path.len() == 0 {
        reveal_with_fuel(find, 2);
        assert(longer.skip(1) =~= Seq::empty());
        lemma_index_of(tree.children, name);
    } else {
        let at = index_of(tree.children, path[0]) as int;
        assert(longer[0] == path[0]);
        assert(longer.skip(1) =~= path.skip(1).push(name));
        found_below(tree.children[at], path.skip(1), name);
    }
}

/// A path that Git tells never leads out of the workspace: it starts neither at
/// the root of the file system nor goes up.
pub proof fn told_paths_stay_inside(path: Seq<u8>)
    ensures
        crate::path::is_absolute(path) ==> names_below(path) is None,
        path.len() == 0 ==> names_below(path) is None,
        forall|i: int|
            0 <= i < parts(path).len() && #[trigger] parts(path)[i] is Parent ==> names_below(path)
                is None,
{
    if crate::path::is_absolute(path) {
        root_comes_first(
            crate::bytes::split(path, crate::path::SLASH),
            crate::bytes::split(path, crate::path::SLASH).len() as int,
        );
        assert(parts(path)[0] is Root);
    }
}

proof fn root_comes_first(pieces: Seq<Seq<u8>>, count: int)
    requires
        0 <= count,
    ensures
        crate::path::parts_of(pieces, true, count).len() > 0,
        crate::path::parts_of(pieces, true, count)[0] is Root,
    decreases count,
{
    if count > 0 {
        root_comes_first(pieces, count - 1);
    }
}

/// The view never scrolls past the last row.
pub proof fn scrolling_stays_in_range(sidebar: SidebarView, delta: int, height: int)
    requires
        height >= 0,
    ensures
        0 <= sidebar.scroll_goal(delta, height),
        sidebar.scroll_goal(delta, height) + height <= sidebar.rows().len()
            || sidebar.scroll_goal(delta, height) == 0,
{
}

/// The first row is that of the workspace itself, and it is alone until the
/// workspace is opened.
pub proof fn sidebars_start_closed(root: Seq<u8>, config: SidebarConfig, now: Instant)
    ensures
        SidebarView::opened(root, config, now).rows().len() == 1,
        SidebarView::opened(root, config, now).rows()[0].depth == 0,
{
}

/// A click yields the row under the pointer: the one that is shown at that
/// place of the view, wherever the view is scrolled to. A click below the last
/// row that is shown yields none.
pub proof fn clicks_yield_the_row_under_the_pointer(sidebar: SidebarView, row: int, height: int)
    requires
        0 <= row,
        0 <= height,
    ensures
        sidebar.clicked_path(row, height) is Some <==> row < sidebar.rows_in_view(height).len(),
        row < sidebar.rows_in_view(height).len() ==> sidebar.clicked_path(row, height) == Some(
            sidebar.rows_in_view(height)[row].path,
        ),
{
}

/// The view shows as many rows as fit, in order and without a gap, from the row
/// that it is scrolled to.
pub proof fn views_show_rows_in_order(sidebar: SidebarView, height: int, at: int)
    requires
        0 <= height,
        0 <= at < sidebar.rows_in_view(height).len(),
    ensures
        sidebar.rows_in_view(height).len() <= height,
        sidebar.scroll + at < sidebar.rows().len(),
        sidebar.rows_in_view(height)[at] == sidebar.rows()[sidebar.scroll + at],
        sidebar.rows_in_view(height).len() < height ==> sidebar.scroll + sidebar.rows_in_view(
            height,
        ).len() == sidebar.rows().len(),
{
}

} // verus!
