//! The tree of files that the sidebar shows.

use vstd::prelude::*;

use crate::bytes::{byte_strings, same_bytes};
use crate::path::FilePath;
use crate::workspace::git::{heavier, merge_status, GitDecoration, GitStatus};
use crate::workspace::order::{
    is_listing, key_views, listing_order, listings_are_unique, listings_exist,
    listings_hold_every_place, places, KeyView, SortKey,
};

verus! {

#[derive(Debug, Clone, Copy, PartialEq, Eq, Structural)]
pub enum EntryKind {
    Directory,
    File,
    SymlinkDirectory,
    Symlink,
    Other,
    /// A tracked path reported deleted by Git but absent from the filesystem.
    Deleted,
}

impl EntryKind {
    pub open spec fn directory(self) -> bool {
        self is Directory || self is SymlinkDirectory
    }

    pub fn is_directory(self) -> (result: bool)
        ensures
            result == self.directory(),
    {
        match self {
            EntryKind::Directory | EntryKind::SymlinkDirectory => true,
            _ => false,
        }
    }
}

/// A file or a directory, with what is known to be in it.
#[derive(Debug)]
pub struct Node {
    pub name: Vec<u8>,
    pub kind: EntryKind,
    pub expanded: bool,
    pub loading: bool,
    pub loaded: bool,
    pub error: Option<String>,
    pub children: Vec<Node>,
    pub canonical_dir: Option<FilePath>,
    pub synthetic_deleted: bool,
    pub git: GitDecoration,
}

#[verifier::ext_equal]
pub struct NodeView {
    pub name: Seq<u8>,
    pub kind: EntryKind,
    pub expanded: bool,
    pub loading: bool,
    pub loaded: bool,
    pub error: Option<Seq<char>>,
    pub children: Seq<NodeView>,
    pub canonical_dir: Option<Seq<u8>>,
    pub synthetic_deleted: bool,
    pub git: GitDecoration,
}

pub open spec fn node_view(node: Node) -> NodeView
    decreases node, node.children@.len() + 1,
{
    NodeView {
        name: node.name@,
        kind: node.kind,
        expanded: node.expanded,
        loading: node.loading,
        loaded: node.loaded,
        error: match node.error {
            Some(error) => Some(error@),
            None => None,
        },
        children: first_children(node, node.children@.len()),
        canonical_dir: match node.canonical_dir {
            Some(path) => Some(path@),
            None => None,
        },
        synthetic_deleted: node.synthetic_deleted,
        git: node.git,
    }
}

pub open spec fn first_children(node: Node, count: nat) -> Seq<NodeView>
    decreases node, count,
{
    if count == 0 || count > node.children@.len() {
        Seq::empty()
    } else {
        first_children(node, (count - 1) as nat).push(node_view(node.children@[count - 1]))
    }
}

impl View for Node {
    type V = NodeView;

    open spec fn view(&self) -> NodeView {
        node_view(*self)
    }
}

proof fn first_children_are_views(node: Node, count: nat)
    requires
        count <= node.children@.len(),
    ensures
        first_children(node, count).len() == count,
        forall|i: int|
            0 <= i < count ==> #[trigger] first_children(node, count)[i] == node_view(
                node.children@[i],
            ),
    decreases count,
{
    if count > 0 {
        first_children_are_views(node, (count - 1) as nat);
    }
}

/// The children of a node are shown as they are.
pub broadcast proof fn children_are_views(node: Node)
    ensures
        (#[trigger] node_view(node)).children == node.children@.map_values(
            |child: Node| node_view(child),
        ),
{
    first_children_are_views(node, node.children@.len());
    assert(node_view(node).children =~= node.children@.map_values(|child: Node| node_view(child)));
}

/// The place of the first child with a name; the number of children where
/// there is none.
pub open spec fn index_of(children: Seq<NodeView>, name: Seq<u8>) -> nat
    decreases children.len(),
{
    if children.len() == 0 || children[0].name == name {
        0
    } else {
        1 + index_of(children.skip(1), name)
    }
}

/// The node at the end of a path of names.
pub open spec fn find(node: NodeView, path: Seq<Seq<u8>>) -> Option<NodeView>
    decreases path.len(),
{
    if path.len() == 0 {
        Some(node)
    } else {
        let at = index_of(node.children, path[0]);
        if at < node.children.len() {
            find(node.children[at as int], path.skip(1))
        } else {
            None
        }
    }
}

/// The tree with another node at the end of a path.
pub open spec fn put(node: NodeView, path: Seq<Seq<u8>>, new: NodeView) -> NodeView
    decreases path.len(),
{
    if path.len() == 0 {
        new
    } else {
        let at = index_of(node.children, path[0]);
        if at < node.children.len() {
            NodeView {
                children: node.children.update(
                    at as int,
                    put(node.children[at as int], path.skip(1), new),
                ),
                ..node
            }
        } else {
            node
        }
    }
}

/// The place of a name is that of the first child with it, or the end.
pub proof fn lemma_index_of(children: Seq<NodeView>, name: Seq<u8>)
    ensures
        index_of(children, name) <= children.len(),
        index_of(children, name) < children.len() ==> children[index_of(
            children,
            name,
        ) as int].name == name,
        forall|i: int| 0 <= i < index_of(children, name) ==> children[i].name != name,
    decreases children.len(),
{
    if children.len() > 0 && children[0].name != name {
        let rest = children.skip(1);
        lemma_index_of(rest, name);
        assert forall|i: int| 0 <= i < index_of(children, name) implies children[i].name != name by {
            if i > 0 {
                assert(children[i] == rest[i - 1]);
            }
        }
    }
}

/// The place of a name is known from the children before it.
pub proof fn lemma_index_unique(children: Seq<NodeView>, name: Seq<u8>, at: int)
    requires
        0 <= at <= children.len(),
        forall|i: int| 0 <= i < at ==> children[i].name != name,
        at == children.len() || children[at].name == name,
    ensures
        index_of(children, name) == at,
{
    lemma_index_of(children, name);
    let found = index_of(children, name) as int;
    if found < at {
        assert(children[found].name != name);
    } else if at < found {
        assert(children[at].name != name);
    }
}

impl Node {
    fn child_index(&self, name: &Vec<u8>) -> (at: usize)
        ensures
            at == index_of(self@.children, name@),
            at <= self.children@.len(),
            self@.children.len() == self.children@.len(),
    {
        broadcast use children_are_views;

        let mut at: usize = 0;
        while at < self.children.len() && !same_bytes(
            self.children[at].name.as_slice(),
            name.as_slice(),
        )
            invariant
                at <= self.children@.len(),
                self@.children == self.children@.map_values(|child: Node| node_view(child)),
                forall|i: int| 0 <= i < at ==> self@.children[i].name != name@,
            decreases self.children@.len() - at,
        {
            at += 1;
        }
        proof {
            lemma_index_unique(self@.children, name@, at as int);
        }
        at
    }

    /// The node at the end of a path of names.
    pub fn get(&self, path: &Vec<Vec<u8>>, from: usize) -> (found: Option<&Node>)
        requires
            from <= path@.len(),
        ensures
            found is Some <==> find(self@, byte_strings(path@).skip(from as int)) is Some,
            found matches Some(node) ==> find(self@, byte_strings(path@).skip(from as int)) == Some(
                node@,
            ),
        decreases path@.len() - from,
    {
        broadcast use children_are_views;

        if from == path.len() {
            return Some(self);
        }
        let at: usize = self.child_index(&path[from]);
        proof {
            let names = byte_strings(path@);
            assert(names.skip(from as int)[0] == path@[from as int]@);
            assert(names.skip(from as int).skip(1) =~= names.skip(from + 1));
        }
        if at == self.children.len() {
            return None;
        }
        self.children[at].get(path, from + 1)
    }

    /// The node at the end of a path of names, to be changed.
    pub fn get_mut(&mut self, path: &Vec<Vec<u8>>, from: usize) -> (found: Option<&mut Node>)
        requires
            from <= path@.len(),
        ensures
            found is Some <==> find(old(self)@, byte_strings(path@).skip(from as int)) is Some,
            found is None ==> final(self)@ == old(self)@,
            found matches Some(node) ==> {
                &&& find(old(self)@, byte_strings(path@).skip(from as int)) == Some((*node)@)
                &&& final(self)@ == put(
                    old(self)@,
                    byte_strings(path@).skip(from as int),
                    (*final(node))@,
                )
            },
        decreases path@.len() - from,
    {
        broadcast use children_are_views;

        if from == path.len() {
            return Some(self);
        }
        let at: usize = self.child_index(&path[from]);
        proof {
            let names = byte_strings(path@);
            assert(names.skip(from as int)[0] == path@[from as int]@);
            assert(names.skip(from as int).skip(1) =~= names.skip(from + 1));
        }
        if at == self.children.len() {
            return None;
        }
        let ghost before = self@;
        let ghost last = *final(self);
        let child: &mut Node = &mut self.children[at];
        let ghost after = (*final(child))@;
        let found = child.get_mut(path, from + 1);
        assert(node_view(last).children =~= before.children.update(at as int, after));
        assert(before.children.update(at as int, before.children[at as int]) =~= before.children);
        found
    }
}

/// An entry of a directory, as it was found.
#[derive(Debug)]
pub struct LoadedEntry {
    pub name: Vec<u8>,
    pub kind: EntryKind,
    pub canonical_dir: Option<FilePath>,
    pub error: Option<String>,
}

pub struct EntryView {
    pub name: Seq<u8>,
    pub kind: EntryKind,
    pub canonical_dir: Option<Seq<u8>>,
    pub error: Option<Seq<char>>,
}

impl View for LoadedEntry {
    type V = EntryView;

    open spec fn view(&self) -> EntryView {
        EntryView {
            name: self.name@,
            kind: self.kind,
            canonical_dir: match self.canonical_dir {
                Some(path) => Some(path@),
                None => None,
            },
            error: match self.error {
                Some(error) => Some(error@),
                None => None,
            },
        }
    }
}

pub open spec fn entry_views(entries: Seq<LoadedEntry>) -> Seq<EntryView> {
    entries.map_values(|entry: LoadedEntry| entry@)
}

/// Whether an entry before the one at `at` has its name. A directory has no two
/// entries with one name, so this is not met with.
pub open spec fn repeats(entries: Seq<EntryView>, at: int) -> bool {
    exists|i: int| 0 <= i < at && (#[trigger] entries[i]).name == entries[at].name
}

/// The child with a name, if there is one.
pub open spec fn child_named(children: Seq<NodeView>, name: Seq<u8>) -> Option<NodeView> {
    let at = index_of(children, name);
    if at < children.len() {
        Some(children[at as int])
    } else {
        None
    }
}

/// The node of an entry: what was known below it, and whether it was open, is
/// kept; the rest is as it was found.
pub open spec fn refreshed(entry: EntryView, known: Option<NodeView>) -> NodeView {
    NodeView {
        name: entry.name,
        kind: entry.kind,
        expanded: known matches Some(node) && node.expanded,
        loading: false,
        loaded: known matches Some(node) && node.loaded,
        error: entry.error,
        children: match known {
            Some(node) => node.children,
            None => Seq::empty(),
        },
        canonical_dir: entry.canonical_dir,
        synthetic_deleted: false,
        git: GitDecoration::plain(),
    }
}

/// What was known of an entry. What was known below it goes to the first entry
/// of that name.
pub open spec fn known_of(children: Seq<NodeView>, entries: Seq<EntryView>, at: int) -> Option<
    NodeView,
> {
    match child_named(children, entries[at].name) {
        Some(node) => Some(
            if repeats(entries, at) {
                NodeView { children: Seq::empty(), ..node }
            } else {
                node
            },
        ),
        None => None,
    }
}

/// The children of a directory once its entries are known.
pub open spec fn refreshed_children(children: Seq<NodeView>, entries: Seq<EntryView>) -> Seq<NodeView> {
    Seq::new(entries.len(), |i: int| refreshed(entries[i], known_of(children, entries, i)))
}

pub open spec fn copied_path(path: Option<FilePath>) -> Option<Seq<u8>> {
    match path {
        Some(path) => Some(path@),
        None => None,
    }
}

pub fn copy_bytes(bytes: &Vec<u8>) -> (copy: Vec<u8>)
    ensures
        copy@ == bytes@,
{
    let mut copy: Vec<u8> = Vec::new();
    copy.extend_from_slice(bytes.as_slice());
    assert(copy@ =~= bytes@);
    copy
}

pub fn copy_text(text: &Option<String>) -> (copy: Option<String>)
    ensures
        copy is Some <==> text is Some,
        copy matches Some(c) ==> c@ == text->0@,
{
    match text {
        Some(text) => Some(text.clone()),
        None => None,
    }
}

pub fn copy_path(path: &Option<FilePath>) -> (copy: Option<FilePath>)
    ensures
        copied_path(copy) == copied_path(*path),
{
    match path {
        Some(path) => Some(path.copy()),
        None => None,
    }
}

impl Node {
    /// A node of which nothing is known but its name and kind.
    pub fn plain(name: Vec<u8>, kind: EntryKind) -> (node: Node)
        ensures
            node@ == (NodeView {
                name: name@,
                kind,
                expanded: false,
                loading: false,
                loaded: false,
                error: None,
                children: Seq::empty(),
                canonical_dir: None,
                synthetic_deleted: false,
                git: GitDecoration::plain(),
            }),
            node.children@.len() == 0,
    {
        broadcast use children_are_views;

        let node = Node {
            name,
            kind,
            expanded: false,
            loading: false,
            loaded: false,
            error: None,
            children: Vec::new(),
            canonical_dir: None,
            synthetic_deleted: false,
            git: GitDecoration::default(),
        };
        assert(node@.children =~= Seq::empty());
        node
    }

    /// Replaces what is known of a directory by what was found in it.
    pub fn set_entries(&mut self, entries: &Vec<LoadedEntry>)
        ensures
            final(self)@ == (NodeView {
                children: refreshed_children(old(self)@.children, entry_views(entries@)),
                ..old(self)@
            }),
    {
        broadcast use children_are_views;

        let ghost before = self@.children;
        let ghost views = entry_views(entries@);
        let mut known: Vec<Node> = Vec::new();
        std::mem::swap(&mut known, &mut self.children);
        let ghost original = known@;
        assert(before =~= original.map_values(|child: Node| node_view(child)));
        let mut children: Vec<Node> = Vec::new();
        let mut i: usize = 0;
        while i < entries.len()
            invariant
                i <= entries@.len(),
                views == entry_views(entries@),
                before == original.map_values(|child: Node| node_view(child)),
                known@.len() == original.len(),
                children@.len() == i,
                forall|k: int|
                    0 <= k < known@.len() ==> {
                        &&& (#[trigger] known@[k]).name == original[k].name
                        &&& known@[k].expanded == original[k].expanded
                        &&& known@[k].loaded == original[k].loaded
                        &&& (forall|j: int|
                            0 <= j < i ==> (#[trigger] views[j]).name != original[k].name@)
                            ==> known@[k] == original[k]
                        &&& index_of(before, original[k].name@) == k && (exists|j: int|
                            0 <= j < i && (#[trigger] views[j]).name == original[k].name@)
                            ==> known@[k].children@.len() == 0
                    },
                forall|j: int|
                    0 <= j < i ==> node_view(#[trigger] children@[j]) == refreshed(
                        views[j],
                        known_of(before, views, j),
                    ),
            decreases entries@.len() - i,
        {
            let entry: &LoadedEntry = &entries[i];
            assert(views[i as int] == entry@);
            let mut at: usize = 0;
            while at < known.len() && !same_bytes(
                known[at].name.as_slice(),
                entry.name.as_slice(),
            )
                invariant
                    at <= known@.len(),
                    forall|k: int| 0 <= k < at ==> known@[k].name@ != entry.name@,
                decreases known@.len() - at,
            {
                at += 1;
            }
            proof {
                assert forall|k: int| 0 <= k < at implies before[k].name != entry.name@ by {
                    assert(known@[k].name == original[k].name);
                }
                if at < known@.len() {
                    assert(known@[at as int].name == original[at as int].name);
                }
                lemma_index_unique(before, entry.name@, at as int);
            }
            let mut node = Node::plain(copy_bytes(&entry.name), entry.kind);
            node.error = copy_text(&entry.error);
            node.canonical_dir = copy_path(&entry.canonical_dir);
            if at < known.len() {
                node.expanded = known[at].expanded;
                node.loaded = known[at].loaded;
                let ghost held = known@[at as int].children@;
                std::mem::swap(&mut node.children, &mut known[at].children);
                assert(node.children@ == held);
                proof {
                    children_are_views(original[at as int]);
                    children_are_views(node);
                    if repeats(views, i as int) {
                        assert(node@.children =~= Seq::empty());
                    } else {
                        assert(held == original[at as int].children@);
                        assert(node@.children =~= before[at as int].children);
                    }
                }
            } else {
                proof {
                    children_are_views(node);
                }
                assert(node@.children =~= Seq::empty());
            }
            assert(node@ =~= refreshed(entry@, known_of(before, views, i as int)));
            children.push(node);
            proof {
                assert forall|k: int| 0 <= k < known@.len() && index_of(
                    before,
                    original[k].name@,
                ) == k && (exists|j: int|
                    0 <= j < i + 1 && (#[trigger] views[j]).name
                        == original[k].name@) implies (#[trigger] known@[k]).children@.len() == 0 by {
                    if entry.name@ == original[k].name@ {
                        assert(k == at);
                    }
                }
            }
            i += 1;
        }
        self.children = children;
        assert(self@.children =~= refreshed_children(before, views));
    }
}

/// The tree without marks, and without files that only a mark tells of.
pub open spec fn cleared(node: NodeView) -> NodeView
    decreases node, 0nat,
{
    NodeView {
        git: GitDecoration::plain(),
        children: cleared_children(node.children, node.children.len()),
        ..node
    }
}

pub open spec fn cleared_children(children: Seq<NodeView>, count: nat) -> Seq<NodeView>
    decreases children, count,
{
    if count == 0 || count > children.len() {
        Seq::empty()
    } else {
        let before = cleared_children(children, (count - 1) as nat);
        let child = children[count - 1];
        if child.synthetic_deleted {
            before
        } else {
            before.push(cleared(child))
        }
    }
}

/// The tree with a status at the end of a path, and with what leads to it
/// marked. The status is the heaviest that was told.
pub open spec fn marked(node: NodeView, path: Seq<Seq<u8>>, status: GitStatus) -> NodeView
    decreases path.len(),
{
    if path.len() == 0 {
        NodeView {
            git: GitDecoration {
                status: Some(heavier(node.git.status, status)),
                ..node.git
            },
            ..node
        }
    } else {
        let at = index_of(node.children, path[0]);
        NodeView {
            git: GitDecoration { dirty_descendant: true, ..node.git },
            children: if at < node.children.len() {
                node.children.update(
                    at as int,
                    marked(node.children[at as int], path.skip(1), status),
                )
            } else {
                node.children
            },
            ..node
        }
    }
}

/// What the children of a directory are listed by.
pub open spec fn child_keys(children: Seq<NodeView>) -> Seq<KeyView> {
    children.map_values(
        |child: NodeView| KeyView { directory: child.kind.directory(), name: child.name },
    )
}

/// The children of a directory in the order in which they are listed.
pub open spec fn listed(children: Seq<NodeView>) -> Seq<NodeView> {
    let order = choose|order: Seq<usize>| is_listing(child_keys(children), order);
    Seq::new(children.len(), |i: int| children[order[i] as int])
}

/// A file that is gone, as Git tells.
pub open spec fn gone(name: Seq<u8>) -> NodeView {
    NodeView {
        name,
        kind: EntryKind::Deleted,
        expanded: false,
        loading: false,
        loaded: true,
        error: None,
        children: Seq::empty(),
        canonical_dir: None,
        synthetic_deleted: true,
        git: GitDecoration { status: Some(GitStatus::Deleted), dirty_descendant: false },
    }
}

impl Node {
    /// Takes all marks off the tree.
    pub fn clear_git(&mut self)
        ensures
            final(self)@ == cleared(old(self)@),
        decreases *old(self),
    {
        broadcast use children_are_views;

        let ghost before = self@.children;
        let mut known: Vec<Node> = Vec::new();
        std::mem::swap(&mut known, &mut self.children);
        let ghost original = known@;
        assert(before =~= original.map_values(|child: Node| node_view(child)));
        let mut children: Vec<Node> = Vec::new();
        let count: usize = known.len();
        let mut i: usize = 0;
        while i < count
            invariant
                i <= count,
                count == original.len(),
                known@.len() == count,
                original == old(self).children@,
                before == original.map_values(|child: Node| node_view(child)),
                forall|k: int| i <= k < count ==> #[trigger] known@[k] == original[k],
                children@.map_values(|child: Node| node_view(child)) == cleared_children(
                    before,
                    i as nat,
                ),
            decreases count - i,
        {
            let ghost shown = children@.map_values(|child: Node| node_view(child));
            if !known[i].synthetic_deleted {
                let mut child = Node::plain(Vec::new(), EntryKind::Other);
                std::mem::swap(&mut child, &mut known[i]);
                assert(child == original[i as int]);
                assert(decreases_to!(*old(self) => child));
                child.clear_git();
                let ghost added = child@;
                children.push(child);
                assert(children@.map_values(|child: Node| node_view(child)) =~= shown.push(added));
            }
            assert(before[i as int] == node_view(original[i as int]));
            i += 1;
        }
        self.children = children;
        self.git = GitDecoration::default();
        assert(self@.children =~= cleared_children(before, count as nat));
    }

    /// Marks what is at the end of a path, and what leads to it.
    pub fn mark(&mut self, path: &Vec<Vec<u8>>, from: usize, status: GitStatus)
        requires
            from <= path@.len(),
        ensures
            final(self)@ == marked(old(self)@, byte_strings(path@).skip(from as int), status),
        decreases path@.len() - from,
    {
        broadcast use children_are_views;

        if from == path.len() {
            self.git.status = Some(merge_status(self.git.status, status));
            return;
        }
        self.git.dirty_descendant = true;
        let ghost before = self@.children;
        let at: usize = self.child_index(&path[from]);
        proof {
            let names = byte_strings(path@);
            assert(names.skip(from as int)[0] == path@[from as int]@);
            assert(names.skip(from as int).skip(1) =~= names.skip(from + 1));
        }
        if at < self.children.len() {
            self.children[at].mark(path, from + 1, status);
            assert(self@.children =~= before.update(
                at as int,
                marked(before[at as int], byte_strings(path@).skip(from + 1), status),
            ));
        }
    }

    /// Lists a file that is gone among the children of a directory.
    pub fn add_gone(&mut self, name: Vec<u8>)
        ensures
            final(self)@ == (NodeView {
                children: listed(old(self)@.children.push(gone(name@))),
                ..old(self)@
            }),
    {
        broadcast use children_are_views;

        let ghost all = self@.children.push(gone(name@));
        let mut known: Vec<Node> = Vec::new();
        std::mem::swap(&mut known, &mut self.children);
        let mut node = Node::plain(name, EntryKind::Deleted);
        node.loaded = true;
        node.synthetic_deleted = true;
        node.git = GitDecoration { status: Some(GitStatus::Deleted), dirty_descendant: false };
        assert(node@.children =~= Seq::empty());
        known.push(node);
        let ghost original = known@;
        assert(all =~= original.map_values(|child: Node| node_view(child)));
        let mut keys: Vec<SortKey> = Vec::new();
        let count: usize = known.len();
        let mut i: usize = 0;
        while i < count
            invariant
                i <= count,
                count == known@.len(),
                known@ == original,
                all == original.map_values(|child: Node| node_view(child)),
                keys@.len() == i,
                forall|k: int| 0 <= k < i ==> (#[trigger] keys@[k])@ == child_keys(all)[k],
            decreases count - i,
        {
            keys.push(
                SortKey {
                    directory: known[i].kind.is_directory(),
                    name: copy_bytes(&known[i].name),
                },
            );
            i += 1;
        }
        assert(key_views(keys@) =~= child_keys(all));
        let order: Vec<usize> = listing_order(&keys);
        proof {
            let chosen = choose|order: Seq<usize>| is_listing(child_keys(all), order);
            listings_are_unique(child_keys(all), order@, chosen);
        }
        let mut children: Vec<Node> = Vec::new();
        let mut j: usize = 0;
        while j < count
            invariant
                j <= count,
                count == known@.len() == original.len() == order@.len(),
                places(order@, count as int),
                all == original.map_values(|child: Node| node_view(child)),
                children@.len() == j,
                forall|k: int|
                    0 <= k < count && (forall|l: int|
                        0 <= l < j ==> #[trigger] order@[l] != k) ==> #[trigger] known@[k]
                        == original[k],
                forall|k: int|
                    0 <= k < j ==> node_view(#[trigger] children@[k]) == all[order@[k] as int],
            decreases count - j,
        {
            let place: usize = order[j];
            let mut child = Node::plain(Vec::new(), EntryKind::Other);
            proof {
                assert forall|l: int| 0 <= l < j implies #[trigger] order@[l] != place by {
                    assert(order@[l] != order@[j as int]);
                }
            }
            std::mem::swap(&mut child, &mut known[place]);
            assert(child == original[place as int]);
            children.push(child);
            proof {
                assert forall|k: int|
                    0 <= k < count && (forall|l: int|
                        0 <= l < j + 1 ==> #[trigger] order@[l] != k) implies #[trigger] known@[k]
                    == original[k] by {
                    assert(order@[j as int] != k);
                    assert forall|l: int| 0 <= l < j implies #[trigger] order@[l] != k by {}
                }
            }
            j += 1;
        }
        self.children = children;
        assert(self@.children =~= listed(all));
    }
}

/// A node that is put in the place of one with the same name is found there.
pub proof fn what_is_put_is_found(node: NodeView, path: Seq<Seq<u8>>, new: NodeView)
    requires
        find(node, path) matches Some(known) && known.name == new.name,
    ensures
        find(put(node, path, new), path) == Some(new),
        put(node, path, new).name == node.name,
    decreases path.len(),
{
    if path.len() > 0 {
        let at = index_of(node.children, path[0]) as int;
        lemma_index_of(node.children, path[0]);
        what_is_put_is_found(node.children[at], path.skip(1), new);
        let after = put(node, path, new);
        assert forall|i: int| 0 <= i < at implies after.children[i].name != path[0] by {
            assert(after.children[i] == node.children[i]);
        }
        lemma_index_unique(after.children, path[0], at);
    }
}

/// Marks do not move nodes: each is found where it was, with its name, and what
/// leads to a change is marked.
pub proof fn changes_mark_what_leads_to_them(
    node: NodeView,
    path: Seq<Seq<u8>>,
    status: GitStatus,
    count: int,
)
    requires
        0 <= count <= path.len(),
        find(node, path.take(count)) is Some,
    ensures
        marked(node, path, status).name == node.name,
        find(marked(node, path, status), path.take(count)) matches Some(after) && {
            let before = find(node, path.take(count))->0;
            &&& after.name == before.name
            &&& after.kind == before.kind
            &&& count < path.len() ==> after.git.dirty_descendant
            &&& count == path.len() ==> after.git.status == Some(
                heavier(before.git.status, status),
            )
        },
    decreases path.len(),
{
    if path.len() > 0 && count > 0 {
        let at = index_of(node.children, path[0]) as int;
        lemma_index_of(node.children, path[0]);
        assert(path.take(count)[0] == path[0]);
        assert(path.take(count).skip(1) =~= path.skip(1).take(count - 1));
        changes_mark_what_leads_to_them(node.children[at], path.skip(1), status, count - 1);
        let after = marked(node, path, status);
        assert forall|i: int| 0 <= i < at implies after.children[i].name != path[0] by {
            assert(after.children[i] == node.children[i]);
        }
        lemma_index_unique(after.children, path[0], at);
    } else if count == 0 {
        assert(path.take(0) =~= Seq::empty());
    }
}

/// Whether a node and all below it have no marks.
pub open spec fn unmarked(node: NodeView) -> bool
    decreases node, 0nat,
{
    &&& node.git == GitDecoration::plain()
    &&& children_unmarked(node.children, node.children.len())
}

pub open spec fn children_unmarked(children: Seq<NodeView>, count: nat) -> bool
    decreases children, count,
{
    if count == 0 || count > children.len() {
        true
    } else {
        &&& children_unmarked(children, (count - 1) as nat)
        &&& unmarked(children[count - 1])
        &&& !children[count - 1].synthetic_deleted
    }
}

proof fn unmarked_prefix(left: Seq<NodeView>, right: Seq<NodeView>, count: nat)
    requires
        count <= left.len(),
        count <= right.len(),
        left.take(count as int) == right.take(count as int),
    ensures
        children_unmarked(left, count) == children_unmarked(right, count),
    decreases count,
{
    if count > 0 {
        assert(left[count - 1] == left.take(count as int)[count - 1]);
        assert(right[count - 1] == right.take(count as int)[count - 1]);
        assert(left.take(count - 1) =~= left.take(count as int).take(count - 1));
        assert(right.take(count - 1) =~= right.take(count as int).take(count - 1));
        unmarked_prefix(left, right, (count - 1) as nat);
    }
}

/// A tree that was cleared has no marks left, and no file that only a mark told
/// of.
pub proof fn clearing_takes_all_marks(node: NodeView)
    ensures
        unmarked(cleared(node)),
    decreases node, 0nat,
{
    clearing_takes_marks_of_children(node.children, node.children.len());
}

proof fn clearing_takes_marks_of_children(children: Seq<NodeView>, count: nat)
    requires
        count <= children.len(),
    ensures
        children_unmarked(
            cleared_children(children, count),
            cleared_children(children, count).len(),
        ),
    decreases children, count,
{
    if count > 0 {
        clearing_takes_marks_of_children(children, (count - 1) as nat);
        let before = cleared_children(children, (count - 1) as nat);
        let child = children[count - 1];
        if !child.synthetic_deleted {
            clearing_takes_all_marks(child);
            let after = before.push(cleared(child));
            assert(after.take(before.len() as int) =~= before.take(before.len() as int));
            unmarked_prefix(before, after, before.len());
        }
    }
}

/// Listing children in order keeps every one of them.
pub proof fn listing_keeps_children(children: Seq<NodeView>, at: int)
    requires
        children.len() <= usize::MAX,
        0 <= at < children.len(),
    ensures
        listed(children).contains(children[at]),
        listed(children).len() == children.len(),
{
    let keys = child_keys(children);
    let known = listings_exist(keys);
    let order = choose|order: Seq<usize>| is_listing(keys, order);
    listings_hold_every_place(keys, order, at);
    let i = choose|i: int| 0 <= i < order.len() && order[i] == at;
    assert(listed(children)[i] == children[at]);
}

/// A name that one child has, and no other, is found in the listing too.
pub proof fn listing_keeps_names(children: Seq<NodeView>, at: int)
    requires
        children.len() <= usize::MAX,
        0 <= at < children.len(),
        forall|i: int| 0 <= i < children.len() && i != at ==> children[i].name != children[at].name,
    ensures
        child_named(listed(children), children[at].name) == Some(children[at]),
{
    let keys = child_keys(children);
    let known = listings_exist(keys);
    let order = choose|order: Seq<usize>| is_listing(keys, order);
    listings_hold_every_place(keys, order, at);
    let all = listed(children);
    let k = choose|i: int| 0 <= i < order.len() && order[i] == at;
    assert forall|i: int| 0 <= i < all.len() && i != k implies all[i].name != children[at].name by {
        assert(order[i] != order[k]);
        assert(order[i] < children.len());
    }
    lemma_index_unique(all, children[at].name, k);
}

} // verus!
