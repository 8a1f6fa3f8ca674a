//! The rows of the sidebar.

use vstd::prelude::*;

use crate::bytes::{byte_strings, same_bytes};
use crate::text::{lossy_text, utf8_lossy};
use crate::workspace::git::GitDecoration;
use crate::workspace::tree::{
    children_are_views, copy_bytes, copy_text, node_view, EntryKind, Node, NodeView,
};

verus! {

#[derive(Debug)]
pub struct SidebarRow {
    /// The names that lead from the root to the row.
    pub path: Vec<Vec<u8>>,
    pub name: Vec<u8>,
    pub depth: usize,
    pub kind: EntryKind,
    pub expanded: bool,
    pub loading: bool,
    pub selected: bool,
    pub error: Option<String>,
    pub git: GitDecoration,
}

pub struct RowView {
    pub path: Seq<Seq<u8>>,
    pub name: Seq<u8>,
    pub depth: nat,
    pub kind: EntryKind,
    pub expanded: bool,
    pub loading: bool,
    pub selected: bool,
    pub error: Option<Seq<char>>,
    pub git: GitDecoration,
}

impl View for SidebarRow {
    type V = RowView;

    open spec fn view(&self) -> RowView {
        RowView {
            path: byte_strings(self.path@),
            name: self.name@,
            depth: self.depth as nat,
            kind: self.kind,
            expanded: self.expanded,
            loading: self.loading,
            selected: self.selected,
            error: match self.error {
                Some(error) => Some(error@),
                None => None,
            },
            git: self.git,
        }
    }
}

impl SidebarRow {
    /// The name for the screen; what is not text is replaced. The path keeps
    /// the name as it is.
    pub fn display_name(&self) -> (name: String)
        ensures
            name@ == utf8_lossy(self.name@),
    {
        lossy_text(self.name.as_slice())
    }
}

pub open spec fn row_views(rows: Seq<SidebarRow>) -> Seq<RowView> {
    rows.map_values(|row: SidebarRow| row@)
}

/// The row of a node.
pub open spec fn row_of(node: NodeView, path: Seq<Seq<u8>>, selected: Option<Seq<Seq<u8>>>) -> RowView {
    RowView {
        path,
        name: node.name,
        depth: path.len(),
        kind: node.kind,
        expanded: node.expanded,
        loading: node.loading,
        selected: selected == Some(path),
        error: node.error,
        git: node.git,
    }
}

/// The rows of a node: its own, and those of its children where it is open.
pub open spec fn rows_of(node: NodeView, path: Seq<Seq<u8>>, selected: Option<Seq<Seq<u8>>>) -> Seq<
    RowView,
>
    decreases node, 0nat,
{
    let own = seq![row_of(node, path, selected)];
    if node.expanded {
        own + rows_of_children(node.children, path, selected, node.children.len())
    } else {
        own
    }
}

pub open spec fn rows_of_children(
    children: Seq<NodeView>,
    path: Seq<Seq<u8>>,
    selected: Option<Seq<Seq<u8>>>,
    count: nat,
) -> Seq<RowView>
    decreases children, count,
{
    if count == 0 || count > children.len() {
        Seq::empty()
    } else {
        let child = children[count - 1];
        rows_of_children(children, path, selected, (count - 1) as nat) + rows_of(
            child,
            path.push(child.name),
            selected,
        )
    }
}

pub open spec fn path_view(path: Option<Vec<Vec<u8>>>) -> Option<Seq<Seq<u8>>> {
    match path {
        Some(path) => Some(byte_strings(path@)),
        None => None,
    }
}

pub fn copy_names(path: &Vec<Vec<u8>>) -> (copy: Vec<Vec<u8>>)
    ensures
        byte_strings(copy@) == byte_strings(path@),
{
    let mut copy: Vec<Vec<u8>> = Vec::new();
    let mut i: usize = 0;
    while i < path.len()
        invariant
            i <= path@.len(),
            copy@.len() == i,
            forall|j: int| 0 <= j < i ==> (#[trigger] copy@[j])@ == path@[j]@,
        decreases path@.len() - i,
    {
        copy.push(copy_bytes(&path[i]));
        i += 1;
    }
    assert(byte_strings(copy@) =~= byte_strings(path@));
    copy
}

pub fn same_names(left: &Vec<Vec<u8>>, right: &Vec<Vec<u8>>) -> (same: bool)
    ensures
        same == (byte_strings(left@) == byte_strings(right@)),
{
    let ghost l = byte_strings(left@);
    let ghost r = byte_strings(right@);
    if left.len() != right.len() {
        assert(l.len() != r.len());
        return false;
    }
    let mut i: usize = 0;
    while i < left.len()
        invariant
            i <= left@.len() == right@.len(),
            l == byte_strings(left@),
            r == byte_strings(right@),
            forall|j: int| 0 <= j < i ==> l[j] == r[j],
        decreases left@.len() - i,
    {
        assert(l[i as int] == left@[i as int]@ && r[i as int] == right@[i as int]@);
        if !same_bytes(left[i].as_slice(), right[i].as_slice()) {
            return false;
        }
        i += 1;
    }
    assert(l =~= r);
    true
}

impl Node {
    /// Adds the rows of the node.
    pub fn flatten(
        &self,
        path: &Vec<Vec<u8>>,
        selected: &Option<Vec<Vec<u8>>>,
        rows: &mut Vec<SidebarRow>,
    )
        ensures
            row_views(final(rows)@) == row_views(old(rows)@) + rows_of(
                self@,
                byte_strings(path@),
                path_view(*selected),
            ),
        decreases *self,
    {
        broadcast use children_are_views;

        let ghost names = byte_strings(path@);
        let ghost chosen = path_view(*selected);
        let ghost before = row_views(rows@);
        let is_selected: bool = match selected {
            Some(selected) => same_names(selected, path),
            None => false,
        };
        let row = SidebarRow {
            path: copy_names(path),
            name: copy_bytes(&self.name),
            depth: path.len(),
            kind: self.kind,
            expanded: self.expanded,
            loading: self.loading,
            selected: is_selected,
            error: copy_text(&self.error),
            git: self.git,
        };
        assert(row@ == row_of(self@, names, chosen));
        rows.push(row);
        let ghost own = row_views(rows@);
        assert(own =~= before + seq![row_of(self@, names, chosen)]);
        if self.expanded {
            let mut i: usize = 0;
            assert(row_views(rows@) =~= own + Seq::empty());
            while i < self.children.len()
                invariant
                    i <= self.children@.len(),
                    names == byte_strings(path@),
                    chosen == path_view(*selected),
                    self@.children == self.children@.map_values(|child: Node| node_view(child)),
                    row_views(rows@) == own + rows_of_children(
                        self@.children,
                        names,
                        chosen,
                        i as nat,
                    ),
                decreases self.children@.len() - i,
            {
                let child: &Node = &self.children[i];
                let mut below = copy_names(path);
                below.push(copy_bytes(&child.name));
                assert(byte_strings(below@) =~= names.push(child.name@));
                assert(decreases_to!(*self => self.children@[i as int]));
                child.flatten(&below, selected, rows);
                assert(self@.children[i as int] == child@);
                assert(row_views(rows@) =~= own + (rows_of_children(
                    self@.children,
                    names,
                    chosen,
                    i as nat,
                ) + rows_of(child@, names.push(child.name@), chosen)));
                i += 1;
            }
            assert(row_views(rows@) =~= before + rows_of(self@, names, chosen));
        }
    }
}

/// A closed directory takes one row, whatever is known to be in it.
pub proof fn closed_directories_take_one_row(
    node: NodeView,
    path: Seq<Seq<u8>>,
    selected: Option<Seq<Seq<u8>>>,
)
    requires
        !node.expanded,
    ensures
        rows_of(node, path, selected) == seq![row_of(node, path, selected)],
{
}

/// The first row of a node is its own.
pub proof fn nodes_come_before_their_children(
    node: NodeView,
    path: Seq<Seq<u8>>,
    selected: Option<Seq<Seq<u8>>>,
)
    ensures
        rows_of(node, path, selected).len() >= 1,
        rows_of(node, path, selected)[0] == row_of(node, path, selected),
{
}

} // verus!
