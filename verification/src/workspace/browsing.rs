//! What the rows, the clicks, the loads and the marks of the sidebar mean for
//! the tree that it shows.

use vstd::prelude::*;

use crate::bytes::{lemma_split_last, split};
use crate::path::{joined, joined_names_come_last, parts, parts_of, plain_name, Part, SLASH};
use crate::time::Instant;
use crate::workspace::git::{heavier, weight, ChangeView, GitDecoration, GitStatus};
use crate::workspace::loading::DirectoryView;
use crate::workspace::rows::{row_of, rows_of, rows_of_children};
use crate::workspace::sidebar::{
    change_shown, changes_shown, gone_shown, names_among, names_below, targets_on_way, JobView,
    SidebarView,
};
use crate::workspace::tree::{
    child_named, cleared, cleared_children, find, index_of, lemma_index_of, lemma_index_unique,
    marked, put, refreshed_children, what_is_put_is_found, NodeView,
};

verus! {

/// Whether no directory below a node has two entries of one name.
pub open spec fn distinct(node: NodeView) -> bool
    decreases node, 0nat,
{
    &&& forall|i: int, j: int|
        0 <= i < j < node.children.len() ==> (#[trigger] node.children[i]).name != (
        #[trigger] node.children[j]).name
    &&& children_distinct(node.children, node.children.len())
}

pub open spec fn children_distinct(children: Seq<NodeView>, count: nat) -> bool
    decreases children, count,
{
    if count == 0 || count > children.len() {
        true
    } else {
        children_distinct(children, (count - 1) as nat) && distinct(children[count - 1])
    }
}

proof fn each_child_is_distinct(children: Seq<NodeView>, count: nat, at: int)
    requires
        0 <= at < count <= children.len(),
        children_distinct(children, count),
    ensures
        distinct(children[at]),
    decreases count,
{
    if at < count - 1 {
        each_child_is_distinct(children, (count - 1) as nat, at);
    }
}

/// Whether every directory on the way to a path is open.
pub open spec fn open_on_way(tree: NodeView, path: Seq<Seq<u8>>) -> bool {
    forall|k: int|
        0 <= k < path.len() ==> (find(tree, #[trigger] path.take(k)) matches Some(node)
            && node.expanded)
}

/// Whether two nodes agree in all but what is below them.
pub open spec fn alike(left: NodeView, right: NodeView) -> bool {
    left == (NodeView { children: left.children, ..right })
}

proof fn row_leads_to_its_node(
    node: NodeView,
    base: Seq<Seq<u8>>,
    selected: Option<Seq<Seq<u8>>>,
    at: int,
)
    requires
        distinct(node),
        0 <= at < rows_of(node, base, selected).len(),
    ensures
        ({
            let row = rows_of(node, base, selected)[at];
            let below = row.path.skip(base.len() as int);
            &&& row.path.len() >= base.len()
            &&& row.path.take(base.len() as int) == base
            &&& open_on_way(node, below)
            &&& find(node, below) matches Some(found) && row == row_of(found, row.path, selected)
        }),
    decreases node, 0nat,
{
    let row = rows_of(node, base, selected)[at];
    let below = row.path.skip(base.len() as int);
    if at == 0 {
        assert(row == row_of(node, base, selected));
        assert(below =~= Seq::empty());
        assert(row.path.take(base.len() as int) =~= base);
    } else {
        let count = node.children.len();
        assert(row == rows_of_children(node.children, base, selected, count)[at - 1]);
        let i = child_row_leads_to_its_node(node.children, base, selected, count, at - 1);
        assert forall|j: int| 0 <= j < i implies node.children[j].name != below[0] by {
            assert(node.children[j].name != node.children[i].name);
        }
        lemma_index_unique(node.children, below[0], i);
        assert(below.skip(1) =~= row.path.skip(base.len() as int + 1));
        assert forall|k: int| 0 <= k < below.len() implies (find(
            node,
            #[trigger] below.take(k),
        ) matches Some(found) && found.expanded) by {
            if k > 0 {
                assert(below.take(k)[0] == below[0]);
                assert(below.take(k).skip(1) =~= below.skip(1).take(k - 1));
            } else {
                assert(below.take(0) =~= Seq::empty());
            }
        }
    }
}

proof fn child_row_leads_to_its_node(
    children: Seq<NodeView>,
    base: Seq<Seq<u8>>,
    selected: Option<Seq<Seq<u8>>>,
    count: nat,
    at: int,
) -> (i: int)
    requires
        count <= children.len(),
        children_distinct(children, count),
        0 <= at < rows_of_children(children, base, selected, count).len(),
    ensures
        ({
            let row = rows_of_children(children, base, selected, count)[at];
            let below = row.path.skip(base.len() as int + 1);
            &&& 0 <= i < count
            &&& row.path.len() > base.len()
            &&& row.path.take(base.len() as int) == base
            &&& row.path[base.len() as int] == children[i].name
            &&& open_on_way(children[i], below)
            &&& find(children[i], below) matches Some(found) && row == row_of(
                found,
                row.path,
                selected,
            )
        }),
    decreases children, count,
{
    let earlier = rows_of_children(children, base, selected, (count - 1) as nat);
    if at < earlier.len() {
        child_row_leads_to_its_node(children, base, selected, (count - 1) as nat, at)
    } else {
        let child = children[count - 1];
        let path = base.push(child.name);
        row_leads_to_its_node(child, path, selected, at - earlier.len());
        let row = rows_of(child, path, selected)[at - earlier.len()];
        assert(row == rows_of_children(children, base, selected, count)[at]);
        assert(row.path.take(path.len() as int)[base.len() as int] == child.name);
        assert(row.path.take(base.len() as int) =~= path.take(base.len() as int));
        assert(path.take(base.len() as int) =~= base);
        count - 1
    }
}

/// Each row shows the node at the end of its path: the name, the kind and the
/// marks of that node, as deep as the path is long. Every directory on the way
/// is open, and the row that is selected is the one at the selected path.
pub proof fn rows_show_their_nodes(sidebar: SidebarView, at: int)
    requires
        distinct(sidebar.tree),
        0 <= at < sidebar.rows().len(),
    ensures
        ({
            let row = sidebar.rows()[at];
            &&& open_on_way(sidebar.tree, row.path)
            &&& find(sidebar.tree, row.path) matches Some(node) && {
                &&& row.name == node.name
                &&& row.kind == node.kind
                &&& row.expanded == node.expanded
                &&& row.loading == node.loading
                &&& row.error == node.error
                &&& row.git == node.git
            }
            &&& row.depth == row.path.len()
            &&& row.selected <==> sidebar.selected == Some(row.path)
        }),
{
    let none = Seq::<Seq<u8>>::empty();
    row_leads_to_its_node(sidebar.tree, none, sidebar.selected, at);
    let row = sidebar.rows()[at];
    assert(row.path.skip(0) =~= row.path);
}

proof fn node_has_a_row(
    node: NodeView,
    base: Seq<Seq<u8>>,
    below: Seq<Seq<u8>>,
    selected: Option<Seq<Seq<u8>>>,
) -> (at: int)
    requires
        find(node, below) is Some,
        open_on_way(node, below),
    ensures
        0 <= at < rows_of(node, base, selected).len(),
        rows_of(node, base, selected)[at].path == base + below,
    decreases node, 0nat,
{
    if below.len() == 0 {
        assert(base + below =~= base);
        0
    } else {
        let i = index_of(node.children, below[0]) as int;
        lemma_index_of(node.children, below[0]);
        let child = node.children[i];
        let rest = below.skip(1);
        assert(below.take(0) =~= Seq::empty());
        assert(node.expanded);
        assert forall|k: int| 0 <= k < rest.len() implies (find(
            child,
            #[trigger] rest.take(k),
        ) matches Some(found) && found.expanded) by {
            let longer = below.take(k + 1);
            assert(longer[0] == below[0]);
            assert(longer.skip(1) =~= rest.take(k));
        }
        let at = node_has_a_row(child, base.push(child.name), rest, selected);
        let offset = rows_of_child_follow(node.children, base, selected, node.children.len(), i);
        assert(base.push(child.name) + rest =~= base + below);
        let rows = rows_of_children(node.children, base, selected, node.children.len());
        assert(rows_of(node, base, selected)[1 + offset + at] == rows[offset + at]);
        1 + offset + at
    }
}

/// The rows of a child are a stretch of those of its parent.
proof fn rows_of_child_follow(
    children: Seq<NodeView>,
    base: Seq<Seq<u8>>,
    selected: Option<Seq<Seq<u8>>>,
    count: nat,
    i: int,
) -> (offset: int)
    requires
        0 <= i < count <= children.len(),
    ensures
        0 <= offset,
        ({
            let rows = rows_of_children(children, base, selected, count);
            let own = rows_of(children[i], base.push(children[i].name), selected);
            &&& offset + own.len() <= rows.len()
            &&& forall|k: int| 0 <= k < own.len() ==> rows[offset + k] == #[trigger] own[k]
        }),
    decreases count,
{
    let earlier = rows_of_children(children, base, selected, (count - 1) as nat);
    if i == count - 1 {
        earlier.len() as int
    } else {
        let offset = rows_of_child_follow(children, base, selected, (count - 1) as nat, i);
        let own = rows_of(children[i], base.push(children[i].name), selected);
        assert forall|k: int| 0 <= k < own.len() implies rows_of_children(
            children,
            base,
            selected,
            count,
        )[offset + k] == #[trigger] own[k] by {
            assert(earlier[offset + k] == own[k]);
        }
        offset
    }
}

/// Every node that can be reached through open directories has a row.
pub proof fn open_nodes_have_rows(sidebar: SidebarView, path: Seq<Seq<u8>>) -> (at: int)
    requires
        find(sidebar.tree, path) is Some,
        open_on_way(sidebar.tree, path),
    ensures
        0 <= at < sidebar.rows().len(),
        sidebar.rows()[at].path == path,
{
    let none = Seq::<Seq<u8>>::empty();
    let at = node_has_a_row(sidebar.tree, none, path, sidebar.selected);
    assert(none + path =~= path);
    at
}

proof fn earlier_children_alone_count(
    left: Seq<NodeView>,
    right: Seq<NodeView>,
    base: Seq<Seq<u8>>,
    selected: Option<Seq<Seq<u8>>>,
    count: nat,
)
    requires
        count <= left.len(),
        count <= right.len(),
        forall|i: int| 0 <= i < count ==> left[i] == right[i],
    ensures
        rows_of_children(left, base, selected, count) == rows_of_children(
            right,
            base,
            selected,
            count,
        ),
    decreases count,
{
    if count > 0 {
        earlier_children_alone_count(left, right, base, selected, (count - 1) as nat);
    }
}

/// The rows below an open directory are in the order of its entries: one more
/// entry at the end adds its rows at the end, and leaves the others alone.
pub proof fn rows_follow_the_entries(
    directory: NodeView,
    last: NodeView,
    path: Seq<Seq<u8>>,
    selected: Option<Seq<Seq<u8>>>,
)
    requires
        directory.expanded,
    ensures
        rows_of(
            NodeView { children: directory.children.push(last), ..directory },
            path,
            selected,
        ) == rows_of(directory, path, selected) + rows_of(last, path.push(last.name), selected),
        directory.children.len() == 0 ==> rows_of(directory, path, selected).len() == 1,
{
    let longer = directory.children.push(last);
    let count = directory.children.len();
    earlier_children_alone_count(longer, directory.children, path, selected, count);
    let after = NodeView { children: longer, ..directory };
    assert(row_of(after, path, selected) == row_of(directory, path, selected));
    assert(rows_of(after, path, selected) =~= rows_of(directory, path, selected) + rows_of(
        last,
        path.push(last.name),
        selected,
    ));
}

/// A node that is put in the place of one with the same name and the same
/// entries changes no other node.
pub proof fn other_nodes_stay(
    tree: NodeView,
    path: Seq<Seq<u8>>,
    new: NodeView,
    other: Seq<Seq<u8>>,
)
    requires
        find(tree, path) matches Some(known) && known.name == new.name && known.children
            == new.children,
        other != path,
    ensures
        find(put(tree, path, new), other) is Some <==> find(tree, other) is Some,
        find(tree, other) matches Some(before) ==> alike(
            find(put(tree, path, new), other)->0,
            before,
        ),
    decreases path.len(),
{
    let after = put(tree, path, new);
    if path.len() == 0 {
        assert(other.len() > 0) by {
            if other.len() == 0 {
                assert(other =~= path);
            }
        }
    } else {
        let at = index_of(tree.children, path[0]) as int;
        lemma_index_of(tree.children, path[0]);
        what_is_put_is_found(tree.children[at], path.skip(1), new);
        if other.len() > 0 {
            let j = index_of(tree.children, other[0]) as int;
            lemma_index_of(tree.children, other[0]);
            assert forall|i: int| 0 <= i < j implies after.children[i].name != other[0] by {
                assert(after.children[i].name == tree.children[i].name);
            }
            lemma_index_unique(after.children, other[0], j);
            if j == at {
                assert(path[0] == other[0]);
                assert(path.skip(1) != other.skip(1)) by {
                    if path.skip(1) == other.skip(1) {
                        assert(path =~= seq![path[0]] + path.skip(1));
                        assert(other =~= seq![other[0]] + other.skip(1));
                    }
                }
                other_nodes_stay(tree.children[at], path.skip(1), new, other.skip(1));
            }
        }
    }
}

/// A click selects what was clicked. It closes a directory that is open. It
/// opens one that is closed, if what is in it is known, and asks for that
/// otherwise. On a file it does no more. No other node changes.
pub proof fn clicks_open_and_close(sidebar: SidebarView, path: Seq<Seq<u8>>, other: Seq<Seq<u8>>)
    requires
        find(sidebar.tree, path) is Some,
        other != path,
    ensures
        ({
            let after = sidebar.clicked(path);
            let node = find(sidebar.tree, path)->0;
            let directory = node.kind.directory();
            &&& after.selected == Some(path)
            &&& after.scroll == sidebar.scroll
            &&& find(after.tree, path) matches Some(now) && {
                &&& directory && node.expanded ==> !now.expanded && !now.loading
                &&& directory && !node.expanded && node.loaded ==> now == (NodeView {
                    expanded: true,
                    ..node
                })
                &&& directory && !node.expanded && !node.loaded ==> now == node
                &&& !directory ==> now == node
                &&& now.children == node.children && now.git == node.git && now.kind == node.kind
            }
            &&& find(sidebar.tree, other) matches Some(before) ==> find(
                after.tree,
                other,
            ) is Some && alike(find(after.tree, other)->0, before)
            &&& sidebar.click_job(path) is Some <==> directory && !node.expanded && !node.loaded
            &&& sidebar.click_job(path) matches Some(job) ==> {
                &&& job is Load
                &&& job->Load_path == path
                &&& job->Load_id == sidebar.next_id
                &&& job->Load_cap == sidebar.config.entry_cap
                &&& after.next_id != sidebar.next_id
            }
        }),
{
    let node = find(sidebar.tree, path)->0;
    let closed = NodeView { expanded: false, loading: false, ..node };
    let opened = NodeView { expanded: true, ..node };
    what_is_put_is_found(sidebar.tree, path, closed);
    what_is_put_is_found(sidebar.tree, path, opened);
    other_nodes_stay(sidebar.tree, path, closed, other);
    other_nodes_stay(sidebar.tree, path, opened, other);
}

/// A load that is taken on shows in its directory, which is open from then on
/// and says so until the answer comes, and only the answer to it is taken. An
/// answer that says why the directory could not be read shows that, and the
/// directory is to be read again.
pub proof fn loads_show_in_their_directory(
    sidebar: SidebarView,
    path: Seq<Seq<u8>>,
    id: u64,
    error: Seq<char>,
    other: Seq<Seq<u8>>,
)
    requires
        find(sidebar.tree, path) is Some,
        other != path,
    ensures
        ({
            let asked = sidebar.load_queued(path, id);
            let failed = asked.load_replied(path, id, Err(error));
            let node = find(sidebar.tree, path)->0;
            &&& find(asked.tree, path) == Some(
                NodeView { expanded: true, loading: true, error: None, ..node },
            )
            &&& find(failed.tree, path) == Some(
                NodeView {
                    expanded: true,
                    loading: false,
                    loaded: false,
                    error: Some(error),
                    ..node
                },
            )
            &&& asked.awaits(path, id)
            &&& !failed.awaits(path, id)
            &&& forall|p: Seq<Seq<u8>>, n: u64|
                p != path ==> (#[trigger] asked.awaits(p, n) <==> sidebar.awaits(p, n))
            &&& forall|p: Seq<Seq<u8>>, n: u64|
                p != path ==> (#[trigger] failed.awaits(p, n) <==> sidebar.awaits(p, n))
            &&& find(sidebar.tree, other) matches Some(before) ==> find(
                failed.tree,
                other,
            ) is Some && alike(find(failed.tree, other)->0, before)
        }),
{
    let node = find(sidebar.tree, path)->0;
    let asked = sidebar.load_queued(path, id);
    let loading = NodeView { expanded: true, loading: true, error: None, ..node };
    what_is_put_is_found(sidebar.tree, path, loading);
    other_nodes_stay(sidebar.tree, path, loading, other);
    let failed = NodeView { loading: false, loaded: false, error: Some(error), ..loading };
    what_is_put_is_found(asked.tree, path, failed);
    other_nodes_stay(asked.tree, path, failed, other);
}

/// Once a directory was read it is known, and shows each entry with its kind
/// and with what was wrong with it, without marks. What was known below an entry
/// stays known. The directory stays open or closed as it was, and says if there
/// were more entries than are shown.
pub proof fn loaded_directories_show_what_was_read(
    sidebar: SidebarView,
    path: Seq<Seq<u8>>,
    id: u64,
    directory: DirectoryView,
    at: int,
)
    requires
        find(sidebar.tree, path) is Some,
        sidebar.awaits(path, id),
        0 <= at < directory.entries.len(),
        forall|i: int|
            0 <= i < at ==> (#[trigger] directory.entries[i]).name != directory.entries[at].name,
    ensures
        ({
            let after = sidebar.load_replied(path, id, Ok(directory));
            let before = find(sidebar.tree, path)->0;
            let entry = directory.entries[at];
            let known = child_named(before.children, entry.name);
            &&& !after.awaits(path, id)
            &&& find(after.tree, path) matches Some(node) && {
                &&& node.expanded == before.expanded
                &&& !node.loading
                &&& node.loaded
                &&& node.canonical_dir == Some(directory.canonical)
                &&& node.error is Some <==> directory.truncated
                &&& node.children.len() == directory.entries.len()
                &&& node.children[at].name == entry.name
                &&& node.children[at].kind == entry.kind
                &&& node.children[at].error == entry.error
                &&& node.children[at].canonical_dir == entry.canonical_dir
                &&& node.children[at].git.status is None
                &&& !node.children[at].git.dirty_descendant
                &&& !node.children[at].loading
                &&& known matches Some(child) ==> {
                    &&& node.children[at].children == child.children
                    &&& node.children[at].expanded == child.expanded
                    &&& node.children[at].loaded == child.loaded
                }
                &&& known is None ==> {
                    &&& node.children[at].children.len() == 0
                    &&& !node.children[at].expanded
                    &&& !node.children[at].loaded
                }
            }
        }),
{
    let node = find(sidebar.tree, path)->0;
    let new = NodeView {
        loading: false,
        loaded: true,
        canonical_dir: Some(directory.canonical),
        error: sidebar.cap_error(directory.truncated),
        children: refreshed_children(node.children, directory.entries),
        ..node
    };
    what_is_put_is_found(sidebar.tree, path, new);
    assert(sidebar.answered(path).cap_error(directory.truncated) == sidebar.cap_error(
        directory.truncated,
    ));
}

/// A load below an entry that is gone is no longer waited for. Every other load
/// still is.
pub proof fn loads_of_what_is_gone_are_dropped(
    sidebar: SidebarView,
    path: Seq<Seq<u8>>,
    id: u64,
    directory: DirectoryView,
    name: Seq<u8>,
    rest: Seq<Seq<u8>>,
    elsewhere: Seq<Seq<u8>>,
    n: u64,
)
    requires
        find(sidebar.tree, path) is Some,
        sidebar.awaits(path, id),
        elsewhere != path,
        elsewhere.len() <= path.len() || elsewhere.take(path.len() as int) != path || exists|i: int|
            0 <= i < directory.entries.len() && (#[trigger] directory.entries[i]).name
                == elsewhere[path.len() as int],
    ensures
        ({
            let after = sidebar.load_replied(path, id, Ok(directory));
            let gone = child_named(find(sidebar.tree, path)->0.children, name) is Some && forall|
                i: int,
            |
                0 <= i < directory.entries.len() ==> (#[trigger] directory.entries[i]).name != name;
            &&& gone ==> !after.awaits(path.push(name) + rest, n)
            &&& after.awaits(elsewhere, n) <==> sidebar.awaits(elsewhere, n)
        }),
{
    let before = find(sidebar.tree, path)->0;
    let below = path.push(name) + rest;
    assert(below.take(path.len() as int) =~= path);
    assert(below[path.len() as int] == name);
    lemma_index_of(before.children, name);
    if child_named(before.children, name) is Some {
        let at = index_of(before.children, name) as int;
        assert(before.children[at].name == below[path.len() as int]);
    }
}

/// The view moves by as many rows as are asked for, down or up, as far as there
/// are rows.
pub proof fn views_scroll_by_rows(sidebar: SidebarView, delta: int, height: int)
    requires
        0 <= height,
    ensures
        0 <= sidebar.scroll + delta && sidebar.scroll + delta + height <= sidebar.rows().len()
            ==> sidebar.scroll_goal(delta, height) == sidebar.scroll + delta,
        sidebar.scroll + delta <= 0 ==> sidebar.scroll_goal(delta, height) == 0,
        sidebar.scroll + delta + height > sidebar.rows().len() && height
            <= sidebar.rows().len() ==> sidebar.scroll_goal(delta, height)
            == sidebar.rows().len() - height,
        height > sidebar.rows().len() ==> sidebar.scroll_goal(delta, height) == 0,
{
}

/// A mark goes to the node at the end of its path and to the directories that
/// lead to it. No other node is marked, none moves, and nothing but marks
/// changes.
pub proof fn marks_go_where_they_belong(
    tree: NodeView,
    names: Seq<Seq<u8>>,
    status: GitStatus,
    path: Seq<Seq<u8>>,
)
    ensures
        marked(tree, names, status).name == tree.name,
        find(marked(tree, names, status), path) is Some <==> find(tree, path) is Some,
        find(tree, path) matches Some(before) ==> {
            let after = find(marked(tree, names, status), path)->0;
            &&& after.git.status == if path == names {
                Some(heavier(before.git.status, status))
            } else {
                before.git.status
            }
            &&& after.git.dirty_descendant <==> before.git.dirty_descendant || leads_to(path, names)
            &&& after == (NodeView { git: after.git, children: after.children, ..before })
        },
    decreases names.len(),
{
    let after = marked(tree, names, status);
    if path.len() == 0 {
        if names.len() == 0 {
            assert(path =~= names);
        } else {
            assert(names.take(0) =~= path);
        }
    } else {
        let j = index_of(tree.children, path[0]) as int;
        lemma_index_of(tree.children, path[0]);
        if names.len() > 0 {
            let at = index_of(tree.children, names[0]) as int;
            lemma_index_of(tree.children, names[0]);
            if at < tree.children.len() {
                marks_go_where_they_belong(
                    tree.children[at],
                    names.skip(1),
                    status,
                    path.skip(1),
                );
            }
            assert forall|i: int| 0 <= i < tree.children.len() implies after.children[i].name
                == tree.children[i].name by {}
            lemma_index_unique(after.children, path[0], j);
            if names[0] == path[0] {
                same_below_the_first(path, names);
            } else {
                assert(!leads_to(path, names)) by {
                    if leads_to(path, names) {
                        assert(names.take(path.len() as int)[0] == names[0]);
                    }
                }
            }
        }
    }
}

/// Whether a path leads to another one, which goes on from there.
pub open spec fn leads_to(path: Seq<Seq<u8>>, names: Seq<Seq<u8>>) -> bool {
    path.len() < names.len() && names.take(path.len() as int) == path
}

proof fn same_below_the_first(path: Seq<Seq<u8>>, names: Seq<Seq<u8>>)
    requires
        path.len() > 0,
        names.len() > 0,
        path[0] == names[0],
    ensures
        path == names <==> path.skip(1) == names.skip(1),
        leads_to(path, names) <==> leads_to(path.skip(1), names.skip(1)),
{
    assert(path =~= seq![path[0]] + path.skip(1));
    assert(names =~= seq![names[0]] + names.skip(1));
    if path.len() < names.len() {
        let head = names.take(path.len() as int);
        assert(head.skip(1) =~= names.skip(1).take(path.len() - 1));
        assert(head =~= seq![names[0]] + head.skip(1));
    }
}

/// Whether a change is that of a path.
pub open spec fn tells_of(change: ChangeView, path: Seq<Seq<u8>>) -> bool {
    names_below(change.path) == Some(path)
}

/// Whether a change is that of something below a path.
pub open spec fn tells_below(change: ChangeView, path: Seq<Seq<u8>>) -> bool {
    names_below(change.path) matches Some(names) && leads_to(path, names)
}

/// Whether the marks of a node are what a list of changes tells of its path: the
/// gravest status of the changes of the path itself, and whether there are
/// changes below it.
pub open spec fn marked_as_told(
    git: GitDecoration,
    changes: Seq<ChangeView>,
    count: int,
    path: Seq<Seq<u8>>,
) -> bool {
    &&& git.status is None <==> forall|i: int|
        0 <= i < count ==> !tells_of(#[trigger] changes[i], path)
    &&& git.status matches Some(status) ==> exists|i: int|
        0 <= i < count && tells_of(#[trigger] changes[i], path) && changes[i].status == status
    &&& git.status matches Some(status) ==> forall|i: int|
        0 <= i < count && tells_of(#[trigger] changes[i], path) ==> weight(changes[i].status)
            <= weight(status)
    &&& git.dirty_descendant <==> exists|i: int|
        0 <= i < count && tells_below(#[trigger] changes[i], path)
}

/// Whether a change is not that of a file that is gone from the tree.
pub open spec fn tells_of_known(tree: NodeView, change: ChangeView) -> bool {
    change.status == GitStatus::Deleted ==> (names_below(change.path) matches Some(names)
        ==> find(tree, names) is Some)
}

proof fn changes_move_nothing(
    tree: NodeView,
    changes: Seq<ChangeView>,
    count: int,
    path: Seq<Seq<u8>>,
)
    requires
        0 <= count <= changes.len(),
        forall|i: int| 0 <= i < count ==> tells_of_known(tree, #[trigger] changes[i]),
    ensures
        find(changes_shown(tree, changes, count), path) is Some <==> find(tree, path) is Some,
    decreases count,
{
    if count > 0 {
        changes_move_nothing(tree, changes, count - 1, path);
        let shown = changes_shown(tree, changes, count - 1);
        let change = changes[count - 1];
        assert(tells_of_known(tree, change));
        if names_below(change.path) is Some {
            let names = names_below(change.path)->0;
            changes_move_nothing(tree, changes, count - 1, names);
            assert(gone_shown(shown, names, change.status) == shown);
            marks_go_where_they_belong(shown, names, change.status, path);
        }
    }
}

proof fn changes_add_up(
    tree: NodeView,
    changes: Seq<ChangeView>,
    count: int,
    path: Seq<Seq<u8>>,
)
    requires
        0 <= count <= changes.len(),
        find(tree, path) matches Some(node) && node.git.status is None
            && !node.git.dirty_descendant,
        forall|i: int| 0 <= i < count ==> tells_of_known(tree, #[trigger] changes[i]),
    ensures
        find(changes_shown(tree, changes, count), path) matches Some(after) && {
            &&& marked_as_told(after.git, changes, count, path)
            &&& after == (NodeView {
                git: after.git,
                children: after.children,
                ..find(tree, path)->0
            })
        },
    decreases count,
{
    if count > 0 {
        changes_add_up(tree, changes, count - 1, path);
        let shown = changes_shown(tree, changes, count - 1);
        let change = changes[count - 1];
        let before = find(shown, path)->0;
        match names_below(change.path) {
            None => {
                assert(!tells_of(change, path) && !tells_below(change, path));
            },
            Some(names) => {
                assert(tells_of_known(tree, change));
                changes_move_nothing(tree, changes, count - 1, names);
                assert(gone_shown(shown, names, change.status) == shown);
                marks_go_where_they_belong(shown, names, change.status, path);
            },
        }
        let after = find(change_shown(shown, change), path)->0;
        if tells_of(change, path) {
            assert(changes[count - 1].status == change.status);
            if before.git.status is Some && after.git.status == before.git.status {
                let i = choose|i: int|
                    0 <= i < count - 1 && tells_of(#[trigger] changes[i], path)
                        && changes[i].status == before.git.status->0;
                assert(tells_of(changes[i], path));
            }
        } else if before.git.status is Some {
            let i = choose|i: int|
                0 <= i < count - 1 && tells_of(#[trigger] changes[i], path) && changes[i].status
                    == before.git.status->0;
            assert(tells_of(changes[i], path));
        }
        if before.git.dirty_descendant {
            let i = choose|i: int| 0 <= i < count - 1 && tells_below(#[trigger] changes[i], path);
            assert(tells_below(changes[i], path));
        } else if leads_to(path, names_below(change.path)->0) {
            assert(names_below(change.path) is Some ==> tells_below(changes[count - 1], path));
        }
    }
}

/// Whether a node and what leads to it are there, and not only told of.
pub open spec fn really_there(tree: NodeView, path: Seq<Seq<u8>>) -> bool {
    forall|k: int|
        0 < k <= path.len() ==> (find(tree, #[trigger] path.take(k)) matches Some(node)
            && !node.synthetic_deleted)
}

proof fn kept_child(children: Seq<NodeView>, count: nat, at: int) -> (kept: int)
    requires
        0 <= at < count <= children.len(),
        !children[at].synthetic_deleted,
        forall|i: int| 0 <= i < at ==> children[i].name != children[at].name,
    ensures
        0 <= kept < cleared_children(children, count).len(),
        cleared_children(children, count)[kept] == cleared(children[at]),
        forall|i: int|
            0 <= i < kept ==> (#[trigger] cleared_children(children, count)[i]).name
                != children[at].name,
    decreases count,
{
    let before = cleared_children(children, (count - 1) as nat);
    if at == count - 1 {
        others_are_kept(children, (count - 1) as nat, children[at].name);
        before.len() as int
    } else {
        let kept = kept_child(children, (count - 1) as nat, at);
        assert forall|i: int| 0 <= i < kept implies (#[trigger] cleared_children(
            children,
            count,
        )[i]).name != children[at].name by {
            assert(cleared_children(children, count)[i] == before[i]);
        }
        kept
    }
}

proof fn others_are_kept(children: Seq<NodeView>, count: nat, name: Seq<u8>)
    requires
        count <= children.len(),
        forall|i: int| 0 <= i < count ==> children[i].name != name,
    ensures
        forall|i: int|
            0 <= i < cleared_children(children, count).len() ==> (#[trigger] cleared_children(
                children,
                count,
            )[i]).name != name,
    decreases count,
{
    if count > 0 {
        others_are_kept(children, (count - 1) as nat, name);
        let before = cleared_children(children, (count - 1) as nat);
        let child = children[count - 1];
        assert(cleared(child).name == child.name && child.name != name);
        assert forall|i: int| 0 <= i < cleared_children(children, count).len() implies (
        #[trigger] cleared_children(children, count)[i]).name != name by {
            if i < before.len() {
                assert(cleared_children(children, count)[i] == before[i]);
            }
        }
    }
}

/// To take the marks off leaves every file that is there in its place, and as it
/// was but for the marks.
pub proof fn clearing_keeps_what_is_there(tree: NodeView, path: Seq<Seq<u8>>)
    requires
        find(tree, path) is Some,
        really_there(tree, path),
    ensures
        find(cleared(tree), path) matches Some(after) && {
            &&& after.git.status is None
            &&& !after.git.dirty_descendant
            &&& after == (NodeView {
                git: after.git,
                children: after.children,
                ..find(tree, path)->0
            })
        },
    decreases path.len(),
{
    if path.len() > 0 {
        let at = index_of(tree.children, path[0]) as int;
        lemma_index_of(tree.children, path[0]);
        let child = tree.children[at];
        let rest = path.skip(1);
        assert(!child.synthetic_deleted) by {
            let first = path.take(1);
            assert(first[0] == path[0]);
            assert(first.skip(1) =~= Seq::empty());
            assert(find(tree, first) == find(child, first.skip(1)));
        }
        assert forall|k: int| 0 < k <= rest.len() implies (find(
            child,
            #[trigger] rest.take(k),
        ) matches Some(node) && !node.synthetic_deleted) by {
            let longer = path.take(k + 1);
            assert(longer[0] == path[0]);
            assert(longer.skip(1) =~= rest.take(k));
        }
        clearing_keeps_what_is_there(child, rest);
        let kept = kept_child(tree.children, tree.children.len(), at);
        lemma_index_unique(cleared(tree).children, path[0], kept);
    }
}

/// What Git tells shows in the tree: each file that is there has the gravest
/// status that was told of it, none where none was told, and a directory is
/// marked as changed below if and only if something below it was told of.
/// Earlier marks are gone. An answer that is not waited for changes nothing.
pub proof fn statuses_are_shown_as_told(
    sidebar: SidebarView,
    id: u64,
    changes: Seq<ChangeView>,
    path: Seq<Seq<u8>>,
)
    requires
        find(sidebar.tree, path) is Some,
        really_there(sidebar.tree, path),
        forall|i: int|
            0 <= i < changes.len() ==> tells_of_known(
                cleared(sidebar.tree),
                #[trigger] changes[i],
            ),
    ensures
        sidebar.pending_git == Some(id) ==> {
            let after = sidebar.git_replied(id, Ok(changes));
            &&& find(after.tree, path) matches Some(node) && {
                &&& marked_as_told(node.git, changes, changes.len() as int, path)
                &&& node == (NodeView {
                    git: node.git,
                    children: node.children,
                    ..find(sidebar.tree, path)->0
                })
            }
            &&& after.git_error is None
            &&& after.pending_git is None
        },
        sidebar.pending_git != Some(id) ==> sidebar.git_replied(id, Ok(changes)) == sidebar,
{
    clearing_keeps_what_is_there(sidebar.tree, path);
    changes_add_up(cleared(sidebar.tree), changes, changes.len() as int, path);
}

/// Where Git fails, the reason is kept and no mark is left.
pub proof fn failures_leave_no_marks(
    sidebar: SidebarView,
    id: u64,
    error: Seq<char>,
    path: Seq<Seq<u8>>,
)
    requires
        sidebar.pending_git == Some(id),
        find(sidebar.tree, path) is Some,
        really_there(sidebar.tree, path),
    ensures
        ({
            let after = sidebar.git_replied(id, Err(error));
            &&& after.git_error == Some(error)
            &&& after.pending_git is None
            &&& find(after.tree, path) matches Some(node) && node.git.status is None
                && !node.git.dirty_descendant
        }),
{
    clearing_keeps_what_is_there(sidebar.tree, path);
}

/// Git is asked again when the interval is over since it was last asked, unless
/// an answer is still waited for, and never sooner.
pub proof fn git_is_asked_in_time(sidebar: SidebarView, now: Instant)
    requires
        sidebar.last_git.nanos <= now.nanos,
    ensures
        sidebar.git_due(now) <==> sidebar.pending_git is None && now.nanos - sidebar.last_git.nanos
            >= sidebar.config.git_refresh_interval.nanos,
        sidebar.git_job() is None <==> sidebar.pending_git is Some,
        sidebar.git_job() matches Some(job) ==> job == (JobView::Git { id: sidebar.next_id })
            && sidebar.git_asked().next_id != sidebar.next_id,
{
}

/// A load knows what the directories around its own resolve to, and nothing else,
/// so that a link back to one of them is found out.
pub proof fn loads_know_what_is_around(sidebar: SidebarView, path: Seq<Seq<u8>>, target: Seq<u8>)
    requires
        sidebar.load_job(path) is Some,
    ensures
        sidebar.load_job(path)->0->ancestor_targets.contains(target) <==> exists|k: int|
            0 <= k < path.len() && (find(sidebar.tree, #[trigger] path.take(k)) matches Some(node)
                && node.canonical_dir == Some(target)),
{
    targets_are_those_on_the_way(sidebar.tree, path, path.len() as int, target);
}

proof fn targets_are_those_on_the_way(
    tree: NodeView,
    path: Seq<Seq<u8>>,
    count: int,
    target: Seq<u8>,
)
    requires
        0 <= count <= path.len(),
    ensures
        targets_on_way(tree, path, count).contains(target) <==> exists|k: int|
            0 <= k < count && (find(tree, #[trigger] path.take(k)) matches Some(node)
                && node.canonical_dir == Some(target)),
    decreases count,
{
    if count > 0 {
        targets_are_those_on_the_way(tree, path, count - 1, target);
        let rest = targets_on_way(tree, path, count - 1);
        let all = targets_on_way(tree, path, count);
        let nearest = all.take(all.len() - rest.len());
        assert(all =~= nearest + rest);
        let here = find(tree, path.take(count - 1));
        let is_here = here matches Some(node) && node.canonical_dir == Some(target);
        if all.contains(target) {
            let i = choose|i: int| 0 <= i < all.len() && all[i] == target;
            if i >= nearest.len() {
                assert(rest[i - nearest.len()] == target);
                let k = choose|k: int|
                    0 <= k < count - 1 && (find(tree, #[trigger] path.take(k)) matches Some(node)
                        && node.canonical_dir == Some(target));
                assert(0 <= k < count);
            }
        }
        if rest.contains(target) {
            let i = choose|i: int| 0 <= i < rest.len() && rest[i] == target;
            assert(all[nearest.len() + i] == target);
        }
        if is_here {
            assert(all[0] == target);
        }
        if exists|k: int|
            0 <= k < count && (find(tree, #[trigger] path.take(k)) matches Some(node)
                && node.canonical_dir == Some(target)) {
            let k = choose|k: int|
                0 <= k < count && (find(tree, #[trigger] path.take(k)) matches Some(node)
                    && node.canonical_dir == Some(target));
            if k < count - 1 {
                assert(rest.contains(target));
            }
        }
    }
}

/// A directory that is to be read again is asked for when it next opens, and is
/// shown as it was until then.
pub proof fn reloads_are_asked_for(sidebar: SidebarView, path: Seq<Seq<u8>>, other: Seq<Seq<u8>>)
    requires
        find(sidebar.tree, path) is Some,
        other != path,
    ensures
        ({
            let after = sidebar.invalidated(path);
            let node = find(sidebar.tree, path)->0;
            &&& node.kind.directory() ==> {
                &&& find(after.tree, path) == Some(NodeView { loaded: false, ..node })
                &&& after.load_job(path) matches Some(job) && job is Load && job->Load_path == path
                &&& find(sidebar.tree, other) matches Some(before) ==> find(after.tree, other)
                    is Some && alike(find(after.tree, other)->0, before)
            }
            &&& !node.kind.directory() ==> after == sidebar
        }),
{
    let node = find(sidebar.tree, path)->0;
    let new = NodeView { loaded: false, ..node };
    what_is_put_is_found(sidebar.tree, path, new);
    other_nodes_stay(sidebar.tree, path, new, other);
}

/// A path that Git tells is found by its names: a name alone is a path of one
/// name, and one more name leads one step further.
pub proof fn told_names_lead_to_files(base: Seq<u8>, name: Seq<u8>)
    requires
        plain_name(name),
    ensures
        names_below(name) == Some(seq![name]),
        base.len() > 0 && names_below(base) is Some ==> names_below(joined(base, name)) == Some(
            names_below(base)->0.push(name),
        ),
        base.len() > 0 && names_below(base) is None ==> names_below(joined(base, name)) is None,
{
    lemma_split_last(name, SLASH);
    let pieces = split(name, SLASH);
    assert(name[0] != SLASH);
    reveal_with_fuel(parts_of, 2);
    assert(parts(name) =~= seq![Part::Name(name)]);
    reveal_with_fuel(names_among, 2);
    assert(names_among(parts(name), 1) =~= seq![name]);
    if base.len() > 0 {
        joined_names_come_last(base, name);
        let found = parts(base);
        let longer = parts(joined(base, name));
        assert(longer.len() == found.len() + 1);
        same_names_among(found, longer, found.len() as int);
        assert(longer[found.len() as int] == Part::Name(name));
        if names_below(base) is None {
            let i = choose|i: int|
                0 <= i < found.len() && (#[trigger] found[i] is Root || found[i] is Parent);
            assert(longer[i] == found[i]);
        } else {
            assert forall|i: int| 0 <= i < longer.len() implies !(#[trigger] longer[i] is Root
                || longer[i] is Parent) by {
                if i < found.len() {
                    assert(longer[i] == found[i]);
                }
            }
        }
    }
}

proof fn same_names_among(left: Seq<Part>, right: Seq<Part>, count: int)
    requires
        count <= left.len(),
        count <= right.len(),
        forall|i: int| 0 <= i < count ==> left[i] == right[i],
    ensures
        names_among(left, count) == names_among(right, count),
    decreases count,
{
    if count > 0 {
        same_names_among(left, right, count - 1);
    }
}

/// A file that is gone gets no node where its directory is closed, was not read
/// or is not there. What is shown already stays where it is, and so it does for
/// a file that is still there.
pub proof fn closed_directories_hide_what_is_gone(
    tree: NodeView,
    change: ChangeView,
    names: Seq<Seq<u8>>,
    path: Seq<Seq<u8>>,
)
    requires
        names_below(change.path) == Some(names),
        find(tree, names) is Some || change.status != GitStatus::Deleted || (find(
            tree,
            names.drop_last(),
        ) matches Some(parent) ==> !parent.loaded || !parent.expanded),
    ensures
        find(change_shown(tree, change), path) is Some <==> find(tree, path) is Some,
        find(tree, path) matches Some(before) ==> find(change_shown(tree, change), path)->0.kind
            == before.kind,
{
    assert(gone_shown(tree, names, change.status) == tree);
    marks_go_where_they_belong(tree, names, change.status, path);
}

} // verus!
