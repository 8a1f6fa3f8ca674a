//! What becomes of the entries of a directory.

use vstd::prelude::*;

use crate::path::{
    joined, joined_names_come_last, leads_into, parts, paths_lead_into_themselves, plain_name,
    FilePath,
};
use crate::workspace::order::{
    is_listing, key_before, key_views, listed_before, listing_order, listings_are_total,
    listings_are_unique, listings_exist, listings_hold_every_place, name_before, places, KeyView,
    SortKey,
};
use crate::workspace::tree::{
    copy_bytes, copy_path, copy_text, entry_views, EntryKind, EntryView, LoadedEntry,
};

verus! {

/// Where a symbolic link leads.
#[derive(Debug)]
pub enum LinkTarget {
    /// Nowhere, and why.
    Unresolved(String),
    /// To a path, and whether there is a directory; or why that is not known.
    Resolved { target: FilePath, directory: Result<bool, String> },
}

/// What an entry was found to be.
#[derive(Debug)]
pub enum FoundKind {
    Symlink(LinkTarget),
    /// A directory, and its resolved path if it has one.
    Directory(Option<FilePath>),
    File,
    Other,
}

/// An entry of a directory, as it was found.
#[derive(Debug)]
pub struct FoundEntry {
    pub name: Vec<u8>,
    pub kind: FoundKind,
}

pub enum LinkView {
    Unresolved(Seq<char>),
    Resolved { target: Seq<u8>, directory: Result<bool, Seq<char>> },
}

pub enum FoundKindView {
    Symlink(LinkView),
    Directory(Option<Seq<u8>>),
    File,
    Other,
}

pub struct FoundView {
    pub name: Seq<u8>,
    pub kind: FoundKindView,
}

impl View for LinkTarget {
    type V = LinkView;

    open spec fn view(&self) -> LinkView {
        match self {
            LinkTarget::Unresolved(error) => LinkView::Unresolved(error@),
            LinkTarget::Resolved { target, directory } => LinkView::Resolved {
                target: target@,
                directory: match directory {
                    Ok(is_directory) => Ok(*is_directory),
                    Err(error) => Err(error@),
                },
            },
        }
    }
}

impl View for FoundKind {
    type V = FoundKindView;

    open spec fn view(&self) -> FoundKindView {
        match self {
            FoundKind::Symlink(link) => FoundKindView::Symlink(link@),
            FoundKind::Directory(path) => FoundKindView::Directory(
                match path {
                    Some(path) => Some(path@),
                    None => None,
                },
            ),
            FoundKind::File => FoundKindView::File,
            FoundKind::Other => FoundKindView::Other,
        }
    }
}

impl View for FoundEntry {
    type V = FoundView;

    open spec fn view(&self) -> FoundView {
        FoundView { name: self.name@, kind: self.kind@ }
    }
}

pub open spec fn found_views(entries: Seq<FoundEntry>) -> Seq<FoundView> {
    entries.map_values(|entry: FoundEntry| entry@)
}

pub open spec fn path_views(paths: Seq<FilePath>) -> Seq<Seq<u8>> {
    paths.map_values(|path: FilePath| path@)
}

/// Whether two paths have the same parts.
pub open spec fn same_place(left: Seq<u8>, right: Seq<u8>) -> bool {
    parts(left) == parts(right)
}

/// Whether one of the paths has the parts of `path`.
pub open spec fn is_among(paths: Seq<Seq<u8>>, path: Seq<u8>) -> bool {
    exists|i: int| 0 <= i < paths.len() && same_place(#[trigger] paths[i], path)
}

/// Why a directory is not listed.
#[derive(Debug, Clone, Copy, PartialEq, Eq, Structural)]
pub enum LoadError {
    Escapes,
    Cycle,
}

impl LoadError {
    pub open spec fn spec_message(self) -> Seq<char> {
        match self {
            LoadError::Escapes => "symlink target escapes workspace"@,
            LoadError::Cycle => "symlink cycle through an ancestor"@,
        }
    }

    pub fn message(self) -> (message: &'static str)
        ensures
            message@ == self.spec_message(),
    {
        match self {
            LoadError::Escapes => "symlink target escapes workspace",
            LoadError::Cycle => "symlink cycle through an ancestor",
        }
    }
}

/// Why the directory that a path resolves to is not listed, if it is not: it is
/// outside the workspace, or one of the directories that lead to it.
pub open spec fn refusal(root: Seq<u8>, canonical: Seq<u8>, ancestors: Seq<Seq<u8>>) -> Option<
    LoadError,
> {
    if !leads_into(canonical, root) {
        Some(LoadError::Escapes)
    } else if is_among(ancestors, canonical) {
        Some(LoadError::Cycle)
    } else {
        None
    }
}

/// A symbolic link in a directory: it can be opened only where it leads to a
/// directory in the workspace that is not one of those around it.
pub open spec fn classified_link(
    root: Seq<u8>,
    canonical: Seq<u8>,
    ancestors: Seq<Seq<u8>>,
    name: Seq<u8>,
    link: LinkView,
) -> EntryView {
    let closed = EntryView { name, kind: EntryKind::Symlink, canonical_dir: None, error: None };
    match link {
        LinkView::Unresolved(error) => EntryView { error: Some(error), ..closed },
        LinkView::Resolved { target, directory } => if !leads_into(target, root) {
            EntryView { error: Some(LoadError::Escapes.spec_message()), ..closed }
        } else {
            match directory {
                Err(error) => EntryView { error: Some(error), ..closed },
                Ok(false) => closed,
                Ok(true) => if same_place(target, canonical) || is_among(ancestors, target) {
                    EntryView { error: Some(LoadError::Cycle.spec_message()), ..closed }
                } else {
                    EntryView {
                        name,
                        kind: EntryKind::SymlinkDirectory,
                        canonical_dir: Some(target),
                        error: None,
                    }
                },
            }
        },
    }
}

/// What is shown of an entry.
pub open spec fn classified(
    root: Seq<u8>,
    canonical: Seq<u8>,
    ancestors: Seq<Seq<u8>>,
    found: FoundView,
) -> EntryView {
    match found.kind {
        FoundKindView::Symlink(link) => classified_link(
            root,
            canonical,
            ancestors,
            found.name,
            link,
        ),
        FoundKindView::Directory(path) => EntryView {
            name: found.name,
            kind: EntryKind::Directory,
            canonical_dir: path,
            error: None,
        },
        FoundKindView::File => EntryView {
            name: found.name,
            kind: EntryKind::File,
            canonical_dir: None,
            error: None,
        },
        FoundKindView::Other => EntryView {
            name: found.name,
            kind: EntryKind::Other,
            canonical_dir: None,
            error: None,
        },
    }
}

/// `.git`
pub open spec fn dot_git() -> Seq<u8> {
    seq![0x2eu8, 0x67u8, 0x69u8, 0x74u8]
}

/// What is shown of a directory, in the order in which it was found. The data of
/// Git itself are not shown.
pub open spec fn shown_entries(
    root: Seq<u8>,
    canonical: Seq<u8>,
    ancestors: Seq<Seq<u8>>,
    found: Seq<FoundView>,
) -> Seq<EntryView> {
    found.filter(|entry: FoundView| entry.name != dot_git()).map_values(
        |entry: FoundView| classified(root, canonical, ancestors, entry),
    )
}

pub open spec fn entry_keys(entries: Seq<EntryView>) -> Seq<KeyView> {
    entries.map_values(
        |entry: EntryView| KeyView { directory: entry.kind.directory(), name: entry.name },
    )
}

/// Entries in the order in which they are listed.
pub open spec fn listed_entries(entries: Seq<EntryView>) -> Seq<EntryView> {
    let order = choose|order: Seq<usize>| is_listing(entry_keys(entries), order);
    Seq::new(entries.len(), |i: int| entries[order[i] as int])
}

/// Whether no entry stands before one that is listed before it.
pub open spec fn in_list_order(entries: Seq<EntryView>) -> bool {
    forall|i: int, j: int|
        0 <= i < j < entries.len() ==> !key_before(
            #[trigger] entry_keys(entries)[j],
            #[trigger] entry_keys(entries)[i],
        )
}

/// A directory that was listed. Where it has more entries than are shown it is
/// cut short.
#[derive(Debug)]
pub struct LoadedDirectory {
    pub canonical: FilePath,
    pub entries: Vec<LoadedEntry>,
    pub truncated: bool,
}

pub struct DirectoryView {
    pub canonical: Seq<u8>,
    pub entries: Seq<EntryView>,
    pub truncated: bool,
}

impl View for LoadedDirectory {
    type V = DirectoryView;

    open spec fn view(&self) -> DirectoryView {
        DirectoryView {
            canonical: self.canonical@,
            entries: entry_views(self.entries@),
            truncated: self.truncated,
        }
    }
}

/// A directory with the given entries, as it is shown.
pub open spec fn directory_of(
    root: Seq<u8>,
    canonical: Seq<u8>,
    ancestors: Seq<Seq<u8>>,
    cap: int,
    found: Seq<FoundView>,
) -> DirectoryView {
    let all = listed_entries(shown_entries(root, canonical, ancestors, found));
    DirectoryView {
        canonical,
        entries: if all.len() > cap {
            all.take(cap)
        } else {
            all
        },
        truncated: all.len() > cap,
    }
}

fn at_same_place(left: &FilePath, right: &FilePath) -> (same: bool)
    ensures
        same == same_place(left@, right@),
{
    let same = left.starts_with(right) && right.starts_with(left);
    proof {
        let l = parts(left@);
        let r = parts(right@);
        if same {
            assert(l.take(r.len() as int) =~= l);
        }
        if l == r {
            assert(l.take(r.len() as int) =~= l);
        }
    }
    same
}

fn among(paths: &Vec<FilePath>, path: &FilePath) -> (result: bool)
    ensures
        result == is_among(path_views(paths@), path@),
{
    let ghost views = path_views(paths@);
    let mut i: usize = 0;
    while i < paths.len()
        invariant
            i <= paths@.len(),
            views == path_views(paths@),
            forall|j: int| 0 <= j < i ==> !same_place(#[trigger] views[j], path@),
        decreases paths@.len() - i,
    {
        assert(views[i as int] == paths@[i as int]@);
        if at_same_place(&paths[i], path) {
            return true;
        }
        i += 1;
    }
    false
}

/// Whether a directory may be listed, before it is read.
pub fn check_directory(root: &FilePath, canonical: &FilePath, ancestor_targets: &Vec<FilePath>) -> (
    result: Result<(), LoadError>)
    ensures
        result == match refusal(root@, canonical@, path_views(ancestor_targets@)) {
            Some(error) => Err(error),
            None => Ok(()),
        },
{
    if !canonical.starts_with(root) {
        return Err(LoadError::Escapes);
    }
    if among(ancestor_targets, canonical) {
        return Err(LoadError::Cycle);
    }
    Ok(())
}

fn closed_link(name: &Vec<u8>, error: Option<String>) -> (entry: LoadedEntry)
    ensures
        entry@ == (EntryView {
            name: name@,
            kind: EntryKind::Symlink,
            canonical_dir: None,
            error: match error {
                Some(error) => Some(error@),
                None => None,
            },
        }),
{
    LoadedEntry { name: copy_bytes(name), kind: EntryKind::Symlink, canonical_dir: None, error }
}

fn classify(
    root: &FilePath,
    canonical: &FilePath,
    ancestor_targets: &Vec<FilePath>,
    found: &FoundEntry,
) -> (entry: LoadedEntry)
    ensures
        entry@ == classified(root@, canonical@, path_views(ancestor_targets@), found@),
{
    match &found.kind {
        FoundKind::Symlink(LinkTarget::Unresolved(error)) => closed_link(
            &found.name,
            Some(error.clone()),
        ),
        FoundKind::Symlink(LinkTarget::Resolved { target, directory }) => {
            if !target.starts_with(root) {
                return closed_link(&found.name, Some(LoadError::Escapes.message().to_owned()));
            }
            match directory {
                Err(error) => closed_link(&found.name, Some(error.clone())),
                Ok(is_directory) => if !*is_directory {
                    closed_link(&found.name, None)
                } else if at_same_place(target, canonical) || among(ancestor_targets, target) {
                    closed_link(&found.name, Some(LoadError::Cycle.message().to_owned()))
                } else {
                    LoadedEntry {
                        name: copy_bytes(&found.name),
                        kind: EntryKind::SymlinkDirectory,
                        canonical_dir: Some(target.copy()),
                        error: None,
                    }
                },
            }
        },
        FoundKind::Directory(path) => LoadedEntry {
            name: copy_bytes(&found.name),
            kind: EntryKind::Directory,
            canonical_dir: copy_path(path),
            error: None,
        },
        FoundKind::File => LoadedEntry {
            name: copy_bytes(&found.name),
            kind: EntryKind::File,
            canonical_dir: None,
            error: None,
        },
        FoundKind::Other => LoadedEntry {
            name: copy_bytes(&found.name),
            kind: EntryKind::Other,
            canonical_dir: None,
            error: None,
        },
    }
}

fn is_dot_git(name: &Vec<u8>) -> (result: bool)
    ensures
        result == (name@ == dot_git()),
{
    let result: bool = name.len() == 4 && name[0] == 0x2e && name[1] == 0x67 && name[2] == 0x69
        && name[3] == 0x74;
    assert(result == (name@ =~= dot_git()));
    result
}

fn copy_entry(entry: &LoadedEntry) -> (copy: LoadedEntry)
    ensures
        copy@ == entry@,
{
    LoadedEntry {
        name: copy_bytes(&entry.name),
        kind: entry.kind,
        canonical_dir: copy_path(&entry.canonical_dir),
        error: copy_text(&entry.error),
    }
}

/// Lists a directory: `canonical` is what its path resolves to and `found` what
/// is in it.
pub fn load_directory(
    root: &FilePath,
    canonical: &FilePath,
    ancestor_targets: &Vec<FilePath>,
    cap: usize,
    found: &Vec<FoundEntry>,
) -> (result: Result<LoadedDirectory, LoadError>)
    ensures
        match refusal(root@, canonical@, path_views(ancestor_targets@)) {
            Some(error) => result == Err::<LoadedDirectory, _>(error),
            None => result matches Ok(directory) && directory@ == directory_of(
                root@,
                canonical@,
                path_views(ancestor_targets@),
                cap as int,
                found_views(found@),
            ) && in_list_order(directory@.entries),
        },
{
    match check_directory(root, canonical, ancestor_targets) {
        Ok(()) => {},
        Err(error) => return Err(error),
    }
    let ghost ancestors = path_views(ancestor_targets@);
    let ghost views = found_views(found@);
    let ghost shown = shown_entries(root@, canonical@, ancestors, views);
    let mut entries: Vec<LoadedEntry> = Vec::new();
    let mut i: usize = 0;
    assert(entry_views(entries@) =~= shown_entries(root@, canonical@, ancestors, views.take(0)))
        by {
        reveal(Seq::filter);
    }
    while i < found.len()
        invariant
            i <= found@.len(),
            views == found_views(found@),
            ancestors == path_views(ancestor_targets@),
            entry_views(entries@) == shown_entries(
                root@,
                canonical@,
                ancestors,
                views.take(i as int),
            ),
        decreases found@.len() - i,
    {
        let ghost before = entry_views(entries@);
        let ghost next = views.take(i + 1);
        proof {
            assert(next.drop_last() =~= views.take(i as int));
            assert(next.last() == found@[i as int]@);
            reveal(Seq::filter);
        }
        if !is_dot_git(&found[i].name) {
            let entry = classify(root, canonical, ancestor_targets, &found[i]);
            let ghost added = entry@;
            entries.push(entry);
            assert(entry_views(entries@) =~= before.push(added));
            assert(entry_views(entries@) =~= shown_entries(root@, canonical@, ancestors, next));
        } else {
            assert(entry_views(entries@) =~= shown_entries(root@, canonical@, ancestors, next));
        }
        i += 1;
    }
    assert(views.take(i as int) =~= views);
    let mut keys: Vec<SortKey> = Vec::new();
    let count: usize = entries.len();
    let mut j: usize = 0;
    while j < count
        invariant
            j <= count == entries@.len(),
            entry_views(entries@) == shown,
            keys@.len() == j,
            forall|k: int| 0 <= k < j ==> (#[trigger] keys@[k])@ == entry_keys(shown)[k],
        decreases count - j,
    {
        assert(shown[j as int] == entries@[j as int]@);
        keys.push(
            SortKey {
                directory: entries[j].kind.is_directory(),
                name: copy_bytes(&entries[j].name),
            },
        );
        j += 1;
    }
    assert(key_views(keys@) =~= entry_keys(shown));
    let order: Vec<usize> = listing_order(&keys);
    proof {
        let chosen = choose|order: Seq<usize>| is_listing(entry_keys(shown), order);
        listings_are_unique(entry_keys(shown), order@, chosen);
    }
    let limit: usize = if count > cap {
        cap
    } else {
        count
    };
    let mut listed: Vec<LoadedEntry> = Vec::new();
    let mut k: usize = 0;
    while k < limit
        invariant
            k <= limit <= count,
            count == entries@.len() == order@.len(),
            places(order@, count as int),
            entry_views(entries@) == shown,
            listed@.len() == k,
            forall|l: int| 0 <= l < k ==> (#[trigger] listed@[l])@ == shown[order@[l] as int],
        decreases limit - k,
    {
        assert(shown[order@[k as int] as int] == entries@[order@[k as int] as int]@);
        listed.push(copy_entry(&entries[order[k]]));
        k += 1;
    }
    let directory = LoadedDirectory {
        canonical: canonical.copy(),
        entries: listed,
        truncated: count > cap,
    };
    assert(directory@.entries =~= directory_of(
        root@,
        canonical@,
        ancestors,
        cap as int,
        views,
    ).entries);
    proof {
        let entries = directory@.entries;
        assert forall|a: int, b: int| 0 <= a < b < entries.len() implies !key_before(
            #[trigger] entry_keys(entries)[b],
            #[trigger] entry_keys(entries)[a],
        ) by {
            let (x, y) = (order@[a] as int, order@[b] as int);
            assert(entry_keys(entries)[a] == entry_keys(shown)[x]);
            assert(entry_keys(entries)[b] == entry_keys(shown)[y]);
            assert(listed_before(entry_keys(shown), x, y));
            listings_are_total(entry_keys(shown)[x], entry_keys(shown)[y]);
        }
    }
    Ok(directory)
}

/// A directory shows at most as many entries as allowed, and says when there
/// are more.
pub proof fn listings_are_capped(
    root: Seq<u8>,
    canonical: Seq<u8>,
    ancestors: Seq<Seq<u8>>,
    cap: int,
    found: Seq<FoundView>,
)
    requires
        cap >= 0,
    ensures
        ({
            let directory = directory_of(root, canonical, ancestors, cap, found);
            let all = shown_entries(root, canonical, ancestors, found).len();
            &&& directory.entries.len() <= cap
            &&& directory.truncated <==> all > cap
            &&& !directory.truncated ==> directory.entries.len() == all
        }),
{
}

/// A link can be opened only where it leads to a directory of the workspace, and
/// not back to one of the directories around it.
pub proof fn links_open_only_inside(
    root: Seq<u8>,
    canonical: Seq<u8>,
    ancestors: Seq<Seq<u8>>,
    name: Seq<u8>,
    link: LinkView,
)
    ensures
        ({
            let entry = classified_link(root, canonical, ancestors, name, link);
            &&& entry.kind == EntryKind::Symlink || entry.kind == EntryKind::SymlinkDirectory
            &&& entry.kind == EntryKind::SymlinkDirectory <==> (link matches LinkView::Resolved {
                target,
                directory,
            } && leads_into(target, root) && directory == Ok::<bool, Seq<char>>(true)
                && !same_place(target, canonical) && !is_among(ancestors, target))
        }),
{
}

/// The data of Git itself are never shown, and all else is.
pub proof fn only_git_data_are_hidden(
    root: Seq<u8>,
    canonical: Seq<u8>,
    ancestors: Seq<Seq<u8>>,
    found: Seq<FoundView>,
    at: int,
)
    requires
        0 <= at < shown_entries(root, canonical, ancestors, found).len(),
    ensures
        shown_entries(root, canonical, ancestors, found)[at].name != dot_git(),
        forall|i: int|
            0 <= i < found.len() && (#[trigger] found[i]).name != dot_git()
                ==> shown_entries(root, canonical, ancestors, found).contains(
                classified(root, canonical, ancestors, found[i]),
            ),
{
    let keep = |entry: FoundView| entry.name != dot_git();
    let kept = found.filter(keep);
    let shown = shown_entries(root, canonical, ancestors, found);
    found.lemma_filter_pred(keep, at);
    assert(shown[at] == classified(root, canonical, ancestors, kept[at]));
    assert forall|i: int| 0 <= i < found.len() && (#[trigger] found[i]).name != dot_git() implies shown.contains(
        classified(root, canonical, ancestors, found[i]),
    ) by {
        found.lemma_filter_contains(keep, i);
        let k = choose|k: int| 0 <= k < kept.len() && kept[k] == found[i];
        assert(shown[k] == classified(root, canonical, ancestors, kept[k]));
    }
}

/// Where links are not in the way, an entry is shown as what it is, under its own
/// name.
pub proof fn entries_are_shown_as_found(
    root: Seq<u8>,
    canonical: Seq<u8>,
    ancestors: Seq<Seq<u8>>,
    found: FoundView,
)
    ensures
        ({
            let entry = classified(root, canonical, ancestors, found);
            &&& entry.name == found.name
            &&& found.kind is File <==> entry.kind == EntryKind::File
            &&& found.kind is Other <==> entry.kind == EntryKind::Other
            &&& found.kind is Directory <==> entry.kind == EntryKind::Directory
            &&& found.kind !is Symlink ==> entry.error is None
            &&& found.kind matches FoundKindView::Directory(path) ==> entry.canonical_dir == path
            &&& entry.canonical_dir is Some ==> entry.kind.directory()
        }),
{
}

/// A link that cannot be opened says why: it leads out of the workspace, back
/// to a directory around it, or what went wrong. One to a file of the workspace
/// is no error.
pub proof fn closed_links_say_why(
    root: Seq<u8>,
    canonical: Seq<u8>,
    ancestors: Seq<Seq<u8>>,
    name: Seq<u8>,
    target: Seq<u8>,
    error: Seq<char>,
)
    ensures
        ({
            let link = |directory: Result<bool, Seq<char>>|
                classified_link(
                    root,
                    canonical,
                    ancestors,
                    name,
                    LinkView::Resolved { target, directory },
                );
            let inside = leads_into(target, root);
            &&& classified_link(
                root,
                canonical,
                ancestors,
                name,
                LinkView::Unresolved(error),
            ).error == Some(error)
            &&& !inside ==> link(Ok(true)).error == Some("symlink target escapes workspace"@)
                && link(Ok(false)).error == Some("symlink target escapes workspace"@)
                && link(Err(error)).error == Some("symlink target escapes workspace"@)
            &&& inside ==> link(Err(error)).error == Some(error)
            &&& inside ==> link(Ok(false)).error is None
            &&& inside && (same_place(target, canonical) || is_among(ancestors, target))
                ==> link(Ok(true)).error == Some("symlink cycle through an ancestor"@)
            &&& inside && !same_place(target, canonical) && !is_among(ancestors, target)
                ==> link(Ok(true)).error is None && link(Ok(true)).canonical_dir == Some(target)
            &&& link(Ok(true)).name == name && link(Ok(false)).name == name
        }),
{
}

/// What is below the workspace is listed, unless the way there already led
/// through it.
pub proof fn directories_of_the_workspace_are_listed(root: Seq<u8>, name: Seq<u8>)
    requires
        root.len() > 0,
        plain_name(name),
    ensures
        refusal(root, root, Seq::empty()) is None,
        refusal(root, joined(root, name), seq![root]) is None,
        refusal(root, root, seq![root]) == Some(LoadError::Cycle),
        refusal(joined(root, name), root, Seq::empty()) == Some(LoadError::Escapes),
{
    paths_lead_into_themselves(root);
    joined_names_come_last(root, name);
    let below = joined(root, name);
    assert(parts(below).len() == parts(root).len() + 1);
    assert(same_place(seq![root][0], root));
    assert(!is_among(Seq::empty(), root));
    assert forall|i: int| 0 <= i < seq![root].len() implies !same_place(
        #[trigger] seq![root][i],
        below,
    ) by {}
}

/// The entries of a directory are listed with its directories first and then by
/// name. A lower cap cuts off the end of the list.
pub proof fn directories_are_listed_in_order(
    root: Seq<u8>,
    canonical: Seq<u8>,
    ancestors: Seq<Seq<u8>>,
    cap: int,
    found: Seq<FoundView>,
    i: int,
    j: int,
)
    requires
        found.len() <= usize::MAX,
        0 <= cap,
        0 <= i < j < directory_of(root, canonical, ancestors, cap, found).entries.len(),
    ensures
        ({
            let entries = directory_of(root, canonical, ancestors, cap, found).entries;
            &&& entries[j].kind.directory() ==> entries[i].kind.directory()
            &&& entries[i].kind.directory() == entries[j].kind.directory() ==> !name_before(
                entries[j].name,
                entries[i].name,
            )
            &&& directory_of(root, canonical, ancestors, j, found).entries == entries.take(j)
        }),
{
    let shown = shown_entries(root, canonical, ancestors, found);
    let keys = entry_keys(shown);
    found.lemma_filter_len(|entry: FoundView| entry.name != dot_git());
    let known = listings_exist(keys);
    let order = choose|order: Seq<usize>| is_listing(keys, order);
    assert(keys.len() == shown.len() > 0);
    listings_hold_every_place(keys, order, 0);
    let x = order[i] as int;
    let y = order[j] as int;
    assert(order.len() == keys.len() == shown.len());
    assert(listed_before(keys, order[i] as int, order[j] as int));
    assert(order[i] < keys.len() && order[j] < keys.len());
    let entries = directory_of(root, canonical, ancestors, cap, found).entries;
    assert(entries[i] == shown[x] && entries[j] == shown[y]);
    listings_are_total(keys[x], keys[y]);
    assert(directory_of(root, canonical, ancestors, j, found).entries =~= entries.take(j));
}

} // verus!
