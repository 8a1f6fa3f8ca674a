//! File paths as byte strings, with `/` between their parts.

use vstd::prelude::*;

use crate::bytes::{byte_strings, last_pieces_are_split_off, same_bytes, split, split_all};
use crate::text::{bytes_of, utf8_text};
use vstd::utf8::{decode_utf8, encode_utf8, valid_utf8};

verus! {

pub const SLASH: u8 = 0x2f;

/// A file path. It need not be text.
#[derive(Debug, PartialEq, Eq)]
pub struct FilePath {
    pub bytes: Vec<u8>,
}

impl View for FilePath {
    type V = Seq<u8>;

    open spec fn view(&self) -> Seq<u8> {
        self.bytes@
    }
}

/// One part of a path.
pub enum Part {
    /// The `/` that a path starts with.
    Root,
    /// A `.` at the start of a path.
    Current,
    /// `..`
    Parent,
    Name(Seq<u8>),
}

pub open spec fn is_absolute(path: Seq<u8>) -> bool {
    path.len() > 0 && path[0] == SLASH
}

/// `path` below `base`; a path that starts at the root stands for itself.
pub open spec fn joined(base: Seq<u8>, path: Seq<u8>) -> Seq<u8> {
    if is_absolute(path) {
        path
    } else if base.len() > 0 && base.last() != SLASH {
        base.push(SLASH) + path
    } else {
        base + path
    }
}

/// The part that a piece between slashes stands for. An empty piece stands for
/// none, and neither does a `.` after the start.
pub open spec fn part_of(piece: Seq<u8>, first: bool) -> Option<Part> {
    if piece.len() == 0 {
        None
    } else if piece == seq![0x2eu8] {
        if first {
            Some(Part::Current)
        } else {
            None
        }
    } else if piece == seq![0x2eu8, 0x2eu8] {
        Some(Part::Parent)
    } else {
        Some(Part::Name(piece))
    }
}

/// The parts of the pieces before `count`.
pub open spec fn parts_of(pieces: Seq<Seq<u8>>, absolute: bool, count: int) -> Seq<Part>
    decreases count,
{
    if count <= 0 {
        if absolute {
            seq![Part::Root]
        } else {
            Seq::empty()
        }
    } else {
        let before = parts_of(pieces, absolute, count - 1);
        match part_of(pieces[count - 1], count == 1 && !absolute) {
            Some(part) => before.push(part),
            None => before,
        }
    }
}

/// The parts of a path.
pub open spec fn parts(path: Seq<u8>) -> Seq<Part> {
    let pieces = split(path, SLASH);
    parts_of(pieces, is_absolute(path), pieces.len() as int)
}

/// Whether the path leads below `base`, or to it.
pub open spec fn leads_into(path: Seq<u8>, base: Seq<u8>) -> bool {
    &&& parts(base).len() <= parts(path).len()
    &&& parts(path).take(parts(base).len() as int) == parts(base)
}

/// A part of a path, with its name.
#[derive(Debug, PartialEq, Eq)]
pub enum Component {
    Root,
    Current,
    Parent,
    Name(Vec<u8>),
}

impl View for Component {
    type V = Part;

    open spec fn view(&self) -> Part {
        match self {
            Component::Root => Part::Root,
            Component::Current => Part::Current,
            Component::Parent => Part::Parent,
            Component::Name(name) => Part::Name(name@),
        }
    }
}

pub open spec fn part_views(components: Seq<Component>) -> Seq<Part> {
    components.map_values(|component: Component| component@)
}

fn same_component(left: &Component, right: &Component) -> (same: bool)
    ensures
        same == (left@ == right@),
{
    match (left, right) {
        (Component::Root, Component::Root) => true,
        (Component::Current, Component::Current) => true,
        (Component::Parent, Component::Parent) => true,
        (Component::Name(left), Component::Name(right)) => same_bytes(
            left.as_slice(),
            right.as_slice(),
        ),
        _ => false,
    }
}

impl FilePath {
    pub fn from_bytes(bytes: Vec<u8>) -> (path: FilePath)
        ensures
            path@ == bytes@,
    {
        FilePath { bytes }
    }

    pub fn from_text(text: &str) -> (path: FilePath)
        ensures
            path@ == encode_utf8(text@),
    {
        FilePath { bytes: bytes_of(text) }
    }

    /// The path as text, if it is UTF-8.
    pub fn to_text(&self) -> (text: Option<String>)
        ensures
            text is Some <==> valid_utf8(self@),
            text matches Some(t) ==> t@ == decode_utf8(self@),
    {
        utf8_text(self.bytes.as_slice())
    }

    pub fn copy(&self) -> (path: FilePath)
        ensures
            path@ == self@,
    {
        let mut bytes: Vec<u8> = Vec::new();
        bytes.extend_from_slice(self.bytes.as_slice());
        FilePath { bytes }
    }

    pub fn same(&self, other: &FilePath) -> (same: bool)
        ensures
            same == (self@ == other@),
    {
        same_bytes(self.bytes.as_slice(), other.bytes.as_slice())
    }

    pub fn absolute(&self) -> (result: bool)
        ensures
            result == is_absolute(self@),
    {
        self.bytes.len() > 0 && self.bytes[0] == SLASH
    }

    pub fn join(&self, path: &FilePath) -> (result: FilePath)
        ensures
            result@ == joined(self@, path@),
    {
        if path.absolute() {
            return path.copy();
        }
        let mut result = self.copy();
        if self.bytes.len() > 0 && self.bytes[self.bytes.len() - 1] != SLASH {
            result.bytes.push(SLASH);
        }
        result.bytes.extend_from_slice(path.bytes.as_slice());
        assert(result@ =~= joined(self@, path@));
        result
    }

    pub fn components(&self) -> (result: Vec<Component>)
        ensures
            part_views(result@) == parts(self@),
    {
        let pieces: Vec<Vec<u8>> = split_all(self.bytes.as_slice(), SLASH);
        let absolute: bool = self.absolute();
        let mut result: Vec<Component> = Vec::new();
        if absolute {
            result.push(Component::Root);
        }
        let mut i: usize = 0;
        assert(part_views(result@) =~= parts_of(byte_strings(pieces@), absolute, 0));
        while i < pieces.len()
            invariant
                i <= pieces@.len(),
                absolute == is_absolute(self@),
                byte_strings(pieces@) == split(self@, SLASH),
                part_views(result@) == parts_of(byte_strings(pieces@), absolute, i as int),
            decreases pieces@.len() - i,
        {
            let piece: &Vec<u8> = &pieces[i];
            assert(byte_strings(pieces@)[i as int] == piece@);
            let ghost before = part_views(result@);
            if piece.len() == 0 {
            } else if piece.len() == 1 && piece[0] == 0x2e {
                assert(piece@ =~= seq![0x2eu8]);
                if i == 0 && !absolute {
                    result.push(Component::Current);
                    assert(part_views(result@) =~= before.push(Part::Current));
                }
            } else if piece.len() == 2 && piece[0] == 0x2e && piece[1] == 0x2e {
                assert(piece@ =~= seq![0x2eu8, 0x2eu8]);
                result.push(Component::Parent);
                assert(part_views(result@) =~= before.push(Part::Parent));
            } else {
                let mut name: Vec<u8> = Vec::new();
                name.extend_from_slice(piece.as_slice());
                assert(name@ =~= piece@);
                result.push(Component::Name(name));
                assert(part_views(result@) =~= before.push(Part::Name(piece@)));
            }
            i += 1;
        }
        result
    }

    /// Whether the path leads below `base`, or to it.
    pub fn starts_with(&self, base: &FilePath) -> (result: bool)
        ensures
            result == leads_into(self@, base@),
    {
        let mine = self.components();
        let theirs = base.components();
        if theirs.len() > mine.len() {
            return false;
        }
        let mut i: usize = 0;
        while i < theirs.len()
            invariant
                i <= theirs@.len() <= mine@.len(),
                part_views(mine@) == parts(self@),
                part_views(theirs@) == parts(base@),
                forall|j: int| 0 <= j < i ==> part_views(mine@)[j] == part_views(theirs@)[j],
            decreases theirs@.len() - i,
        {
            if !same_component(&mine[i], &theirs[i]) {
                assert(parts(self@).take(parts(base@).len() as int)[i as int] != parts(base@)[
                    i as int
                ]);
                return false;
            }
            i += 1;
        }
        assert(parts(self@).take(parts(base@).len() as int) =~= parts(base@));
        true
    }
}

/// A path leads into itself.
pub proof fn paths_lead_into_themselves(path: Seq<u8>)
    ensures
        leads_into(path, path),
{
    assert(parts(path).take(parts(path).len() as int) =~= parts(path));
}

/// Whether a name can stand between the slashes of a path as it is.
pub open spec fn plain_name(name: Seq<u8>) -> bool {
    &&& name.len() > 0
    &&& name != seq![0x2eu8]
    &&& name != seq![0x2eu8, 0x2eu8]
    &&& forall|i: int| 0 <= i < name.len() ==> name[i] != SLASH
}

/// A name that is joined to a path is its last part, after the parts that the
/// path had, so that the new path leads into the old one.
pub proof fn joined_names_come_last(base: Seq<u8>, name: Seq<u8>)
    requires
        base.len() > 0,
        plain_name(name),
    ensures
        parts(joined(base, name)) == parts(base).push(Part::Name(name)),
        leads_into(joined(base, name), base),
        is_absolute(joined(base, name)) <==> is_absolute(base),
{
    let path = joined(base, name);
    assert(name[0] != SLASH);
    assert(path[0] == base[0]);
    let absolute = is_absolute(base);
    if base.last() != SLASH {
        last_pieces_are_split_off(base, SLASH, name);
        more_pieces(split(base, SLASH), absolute, name);
    } else {
        let start = base.drop_last();
        assert(base =~= start.push(SLASH) + Seq::empty());
        assert(path =~= start.push(SLASH) + name);
        last_pieces_are_split_off(start, SLASH, name);
        last_pieces_are_split_off(start, SLASH, Seq::empty());
        more_pieces(split(start, SLASH), absolute, name);
        more_pieces(split(start, SLASH), absolute, Seq::empty());
    }
    assert(parts(path).take(parts(base).len() as int) =~= parts(base));
}

proof fn more_pieces(pieces: Seq<Seq<u8>>, absolute: bool, last: Seq<u8>)
    requires
        pieces.len() > 0,
    ensures
        parts_of(pieces.push(last), absolute, pieces.len() as int + 1) == match part_of(
            last,
            false,
        ) {
            Some(part) => parts_of(pieces, absolute, pieces.len() as int).push(part),
            None => parts_of(pieces, absolute, pieces.len() as int),
        },
{
    same_pieces(pieces, pieces.push(last), absolute, pieces.len() as int);
}

proof fn same_pieces(left: Seq<Seq<u8>>, right: Seq<Seq<u8>>, absolute: bool, count: int)
    requires
        count <= left.len(),
        count <= right.len(),
        forall|i: int| 0 <= i < count ==> left[i] == right[i],
    ensures
        parts_of(left, absolute, count) == parts_of(right, absolute, count),
    decreases count,
{
    if count > 0 {
        same_pieces(left, right, absolute, count - 1);
    }
}

/// A path that starts at the root does not depend on what it is joined to.
pub proof fn absolute_paths_stand_for_themselves(base: Seq<u8>, path: Seq<u8>)
    requires
        path.len() > 0,
        path[0] == 0x2f,
    ensures
        joined(base, path) == path,
{
}

} // verus!
