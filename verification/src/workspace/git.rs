//! What `git status` says of files.

use vstd::prelude::*;
use vstd::string::*;

use crate::bytes::{
    byte_strings, lemma_position_unique, lemma_split_first, pieces, split, split_all,
    split_at_most,
};
use crate::path::FilePath;
use crate::text::{
    decimal, decimal_text, lossy_text, trimmed, utf8_lossy, without_leading_space,
    without_trailing_space,
};

verus! {

#[derive(Debug, Clone, Copy, PartialEq, Eq, Hash, Structural)]
pub enum GitStatus {
    Modified,
    Added,
    Deleted,
    Renamed,
    Conflict,
    Untracked,
}

/// How a file is marked: by its own status, or by that of something below it.
#[derive(Debug, Clone, Copy, PartialEq, Eq, Structural)]
pub struct GitDecoration {
    pub status: Option<GitStatus>,
    pub dirty_descendant: bool,
}

impl GitDecoration {
    pub open spec fn plain() -> GitDecoration {
        GitDecoration { status: None, dirty_descendant: false }
    }
}

impl Default for GitDecoration {
    fn default() -> (decoration: GitDecoration)
        ensures
            decoration == GitDecoration::plain(),
    {
        GitDecoration { status: None, dirty_descendant: false }
    }
}

#[derive(Debug, PartialEq, Eq)]
pub struct GitChange {
    /// Workspace-relative path; it need not be text.
    pub path: FilePath,
    pub original_path: Option<FilePath>,
    pub status: GitStatus,
}

pub struct ChangeView {
    pub path: Seq<u8>,
    pub original_path: Option<Seq<u8>>,
    pub status: GitStatus,
}

impl View for GitChange {
    type V = ChangeView;

    open spec fn view(&self) -> ChangeView {
        ChangeView {
            path: self.path@,
            original_path: match self.original_path {
                Some(path) => Some(path@),
                None => None,
            },
            status: self.status,
        }
    }
}

pub open spec fn change_views(changes: Seq<GitChange>) -> Seq<ChangeView> {
    changes.map_values(|change: GitChange| change@)
}

#[derive(Debug, Clone, Copy, PartialEq, Eq, Structural)]
pub enum GitParseError {
    Malformed,
    MalformedStatus,
    NoStatus,
    MissingOriginal,
    MalformedUntracked,
    Unsupported(u8),
}

impl GitParseError {
    pub open spec fn spec_message(self) -> Seq<char> {
        match self {
            GitParseError::Malformed => "malformed porcelain v2 record"@,
            GitParseError::MalformedStatus => "malformed porcelain v2 XY status"@,
            GitParseError::NoStatus => "porcelain record has no recognized status"@,
            GitParseError::MissingOriginal => "rename record is missing original path"@,
            GitParseError::MalformedUntracked => "malformed untracked record"@,
            GitParseError::Unsupported(kind) => "unsupported porcelain v2 record type: "@ + decimal(
                kind as nat,
            ),
        }
    }

    pub fn message(self) -> (message: String)
        ensures
            message@ == self.spec_message(),
    {
        match self {
            GitParseError::Malformed => "malformed porcelain v2 record".to_owned(),
            GitParseError::MalformedStatus => "malformed porcelain v2 XY status".to_owned(),
            GitParseError::NoStatus => "porcelain record has no recognized status".to_owned(),
            GitParseError::MissingOriginal => "rename record is missing original path".to_owned(),
            GitParseError::MalformedUntracked => "malformed untracked record".to_owned(),
            GitParseError::Unsupported(kind) => {
                let mut message = "unsupported porcelain v2 record type: ".to_owned();
                message.append(decimal_text(kind as u64).as_str());
                message
            },
        }
    }
}

/// The fields of a record: exactly `count`, none empty. The last keeps its
/// spaces.
pub open spec fn fields(record: Seq<u8>, count: nat) -> Option<Seq<Seq<u8>>> {
    let found = pieces(record, 0x20, count);
    if found.len() == count && forall|i: int| 0 <= i < found.len() ==> (#[trigger] found[i]).len()
        > 0 {
        Some(found)
    } else {
        None
    }
}

/// The status that two letters stand for, `X` of the index and `Y` of the
/// working tree.
pub open spec fn xy_status(xy: Seq<u8>) -> Result<GitStatus, GitParseError> {
    if xy.len() != 2 {
        Err(GitParseError::MalformedStatus)
    } else if xy.contains(0x55) || xy == seq![0x41u8, 0x41u8] || xy == seq![0x44u8, 0x44u8] {
        Ok(GitStatus::Conflict)
    } else if xy.contains(0x44) {
        Ok(GitStatus::Deleted)
    } else if xy.contains(0x52) || xy.contains(0x43) {
        Ok(GitStatus::Renamed)
    } else if xy.contains(0x41) {
        Ok(GitStatus::Added)
    } else if xy.contains(0x4d) || xy.contains(0x54) {
        Ok(GitStatus::Modified)
    } else {
        Err(GitParseError::NoStatus)
    }
}

/// Whether a record starts with a byte and a space.
pub open spec fn tagged(record: Seq<u8>, tag: u8) -> bool {
    record.len() >= 2 && record[0] == tag && record[1] == 0x20
}

/// Whether a record says nothing of a change: it is empty, a header or about an
/// ignored file.
pub open spec fn silent(record: Seq<u8>) -> bool {
    record.len() == 0 || tagged(record, 0x23) || tagged(record, 0x21)
}

/// The change that a record tells of. A rename has its first path in the record
/// that follows, if there is one.
pub open spec fn change_of(record: Seq<u8>, next: Option<Seq<u8>>) -> Result<
    ChangeView,
    GitParseError,
> {
    if record[0] == 0x31 {
        match fields(record, 9) {
            None => Err(GitParseError::Malformed),
            Some(found) => match xy_status(found[1]) {
                Ok(status) => Ok(ChangeView { path: found[8], original_path: None, status }),
                Err(error) => Err(error),
            },
        }
    } else if record[0] == 0x32 {
        match fields(record, 10) {
            None => Err(GitParseError::Malformed),
            Some(found) => match next {
                None => Err(GitParseError::MissingOriginal),
                Some(original) => match xy_status(found[1]) {
                    Ok(status) => Ok(
                        ChangeView { path: found[9], original_path: Some(original), status },
                    ),
                    Err(error) => Err(error),
                },
            },
        }
    } else if record[0] == 0x75 {
        match fields(record, 11) {
            None => Err(GitParseError::Malformed),
            Some(found) => Ok(
                ChangeView {
                    path: found[10],
                    original_path: None,
                    status: GitStatus::Conflict,
                },
            ),
        }
    } else if record[0] == 0x3f {
        if tagged(record, 0x3f) {
            Ok(
                ChangeView {
                    path: record.skip(2),
                    original_path: None,
                    status: GitStatus::Untracked,
                },
            )
        } else {
            Err(GitParseError::MalformedUntracked)
        }
    } else {
        Err(GitParseError::Unsupported(record[0]))
    }
}

/// Puts changes before what is read after them.
pub open spec fn followed_by(
    first: Seq<ChangeView>,
    rest: Result<Seq<ChangeView>, GitParseError>,
) -> Result<Seq<ChangeView>, GitParseError> {
    match rest {
        Ok(changes) => Ok(first + changes),
        Err(error) => Err(error),
    }
}

/// The changes that the records from `index` on tell of; the first record that
/// cannot be read decides.
pub open spec fn changes_from(records: Seq<Seq<u8>>, index: int) -> Result<
    Seq<ChangeView>,
    GitParseError,
>
    decreases records.len() - index,
{
    if index < 0 || index >= records.len() {
        Ok(Seq::empty())
    } else if silent(records[index]) {
        changes_from(records, index + 1)
    } else {
        let rename = records[index][0] == 0x32;
        let next = if index + 1 < records.len() {
            Some(records[index + 1])
        } else {
            None
        };
        match change_of(records[index], next) {
            Err(error) => Err(error),
            Ok(change) => followed_by(
                seq![change],
                changes_from(
                    records,
                    index + if rename {
                        2int
                    } else {
                        1
                    },
                ),
            ),
        }
    }
}

/// What output of `git status --porcelain=v2 -z` tells.
pub open spec fn porcelain(bytes: Seq<u8>) -> Result<Seq<ChangeView>, GitParseError> {
    changes_from(split(bytes, 0), 0)
}

/// What a run of `git status` says: the changes that it lists, or why it failed.
pub open spec fn answer(
    success: bool,
    stdout: Seq<u8>,
    stderr: Seq<u8>,
    exit_status: Seq<char>,
) -> Result<Seq<ChangeView>, Seq<char>> {
    if success {
        match porcelain(stdout) {
            Ok(changes) => Ok(changes),
            Err(error) => Err(error.spec_message()),
        }
    } else {
        let reason = without_trailing_space(without_leading_space(utf8_lossy(stderr)));
        if reason.len() == 0 {
            Err("git status exited with "@ + exit_status)
        } else {
            Err(reason)
        }
    }
}

/// Reads what a run of `git status` left behind. `exit_status` is shown where it
/// failed without a word.
pub fn read_answer(success: bool, stdout: &[u8], stderr: &[u8], exit_status: &str) -> (result:
    Result<Vec<GitChange>, String>)
    ensures
        match answer(success, stdout@, stderr@, exit_status@) {
            Ok(changes) => result matches Ok(found) && change_views(found@) == changes,
            Err(error) => result matches Err(text) && text@ == error,
        },
{
    if success {
        match parse_git_porcelain_v2(stdout) {
            Ok(changes) => Ok(changes),
            Err(error) => Err(error.message()),
        }
    } else {
        let reason = trimmed(lossy_text(stderr).as_str());
        if reason.as_str().unicode_len() == 0 {
            let mut text = "git status exited with ".to_owned();
            text.append(exit_status);
            Err(text)
        } else {
            Err(reason)
        }
    }
}

/// Parses `git status --porcelain=v2 -z` output.
///
/// Rename and copy records take a second field, the original path.
pub fn parse_git_porcelain_v2(bytes: &[u8]) -> (result: Result<Vec<GitChange>, GitParseError>)
    ensures
        match porcelain(bytes@) {
            Ok(changes) => result matches Ok(found) && change_views(found@) == changes,
            Err(error) => result == Err::<Vec<GitChange>, _>(error),
        },
{
    let records: Vec<Vec<u8>> = split_all(bytes, 0);
    let ghost views = byte_strings(records@);
    let mut changes: Vec<GitChange> = Vec::new();
    let mut index: usize = 0;
    assert(change_views(changes@) =~= Seq::empty());
    proof {
        if let Ok(all) = changes_from(views, 0) {
            assert(Seq::empty() + all =~= all);
        }
    }
    while index < records.len()
        invariant
            index <= records@.len(),
            views == byte_strings(records@),
            views == split(bytes@, 0),
            porcelain(bytes@) == followed_by(
                change_views(changes@),
                changes_from(views, index as int),
            ),
        decreases records@.len() - index,
    {
        let ghost before = change_views(changes@);
        assert(views[index as int] == records@[index as int]@);
        let rename: bool;
        {
            let record: &Vec<u8> = &records[index];
            if is_silent(record) {
                index += 1;
                continue;
            }
            rename = record[0] == 0x32;
            let next: Option<&Vec<u8>> = if index + 1 < records.len() {
                assert(views[index + 1] == records@[index + 1]@);
                Some(&records[index + 1])
            } else {
                None
            };
            match read_change(record, next) {
                Ok(change) => {
                    let ghost added = change@;
                    changes.push(change);
                    assert(change_views(changes@) =~= before + seq![added]);
                },
                Err(error) => return Err(error),
            }
        }
        proof {
            let step: int = if rename {
                2
            } else {
                1
            };
            if let Ok(rest) = changes_from(views, index + step) {
                assert(before + (seq![change_views(changes@).last()] + rest) =~= change_views(
                    changes@,
                ) + rest);
            }
        }
        index += 1;
        if rename {
            index += 1;
        }
    }
    assert(change_views(changes@) + Seq::empty() =~= change_views(changes@));
    Ok(changes)
}

fn has_tag(record: &Vec<u8>, tag: u8) -> (result: bool)
    ensures
        result == tagged(record@, tag),
{
    record.len() >= 2 && record[0] == tag && record[1] == 0x20
}

fn is_silent(record: &Vec<u8>) -> (result: bool)
    ensures
        result == silent(record@),
{
    record.len() == 0 || has_tag(record, 0x23) || has_tag(record, 0x21)
}

fn path_at(found: &Vec<Vec<u8>>, index: usize) -> (path: FilePath)
    requires
        index < found@.len(),
    ensures
        path@ == byte_strings(found@)[index as int],
{
    let mut bytes: Vec<u8> = Vec::new();
    bytes.extend_from_slice(found[index].as_slice());
    assert(bytes@ =~= found@[index as int]@);
    FilePath { bytes }
}

fn read_change(record: &Vec<u8>, next: Option<&Vec<u8>>) -> (result: Result<GitChange, GitParseError>)
    requires
        record@.len() > 0,
    ensures
        match change_of(
            record@,
            match next {
                Some(next) => Some(next@),
                None => None,
            },
        ) {
            Ok(change) => result matches Ok(found) && found@ == change,
            Err(error) => result == Err::<GitChange, _>(error),
        },
{
    match record[0] {
        0x31 => {
            let found = match split_n_fields(record, 9) {
                Ok(found) => found,
                Err(error) => return Err(error),
            };
            assert(byte_strings(found@)[1] == found@[1]@);
            match status_from_xy(&found[1]) {
                Ok(status) => Ok(
                    GitChange { path: path_at(&found, 8), original_path: None, status },
                ),
                Err(error) => Err(error),
            }
        },
        0x32 => {
            let found = match split_n_fields(record, 10) {
                Ok(found) => found,
                Err(error) => return Err(error),
            };
            let original = match next {
                Some(original) => original,
                None => return Err(GitParseError::MissingOriginal),
            };
            assert(byte_strings(found@)[1] == found@[1]@);
            match status_from_xy(&found[1]) {
                Ok(status) => {
                    let mut bytes: Vec<u8> = Vec::new();
                    bytes.extend_from_slice(original.as_slice());
                    assert(bytes@ =~= original@);
                    Ok(
                        GitChange {
                            path: path_at(&found, 9),
                            original_path: Some(FilePath { bytes }),
                            status,
                        },
                    )
                },
                Err(error) => Err(error),
            }
        },
        0x75 => {
            let found = match split_n_fields(record, 11) {
                Ok(found) => found,
                Err(error) => return Err(error),
            };
            Ok(
                GitChange {
                    path: path_at(&found, 10),
                    original_path: None,
                    status: GitStatus::Conflict,
                },
            )
        },
        0x3f => {
            if !has_tag(record, 0x3f) {
                return Err(GitParseError::MalformedUntracked);
            }
            let bytes = crate::bytes::range_of(record.as_slice(), 2, record.len());
            assert(bytes@ =~= record@.skip(2));
            Ok(
                GitChange {
                    path: FilePath { bytes },
                    original_path: None,
                    status: GitStatus::Untracked,
                },
            )
        },
        other => Err(GitParseError::Unsupported(other)),
    }
}

fn split_n_fields(record: &Vec<u8>, count: usize) -> (result: Result<Vec<Vec<u8>>, GitParseError>)
    ensures
        match fields(record@, count as nat) {
            Some(found) => result matches Ok(f) && byte_strings(f@) == found && f@.len() == count,
            None => result == Err::<Vec<Vec<u8>>, _>(GitParseError::Malformed),
        },
{
    let found: Vec<Vec<u8>> = split_at_most(record.as_slice(), 0x20, count);
    let ghost views = byte_strings(found@);
    if found.len() != count {
        return Err(GitParseError::Malformed);
    }
    let mut i: usize = 0;
    while i < found.len()
        invariant
            i <= found@.len(),
            views == byte_strings(found@),
            views == pieces(record@, 0x20, count as nat),
            forall|j: int| 0 <= j < i ==> (#[trigger] views[j]).len() > 0,
        decreases found@.len() - i,
    {
        assert(views[i as int] == found@[i as int]@);
        if found[i].len() == 0 {
            return Err(GitParseError::Malformed);
        }
        i += 1;
    }
    Ok(found)
}

fn has_byte(bytes: &Vec<u8>, byte: u8) -> (result: bool)
    requires
        bytes@.len() == 2,
    ensures
        result == bytes@.contains(byte),
{
    proof {
        if bytes@.contains(byte) {
            let i = choose|i: int| 0 <= i < 2 && bytes@[i] == byte;
            assert(i == 0 || i == 1);
        }
        if bytes@[0] == byte || bytes@[1] == byte {
            assert(bytes@.contains(byte));
        }
    }
    bytes[0] == byte || bytes[1] == byte
}

fn status_from_xy(xy: &Vec<u8>) -> (result: Result<GitStatus, GitParseError>)
    ensures
        result == xy_status(xy@),
{
    if xy.len() != 2 {
        return Err(GitParseError::MalformedStatus);
    }
    let both_added: bool = xy[0] == 0x41 && xy[1] == 0x41;
    let both_deleted: bool = xy[0] == 0x44 && xy[1] == 0x44;
    assert(both_added == (xy@ =~= seq![0x41u8, 0x41u8]));
    assert(both_deleted == (xy@ =~= seq![0x44u8, 0x44u8]));
    if has_byte(xy, 0x55) || both_added || both_deleted {
        Ok(GitStatus::Conflict)
    } else if has_byte(xy, 0x44) {
        Ok(GitStatus::Deleted)
    } else if has_byte(xy, 0x52) || has_byte(xy, 0x43) {
        Ok(GitStatus::Renamed)
    } else if has_byte(xy, 0x41) {
        Ok(GitStatus::Added)
    } else if has_byte(xy, 0x4d) || has_byte(xy, 0x54) {
        Ok(GitStatus::Modified)
    } else {
        Err(GitParseError::NoStatus)
    }
}

/// The weight of a status: the heavier of two is shown.
pub open spec fn weight(status: GitStatus) -> int {
    match status {
        GitStatus::Conflict => 6,
        GitStatus::Deleted => 5,
        GitStatus::Renamed => 4,
        GitStatus::Added => 3,
        GitStatus::Modified => 2,
        GitStatus::Untracked => 1,
    }
}

pub open spec fn heavier(existing: Option<GitStatus>, incoming: GitStatus) -> GitStatus {
    match existing {
        Some(status) => if weight(status) >= weight(incoming) {
            status
        } else {
            incoming
        },
        None => incoming,
    }
}

fn priority(status: GitStatus) -> (result: u8)
    ensures
        result == weight(status),
{
    match status {
        GitStatus::Conflict => 6,
        GitStatus::Deleted => 5,
        GitStatus::Renamed => 4,
        GitStatus::Added => 3,
        GitStatus::Modified => 2,
        GitStatus::Untracked => 1,
    }
}

pub fn merge_status(existing: Option<GitStatus>, incoming: GitStatus) -> (status: GitStatus)
    ensures
        status == heavier(existing, incoming),
{
    match existing {
        Some(status) => if priority(status) >= priority(incoming) {
            status
        } else {
            incoming
        },
        None => incoming,
    }
}

/// The order in which changes are told does not matter for the status shown.
pub proof fn merging_ignores_order(
    existing: Option<GitStatus>,
    first: GitStatus,
    second: GitStatus,
)
    ensures
        heavier(Some(heavier(existing, first)), second) == heavier(
            Some(heavier(existing, second)),
            first,
        ),
        heavier(Some(first), first) == first,
{
}

proof fn changes_of_rest(records: Seq<Seq<u8>>, first: Seq<u8>, index: int)
    requires
        index >= 0,
    ensures
        changes_from(seq![first] + records, index + 1) == changes_from(records, index),
    decreases records.len() - index,
{
    let all = seq![first] + records;
    if index < records.len() {
        assert(all[index + 1] == records[index]);
        if index + 1 < records.len() {
            assert(all[index + 2] == records[index + 1]);
        }
        changes_of_rest(records, first, index + 1);
        if index + 2 <= records.len() {
            changes_of_rest(records, first, index + 2);
        }
    }
}

/// Records are read one by one: what a record that is no rename tells does not
/// depend on what follows it, and does not change it.
pub proof fn records_are_read_one_by_one(record: Seq<u8>, rest: Seq<u8>)
    requires
        forall|i: int| 0 <= i < record.len() ==> record[i] != 0,
        record.len() > 0 ==> record[0] != 0x32,
    ensures
        silent(record) ==> porcelain(record.push(0) + rest) == porcelain(rest),
        !silent(record) ==> porcelain(record.push(0) + rest) == match change_of(record, None) {
            Ok(change) => followed_by(seq![change], porcelain(rest)),
            Err(error) => Err(error),
        },
{
    lemma_split_first(record, 0, rest);
    let records = split(rest, 0);
    let all = seq![record] + records;
    assert(split(record.push(0) + rest, 0) == all);
    assert(all[0] == record);
    changes_of_rest(records, record, 0);
}

/// A rename takes the record after it for its first path, whatever that looks
/// like.
pub proof fn renames_take_two_records(record: Seq<u8>, original: Seq<u8>, rest: Seq<u8>)
    requires
        record.len() > 0,
        record[0] == 0x32,
        forall|i: int| 0 <= i < record.len() ==> record[i] != 0,
        forall|i: int| 0 <= i < original.len() ==> original[i] != 0,
    ensures
        porcelain(record.push(0) + (original.push(0) + rest)) == match change_of(
            record,
            Some(original),
        ) {
            Ok(change) => followed_by(seq![change], porcelain(rest)),
            Err(error) => Err(error),
        },
{
    let tail = original.push(0) + rest;
    lemma_split_first(record, 0, tail);
    lemma_split_first(original, 0, rest);
    let records = split(rest, 0);
    let all = seq![record] + (seq![original] + records);
    assert(split(record.push(0) + tail, 0) == all);
    assert(all[0] == record && all[1] == original);
    changes_of_rest(seq![original] + records, record, 1);
    changes_of_rest(records, original, 0);
}

/// Every untracked file is told with its own path, spaces and all.
pub proof fn untracked_paths_are_kept(path: Seq<u8>, rest: Seq<u8>)
    requires
        forall|i: int| 0 <= i < path.len() ==> path[i] != 0,
    ensures
        porcelain((seq![0x3fu8, 0x20u8] + path).push(0) + rest) == followed_by(
            seq![ChangeView { path, original_path: None, status: GitStatus::Untracked }],
            porcelain(rest),
        ),
{
    let record = seq![0x3fu8, 0x20u8] + path;
    records_are_read_one_by_one(record, rest);
    assert(record.skip(2) =~= path);
}

/// No output, no changes.
pub proof fn silence_means_no_changes()
    ensures
        porcelain(Seq::empty()) == Ok::<Seq<ChangeView>, GitParseError>(Seq::empty()),
{
    crate::bytes::lemma_split_last(Seq::empty(), 0);
    let records = split(Seq::empty(), 0);
    assert(records[0].len() == 0);
    assert(changes_from(records, 1) == Ok::<Seq<ChangeView>, GitParseError>(Seq::empty()));
}

/// The letters decide the status and their order does not matter: a conflict
/// has a `U` or twice the same `A` or `D`; else a `D` is a deletion, an `R` or
/// `C` a rename, an `A` an addition, and an `M` or `T` a modification, in this
/// order. Other letters have no status.
pub proof fn letters_decide_the_status(x: u8, y: u8)
    ensures
        ({
            let status = xy_status(seq![x, y]);
            let holds = |letter: char| x == letter as u8 || y == letter as u8;
            let both = |letter: char| x == letter as u8 && y == letter as u8;
            let conflict = holds('U') || both('A') || both('D');
            &&& status == xy_status(seq![y, x])
            &&& status == Ok::<_, GitParseError>(GitStatus::Conflict) <==> conflict
            &&& status == Ok::<_, GitParseError>(GitStatus::Deleted) <==> holds('D') && !conflict
            &&& status == Ok::<_, GitParseError>(GitStatus::Renamed) <==> (holds('R') || holds('C'))
                && !holds('U') && !holds('D')
            &&& status == Ok::<_, GitParseError>(GitStatus::Added) <==> holds('A') && !both('A')
                && !holds('U') && !holds('D') && !holds('R') && !holds('C')
            &&& status == Ok::<_, GitParseError>(GitStatus::Modified) <==> (holds('M') || holds('T'))
                && !holds('U') && !holds('D') && !holds('R') && !holds('C') && !holds('A')
            &&& status != Ok::<_, GitParseError>(GitStatus::Untracked)
            &&& status is Err ==> status == Err::<GitStatus, _>(GitParseError::NoStatus)
            &&& status is Err <==> !holds('U') && !holds('D') && !holds('R') && !holds('C') && !holds('A')
                && !holds('M') && !holds('T')
        }),
{
    two_letters(seq![x, y], x, y);
    two_letters(seq![y, x], y, x);
}

/// A file with no more than changes of contents or type, staged or not, is
/// modified.
pub proof fn edits_are_modifications(x: u8, y: u8)
    requires
        x == '.' as u8 || x == 'M' as u8 || x == 'T' as u8,
        y == '.' as u8 || y == 'M' as u8 || y == 'T' as u8,
        x != '.' as u8 || y != '.' as u8,
    ensures
        xy_status(seq![x, y]) == Ok::<_, GitParseError>(GitStatus::Modified),
{
    letters_decide_the_status(x, y);
}

/// A status has two letters, no more and no fewer.
pub proof fn statuses_have_two_letters(xy: Seq<u8>)
    ensures
        xy.len() != 2 <==> xy_status(xy) == Err::<GitStatus, _>(GitParseError::MalformedStatus),
{
}

proof fn two_letters(xy: Seq<u8>, x: u8, y: u8)
    requires
        xy == seq![x, y],
    ensures
        forall|letter: u8| #[trigger] xy.contains(letter) <==> x == letter || y == letter,
        xy == seq![0x41u8, 0x41u8] <==> x == 0x41 && y == 0x41,
        xy == seq![0x44u8, 0x44u8] <==> x == 0x44 && y == 0x44,
{
    assert(xy.len() == 2 && xy[0] == x && xy[1] == y);
    let added = seq![0x41u8, 0x41u8];
    assert(added[0] == 0x41 && added[1] == 0x41);
    let deleted = seq![0x44u8, 0x44u8];
    assert(deleted[0] == 0x44 && deleted[1] == 0x44);
    if x == 0x41 && y == 0x41 {
        assert(xy =~= added);
    }
    if x == 0x44 && y == 0x44 {
        assert(xy =~= deleted);
    }
}

/// A record with spaces between its fields.
pub open spec fn spaced(fields: Seq<Seq<u8>>) -> Seq<u8>
    decreases fields.len(),
{
    if fields.len() == 0 {
        Seq::empty()
    } else if fields.len() == 1 {
        fields[0]
    } else {
        fields[0].push(0x20) + spaced(fields.skip(1))
    }
}

/// Fields that a record can hold: none is empty, none but the last has spaces.
pub open spec fn sound_fields(fields: Seq<Seq<u8>>) -> bool {
    &&& forall|i: int| 0 <= i < fields.len() ==> (#[trigger] fields[i]).len() > 0
    &&& forall|i: int, j: int|
        0 <= i < fields.len() && 0 <= j < fields[i].len() ==> #[trigger] fields[i][j] != 0
    &&& forall|i: int, j: int|
        0 <= i < fields.len() - 1 && 0 <= j < fields[i].len() ==> #[trigger] fields[i][j] != 0x20
}

proof fn spaced_fields_are_found(fields: Seq<Seq<u8>>)
    requires
        fields.len() > 0,
        sound_fields(fields),
    ensures
        pieces(spaced(fields), 0x20, fields.len()) == fields,
        forall|i: int| 0 <= i < spaced(fields).len() ==> #[trigger] spaced(fields)[i] != 0,
        spaced(fields).len() > 0,
        spaced(fields)[0] == fields[0][0],
        fields.len() > 1 && fields[0].len() == 1 ==> spaced(fields)[1] == 0x20,
    decreases fields.len(),
{
    let record = spaced(fields);
    if fields.len() == 1 {
        assert(seq![fields[0]] =~= fields);
    } else {
        let first = fields[0];
        let rest = fields.skip(1);
        assert(sound_fields(rest)) by {
            assert forall|i: int| 0 <= i < rest.len() implies (#[trigger] rest[i]).len() > 0 by {
                assert(rest[i] == fields[i + 1]);
            }
            assert forall|i: int, j: int|
                0 <= i < rest.len() && 0 <= j < rest[i].len() implies #[trigger] rest[i][j]
                != 0 by {
                assert(rest[i][j] == fields[i + 1][j]);
            }
            assert forall|i: int, j: int|
                0 <= i < rest.len() - 1 && 0 <= j < rest[i].len() implies #[trigger] rest[i][j]
                != 0x20 by {
                assert(rest[i][j] == fields[i + 1][j]);
            }
        }
        spaced_fields_are_found(rest);
        assert forall|i: int| 0 <= i < record.len() implies #[trigger] record[i] != 0 by {
            if i < first.len() {
                assert(record[i] == fields[0][i]);
            } else if i > first.len() {
                assert(record[i] == spaced(rest)[i - first.len() - 1]);
            }
        }
        assert forall|i: int| 0 <= i < first.len() implies record[i] != 0x20 by {
            assert(record[i] == fields[0][i]);
        }
        assert(record[first.len() as int] == 0x20);
        lemma_position_unique(record, 0x20, first.len() as int);
        assert(record.take(first.len() as int) =~= first);
        assert(record.skip(first.len() as int + 1) =~= spaced(rest));
        assert(seq![first] + rest =~= fields);
    }
}

/// The record of a file that was changed in place tells its last field as the
/// path and its letters as the status; what follows is read on.
pub proof fn changed_files_are_told(fields: Seq<Seq<u8>>, rest: Seq<u8>)
    requires
        fields.len() == 9,
        fields[0] == seq!['1' as u8],
        sound_fields(fields),
    ensures
        ({
            let told = porcelain(spaced(fields).push(0) + rest);
            match (xy_status(fields[1]), porcelain(rest)) {
                (Ok(status), Ok(others)) => told == Ok::<_, GitParseError>(
                    seq![ChangeView { path: fields[8], original_path: None, status }] + others,
                ),
                (Ok(_), Err(error)) => told == Err::<Seq<ChangeView>, _>(error),
                (Err(error), _) => told == Err::<Seq<ChangeView>, _>(error),
            }
        }),
{
    spaced_fields_are_found(fields);
    records_are_read_one_by_one(spaced(fields), rest);
}

/// The record of a file that was renamed tells its last field as the path and
/// the record after it as the path before.
pub proof fn renamed_files_are_told(fields: Seq<Seq<u8>>, original: Seq<u8>, rest: Seq<u8>)
    requires
        fields.len() == 10,
        fields[0] == seq!['2' as u8],
        sound_fields(fields),
        forall|i: int| 0 <= i < original.len() ==> original[i] != 0,
    ensures
        ({
            let told = porcelain(spaced(fields).push(0) + (original.push(0) + rest));
            match (xy_status(fields[1]), porcelain(rest)) {
                (Ok(status), Ok(others)) => told == Ok::<_, GitParseError>(
                    seq![ChangeView { path: fields[9], original_path: Some(original), status }]
                        + others,
                ),
                (Ok(_), Err(error)) => told == Err::<Seq<ChangeView>, _>(error),
                (Err(error), _) => told == Err::<Seq<ChangeView>, _>(error),
            }
        }),
{
    spaced_fields_are_found(fields);
    renames_take_two_records(spaced(fields), original, rest);
}

/// The record of a file that is not merged tells its last field as a conflict,
/// whatever its letters are.
pub proof fn unmerged_files_are_told(fields: Seq<Seq<u8>>, rest: Seq<u8>)
    requires
        fields.len() == 11,
        fields[0] == seq!['u' as u8],
        sound_fields(fields),
    ensures
        ({
            let told = porcelain(spaced(fields).push(0) + rest);
            match porcelain(rest) {
                Ok(others) => told == Ok::<_, GitParseError>(
                    seq![
                        ChangeView {
                            path: fields[10],
                            original_path: None,
                            status: GitStatus::Conflict,
                        },
                    ] + others,
                ),
                Err(error) => told == Err::<Seq<ChangeView>, _>(error),
            }
        }),
{
    spaced_fields_are_found(fields);
    records_are_read_one_by_one(spaced(fields), rest);
}

/// Headers and ignored files are passed over; an untracked file is told and
/// what follows is read on.
pub proof fn other_records_are_told(text: Seq<u8>, rest: Seq<u8>)
    requires
        forall|i: int| 0 <= i < text.len() ==> text[i] != 0,
    ensures
        porcelain((seq!['#' as u8, ' ' as u8] + text).push(0) + rest) == porcelain(rest),
        porcelain((seq!['!' as u8, ' ' as u8] + text).push(0) + rest) == porcelain(rest),
        porcelain(rest) matches Ok(others) ==> porcelain(
            (seq!['?' as u8, ' ' as u8] + text).push(0) + rest,
        ) == Ok::<_, GitParseError>(
            seq![ChangeView { path: text, original_path: None, status: GitStatus::Untracked }]
                + others,
        ),
{
    records_are_read_one_by_one(seq!['#' as u8, ' ' as u8] + text, rest);
    records_are_read_one_by_one(seq!['!' as u8, ' ' as u8] + text, rest);
    untracked_paths_are_kept(text, rest);
}

/// Of two statuses of a file one is shown: a conflict before a deletion, then a
/// rename, an addition, a modification, and last that it is untracked.
pub proof fn graver_statuses_are_shown(first: GitStatus, second: GitStatus)
    ensures
        heavier(None, first) == first,
        heavier(Some(first), second) == first || heavier(Some(first), second) == second,
        heavier(Some(first), second) == heavier(Some(second), first),
        heavier(Some(GitStatus::Conflict), second) == GitStatus::Conflict,
        second != GitStatus::Conflict ==> heavier(Some(GitStatus::Deleted), second)
            == GitStatus::Deleted,
        second != GitStatus::Conflict && second != GitStatus::Deleted ==> heavier(
            Some(GitStatus::Renamed),
            second,
        ) == GitStatus::Renamed,
        second == GitStatus::Modified || second == GitStatus::Untracked ==> heavier(
            Some(GitStatus::Added),
            second,
        ) == GitStatus::Added,
        heavier(Some(GitStatus::Modified), GitStatus::Untracked) == GitStatus::Modified,
{
}

/// A run of Git that failed says why: by what it wrote, or by how it ended
/// where it wrote nothing but white space. What it listed then does not count.
pub proof fn failed_runs_say_why(
    stdout: Seq<u8>,
    other: Seq<u8>,
    stderr: Seq<u8>,
    exit_status: Seq<char>,
)
    ensures
        answer(false, stdout, stderr, exit_status) is Err,
        answer(false, stdout, stderr, exit_status) == answer(false, other, stderr, exit_status),
        answer(true, stdout, stderr, exit_status) is Ok <==> porcelain(stdout) is Ok,
        porcelain(stdout) matches Ok(changes) ==> answer(true, stdout, stderr, exit_status)
            == Ok::<_, Seq<char>>(changes),
        answer(false, stdout, stderr, exit_status) matches Err(reason) && reason.len() > 0,
{
    reveal_strlit("git status exited with ");
    assert(("git status exited with "@ + exit_status).len() > 0);
}

} // verus!
