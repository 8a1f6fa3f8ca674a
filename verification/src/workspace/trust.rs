//! Whether a workspace is trusted.
//!
//! A decision is kept outside the workspace, for one path and for the directory
//! that the path named when the decision was made.

use vstd::bytes::*;
use vstd::prelude::*;
use vstd::string::*;
use vstd::utf8::{encode_utf8, encode_utf8_decode_utf8};

use crate::bytes::same_bytes;
use crate::digest::{
    digests_have_their_own_files, file_name, key, key_of, sha256_of,
};
use crate::path::{joined, leads_into, FilePath};
use crate::text::{
    bytes_of, decimal, decimal_text, decimals_tell_numbers_apart, lossy_text, utf8_lossy,
};

verus! {

pub const STORE_VERSION: u32 = 1;

/// The trust decision that applies to the workspace's current filesystem object.
#[derive(Debug, Clone, Copy, PartialEq, Eq, Structural)]
pub enum WorkspaceTrustState {
    /// There is no decision, or the current identity has explicitly been revoked.
    Untrusted,
    /// The current filesystem object has explicitly been trusted.
    Trusted,
    /// A decision exists for this path, but the path now names a different object.
    Stale,
}

/// The path of a root, as it is written to a record.
#[derive(Debug, PartialEq, Eq)]
pub enum RootIdentity {
    UnixBytes(Vec<u8>),
}

impl View for RootIdentity {
    type V = Seq<u8>;

    open spec fn view(&self) -> Seq<u8> {
        match self {
            RootIdentity::UnixBytes(bytes) => bytes@,
        }
    }
}

impl RootIdentity {
    pub fn same(&self, other: &RootIdentity) -> (same: bool)
        ensures
            same == (self@ == other@),
    {
        match (self, other) {
            (RootIdentity::UnixBytes(left), RootIdentity::UnixBytes(right)) => same_bytes(
                left.as_slice(),
                right.as_slice(),
            ),
        }
    }

    pub fn copy(&self) -> (identity: RootIdentity)
        ensures
            identity@ == self@,
    {
        match self {
            RootIdentity::UnixBytes(bytes) => {
                let mut copied: Vec<u8> = Vec::new();
                copied.extend_from_slice(bytes.as_slice());
                RootIdentity::UnixBytes(copied)
            },
        }
    }
}

/// What a directory is, apart from its path.
#[derive(Debug, Clone, Copy, PartialEq, Eq, Structural)]
pub enum FilesystemIdentity {
    Unix { device: u64, inode: u64 },
    Windows { volume: u32, file_index: u64 },
}

#[derive(Debug, Clone, Copy, PartialEq, Eq, Structural)]
pub enum StoredDecision {
    Trust,
    Revoke,
}

#[derive(Debug)]
pub struct TrustRecord {
    pub version: u32,
    pub root: RootIdentity,
    pub filesystem: FilesystemIdentity,
    pub decision: StoredDecision,
}

pub struct RecordView {
    pub version: u32,
    pub root: Seq<u8>,
    pub filesystem: FilesystemIdentity,
    pub decision: StoredDecision,
}

impl View for TrustRecord {
    type V = RecordView;

    open spec fn view(&self) -> RecordView {
        RecordView {
            version: self.version,
            root: self.root@,
            filesystem: self.filesystem,
            decision: self.decision,
        }
    }
}

#[derive(Debug, Clone, Copy, PartialEq, Eq, Structural)]
pub enum TrustError {
    /// The store would be inside the workspace that it judges.
    InsideWorkspace,
    /// The record was written by another version.
    UnsupportedVersion(u32),
    /// The record was written for another root.
    DifferentRoot,
    /// What the root is now could not be found out.
    UnknownIdentity,
}

/// A handle to the application-owned trust record for one workspace.
#[derive(Debug)]
pub struct WorkspaceTrustStore {
    pub root: FilePath,
    pub root_identity: RootIdentity,
    pub directory: FilePath,
    pub record_path: FilePath,
}

pub struct TrustView {
    pub root: Seq<u8>,
    pub identity: Seq<u8>,
    pub directory: Seq<u8>,
    pub record_path: Seq<u8>,
}

impl View for WorkspaceTrustStore {
    type V = TrustView;

    open spec fn view(&self) -> TrustView {
        TrustView {
            root: self.root@,
            identity: self.root_identity@,
            directory: self.directory@,
            record_path: self.record_path@,
        }
    }
}

impl TrustView {
    pub open spec fn at(root: Seq<u8>, state_root: Seq<u8>) -> TrustView {
        let directory = joined(state_root, encode_utf8("trust"@));
        TrustView {
            root,
            identity: root,
            directory,
            record_path: joined(directory, encode_utf8(file_name(encoded_identity(root)))),
        }
    }

    /// What a record says of the directory that the root names now.
    pub open spec fn judged(self, record: Option<RecordView>, current: Option<FilesystemIdentity>) -> Result<
        WorkspaceTrustState,
        TrustError,
    > {
        match record {
            None => Ok(WorkspaceTrustState::Untrusted),
            Some(record) => if record.version != STORE_VERSION {
                Err(TrustError::UnsupportedVersion(record.version))
            } else if record.root != self.identity {
                Err(TrustError::DifferentRoot)
            } else {
                match current {
                    None => Err(TrustError::UnknownIdentity),
                    Some(current) => if record.filesystem != current {
                        Ok(WorkspaceTrustState::Stale)
                    } else {
                        match record.decision {
                            StoredDecision::Trust => Ok(WorkspaceTrustState::Trusted),
                            StoredDecision::Revoke => Ok(WorkspaceTrustState::Untrusted),
                        }
                    },
                }
            },
        }
    }

    pub open spec fn decided(self, current: FilesystemIdentity, decision: StoredDecision) -> RecordView {
        RecordView {
            version: STORE_VERSION,
            root: self.identity,
            filesystem: current,
            decision,
        }
    }
}

/// Numbers in decimal, with commas between them.
pub open spec fn comma_list(bytes: Seq<u8>) -> Seq<char>
    decreases bytes.len(),
{
    if bytes.len() == 0 {
        Seq::empty()
    } else if bytes.len() == 1 {
        decimal(bytes[0] as nat)
    } else {
        comma_list(bytes.drop_last()) + ","@ + decimal(bytes.last() as nat)
    }
}

/// The identity of a root in JSON, without white space.
pub open spec fn encoded_identity(root: Seq<u8>) -> Seq<u8> {
    encode_utf8(
        "{\"encoding\":\"UnixBytes\",\"components\":["@ + comma_list(root) + "]}"@,
    )
}

fn encode_identity(identity: &RootIdentity) -> (encoded: Vec<u8>)
    ensures
        encoded@ == encoded_identity(identity@),
{
    let bytes: &Vec<u8> = match identity {
        RootIdentity::UnixBytes(bytes) => bytes,
    };
    let mut list = String::new();
    let mut i: usize = 0;
    while i < bytes.len()
        invariant
            i <= bytes@.len(),
            list@ == comma_list(bytes@.take(i as int)),
        decreases bytes@.len() - i,
    {
        let ghost next = bytes@.take(i + 1);
        assert(next.drop_last() =~= bytes@.take(i as int));
        assert(next.last() == bytes@[i as int]);
        if i > 0 {
            list.append(",");
        }
        list.append(decimal_text(bytes[i] as u64).as_str());
        assert(list@ =~= comma_list(next));
        i += 1;
    }
    assert(bytes@.take(i as int) =~= bytes@);
    let mut text = "{\"encoding\":\"UnixBytes\",\"components\":[".to_owned();
    text.append(list.as_str());
    text.append("]}");
    bytes_of(text.as_str())
}

/// The name of the record of a root.
pub fn root_key(identity: &RootIdentity) -> (result: String)
    ensures
        result@ == key(encoded_identity(identity@)),
{
    let encoded = encode_identity(identity);
    key_of(encoded.as_slice())
}

impl WorkspaceTrustStore {
    /// The trust store for a root below `<state_root>/trust`. Both paths are
    /// resolved.
    pub fn new(root: FilePath, state_root: &FilePath) -> (store: Result<
        WorkspaceTrustStore,
        TrustError,
    >)
        ensures
            store is Err <==> leads_into(joined(state_root@, encode_utf8("trust"@)), root@),
            store matches Err(error) ==> error == TrustError::InsideWorkspace,
            store matches Ok(s) ==> s@ == TrustView::at(root@, state_root@),
    {
        let directory = state_root.join(&FilePath::from_text("trust"));
        if directory.starts_with(&root) {
            return Err(TrustError::InsideWorkspace);
        }
        let root_identity = RootIdentity::UnixBytes(root.copy().bytes);
        let mut name = root_key(&root_identity);
        name.append(".json");
        let record_path = directory.join(&FilePath::from_text(name.as_str()));
        Ok(WorkspaceTrustStore { root, root_identity, directory, record_path })
    }

    pub fn root(&self) -> (root: &FilePath)
        ensures
            root@ == self@.root,
    {
        &self.root
    }

    /// Resolves a saved decision against what the root is at this instant. The
    /// identity of the root is asked for only where the record is sound.
    pub fn resolve(&self, record: Option<&TrustRecord>, current: Option<FilesystemIdentity>) -> (
        state: Result<WorkspaceTrustState, TrustError>)
        ensures
            state == self@.judged(
                match record {
                    Some(record) => Some(record@),
                    None => None,
                },
                current,
            ),
    {
        let record = match record {
            Some(record) => record,
            None => return Ok(WorkspaceTrustState::Untrusted),
        };
        if record.version != STORE_VERSION {
            return Err(TrustError::UnsupportedVersion(record.version));
        }
        if !record.root.same(&self.root_identity) {
            return Err(TrustError::DifferentRoot);
        }
        match current {
            None => Err(TrustError::UnknownIdentity),
            Some(current) => if record.filesystem != current {
                Ok(WorkspaceTrustState::Stale)
            } else {
                match record.decision {
                    StoredDecision::Trust => Ok(WorkspaceTrustState::Trusted),
                    StoredDecision::Revoke => Ok(WorkspaceTrustState::Untrusted),
                }
            },
        }
    }

    /// The record of an explicit trust decision for the root's current identity.
    pub fn trust(&self, current: FilesystemIdentity) -> (record: TrustRecord)
        ensures
            record@ == self@.decided(current, StoredDecision::Trust),
    {
        self.write_decision(current, StoredDecision::Trust)
    }

    /// The record of an explicit revoke decision for the root's current identity.
    pub fn revoke(&self, current: FilesystemIdentity) -> (record: TrustRecord)
        ensures
            record@ == self@.decided(current, StoredDecision::Revoke),
    {
        self.write_decision(current, StoredDecision::Revoke)
    }

    fn write_decision(&self, current: FilesystemIdentity, decision: StoredDecision) -> (record:
        TrustRecord)
        ensures
            record@ == self@.decided(current, decision),
    {
        TrustRecord {
            version: STORE_VERSION,
            root: self.root_identity.copy(),
            filesystem: current,
            decision,
        }
    }

    /// What the user is told of an error.
    pub open spec fn spec_message(&self, error: TrustError) -> Seq<char> {
        match error {
            TrustError::InsideWorkspace =>
                "workspace trust store must not be inside the workspace: "@ + utf8_lossy(
                self.directory@,
            ),
            TrustError::UnsupportedVersion(version) =>
                "unsupported workspace trust record version "@ + decimal(version as nat) + " in "@
                + utf8_lossy(self.record_path@),
            TrustError::DifferentRoot =>
                "workspace trust record belongs to a different root: "@ + utf8_lossy(
                self.record_path@,
            ),
            TrustError::UnknownIdentity =>
                "failed to inspect workspace identity: "@ + utf8_lossy(self.root@),
        }
    }

    pub fn message(&self, error: TrustError) -> (message: String)
        ensures
            message@ == self.spec_message(error),
    {
        match error {
            TrustError::InsideWorkspace => {
                let mut message =
                    "workspace trust store must not be inside the workspace: ".to_owned();
                message.append(lossy_text(self.directory.bytes.as_slice()).as_str());
                message
            },
            TrustError::UnsupportedVersion(version) => {
                let mut message = "unsupported workspace trust record version ".to_owned();
                message.append(decimal_text(version as u64).as_str());
                message.append(" in ");
                message.append(lossy_text(self.record_path.bytes.as_slice()).as_str());
                message
            },
            TrustError::DifferentRoot => {
                let mut message =
                    "workspace trust record belongs to a different root: ".to_owned();
                message.append(lossy_text(self.record_path.bytes.as_slice()).as_str());
                message
            },
            TrustError::UnknownIdentity => {
                let mut message = "failed to inspect workspace identity: ".to_owned();
                message.append(lossy_text(self.root.bytes.as_slice()).as_str());
                message
            },
        }
    }
}

/// A decision that was just made is the one that is found.
pub proof fn decisions_are_found_again(store: TrustView, current: FilesystemIdentity)
    ensures
        store.judged(Some(store.decided(current, StoredDecision::Trust)), Some(current)) == Ok::<
            _,
            TrustError,
        >(WorkspaceTrustState::Trusted),
        store.judged(Some(store.decided(current, StoredDecision::Revoke)), Some(current)) == Ok::<
            _,
            TrustError,
        >(WorkspaceTrustState::Untrusted),
        store.judged(None, Some(current)) == Ok::<_, TrustError>(WorkspaceTrustState::Untrusted),
{
}

/// A decision does not carry over to another directory at the same path,
/// whatever was decided.
pub proof fn replaced_directories_are_stale(
    store: TrustView,
    before: FilesystemIdentity,
    after: FilesystemIdentity,
    decision: StoredDecision,
)
    requires
        before != after,
    ensures
        store.judged(Some(store.decided(before, decision)), Some(after)) == Ok::<_, TrustError>(
            WorkspaceTrustState::Stale,
        ),
{
}

/// A workspace is trusted only by a record of this version, for this root and
/// for the directory that is there now, that says so.
pub proof fn trust_has_to_be_recorded(
    store: TrustView,
    record: Option<RecordView>,
    current: Option<FilesystemIdentity>,
)
    ensures
        store.judged(record, current) == Ok::<_, TrustError>(WorkspaceTrustState::Trusted) <==> {
            &&& current is Some
            &&& record == Some(store.decided(current->0, StoredDecision::Trust))
        },
{
}

/// Records of different roots do not stand for each other.
pub proof fn roots_are_kept_apart(
    first: TrustView,
    second: TrustView,
    current: FilesystemIdentity,
    decision: StoredDecision,
)
    requires
        first.identity != second.identity,
    ensures
        second.judged(Some(first.decided(current, decision)), Some(current)) == Err::<
            WorkspaceTrustState,
            _,
        >(TrustError::DifferentRoot),
{
}

/// Different roots are written differently.
pub proof fn encodings_tell_roots_apart(left: Seq<u8>, right: Seq<u8>)
    requires
        left != right,
    ensures
        encoded_identity(left) != encoded_identity(right),
{
    let start = "{\"encoding\":\"UnixBytes\",\"components\":["@;
    let end = "]}"@;
    let one = start + comma_list(left) + end;
    let other = start + comma_list(right) + end;
    if encoded_identity(left) == encoded_identity(right) {
        encode_utf8_decode_utf8(one);
        encode_utf8_decode_utf8(other);
        assert(one.subrange(start.len() as int, one.len() - end.len()) =~= comma_list(left));
        assert(other.subrange(start.len() as int, other.len() - end.len()) =~= comma_list(right));
        lists_tell_bytes_apart(left, right);
    }
}

proof fn list_starts_with_a_digit(bytes: Seq<u8>)
    requires
        bytes.len() > 0,
    ensures
        comma_list(bytes).len() > 0,
    decreases bytes.len(),
{
    decimals_tell_numbers_apart(bytes.last() as nat, 0);
}

proof fn lists_tell_bytes_apart(left: Seq<u8>, right: Seq<u8>)
    requires
        comma_list(left) == comma_list(right),
    ensures
        left == right,
    decreases left.len(),
{
    if left.len() == 0 || right.len() == 0 {
        if left.len() > 0 {
            list_starts_with_a_digit(left);
        }
        if right.len() > 0 {
            list_starts_with_a_digit(right);
        }
        assert(left =~= right);
    } else {
        reveal_strlit(",");
        let text = comma_list(left);
        let one = decimal(left.last() as nat);
        let other = decimal(right.last() as nat);
        decimals_tell_numbers_apart(left.last() as nat, right.last() as nat);
        decimals_tell_numbers_apart(right.last() as nat, left.last() as nat);
        let left_comma = text.len() - one.len() - 1;
        let right_comma = text.len() - other.len() - 1;
        if left.len() > 1 {
            assert(text[left_comma] == ',');
        }
        if right.len() > 1 {
            assert(text[right_comma] == ',');
        }
        assert(forall|i: int|
            0 <= i < one.len() ==> #[trigger] one[i] == text[left_comma + 1 + i]);
        assert(forall|i: int|
            0 <= i < other.len() ==> #[trigger] other[i] == text[right_comma + 1 + i]);
        if left_comma < right_comma {
            assert(one[right_comma - left_comma - 1] == ',');
        } else if right_comma < left_comma {
            assert(other[left_comma - right_comma - 1] == ',');
        }
        assert(one =~= other);
        if left.len() > 1 && right.len() > 1 {
            assert(text.take(left_comma) =~= comma_list(left.drop_last()));
            assert(text.take(right_comma) =~= comma_list(right.drop_last()));
            lists_tell_bytes_apart(left.drop_last(), right.drop_last());
            assert(left =~= left.drop_last().push(left.last()));
            assert(right =~= right.drop_last().push(right.last()));
        } else {
            if left.len() > 1 {
                list_starts_with_a_digit(left.drop_last());
            }
            if right.len() > 1 {
                list_starts_with_a_digit(right.drop_last());
            }
            assert(left =~= right);
        }
    }
}

/// Different roots have records of their own, unless their digests happen to be
/// the same.
pub proof fn roots_have_their_own_records(state_root: Seq<u8>, left: Seq<u8>, right: Seq<u8>)
    requires
        left != right,
        encoded_identity(left) != encoded_identity(right) ==> sha256_of(encoded_identity(left))
            != sha256_of(encoded_identity(right)),
    ensures
        TrustView::at(left, state_root).record_path != TrustView::at(
            right,
            state_root,
        ).record_path,
{
    encodings_tell_roots_apart(left, right);
    digests_have_their_own_files(
        joined(state_root, encode_utf8("trust"@)),
        encoded_identity(left),
        encoded_identity(right),
    );
}

/// A directory and what it is, one byte string for each such pair: a mark of the
/// system, the numbers at a fixed length, and then the path.
pub open spec fn generation(root: Seq<u8>, filesystem: FilesystemIdentity) -> Seq<u8> {
    match filesystem {
        FilesystemIdentity::Unix { device, inode } => seq![0u8] + spec_u64_to_le_bytes(device)
            + spec_u64_to_le_bytes(inode) + root,
        FilesystemIdentity::Windows { volume, file_index } => seq![1u8] + spec_u64_to_le_bytes(
            volume as u64,
        ) + spec_u64_to_le_bytes(file_index) + root,
    }
}

/// The name of what is kept for a directory as long as it is the same directory.
pub open spec fn generation_key(root: Seq<u8>, filesystem: FilesystemIdentity) -> Seq<char> {
    key(generation(root, filesystem))
}

/// The name of what is kept for a directory as long as it is the same directory.
pub fn workspace_generation_key(root: &FilePath, filesystem: FilesystemIdentity) -> (result: String)
    ensures
        result@ == generation_key(root@, filesystem),
{
    let (mark, first, second): (u8, u64, u64) = match filesystem {
        FilesystemIdentity::Unix { device, inode } => (0, device, inode),
        FilesystemIdentity::Windows { volume, file_index } => (1, volume as u64, file_index),
    };
    let mut bytes: Vec<u8> = Vec::new();
    bytes.push(mark);
    bytes.extend_from_slice(u64_to_le_bytes(first).as_slice());
    bytes.extend_from_slice(u64_to_le_bytes(second).as_slice());
    bytes.extend_from_slice(root.bytes.as_slice());
    assert(bytes@ =~= generation(root@, filesystem));
    key_of(bytes.as_slice())
}

/// Directories have one generation only if they have one path and are one
/// directory.
pub proof fn generations_tell_directories_apart(
    left: Seq<u8>,
    left_is: FilesystemIdentity,
    right: Seq<u8>,
    right_is: FilesystemIdentity,
)
    requires
        generation(left, left_is) == generation(right, right_is),
    ensures
        left == right,
        left_is == right_is,
{
    lemma_auto_spec_u64_to_from_le_bytes();
    let one = generation(left, left_is);
    let other = generation(right, right_is);
    let numbers = |identity: FilesystemIdentity| match identity {
        FilesystemIdentity::Unix { device, inode } => (0u8, device, inode),
        FilesystemIdentity::Windows { volume, file_index } => (1u8, volume as u64, file_index),
    };
    let (left_mark, left_first, left_second) = numbers(left_is);
    let (right_mark, right_first, right_second) = numbers(right_is);
    assert(one[0] == left_mark);
    assert(other[0] == right_mark);
    assert(one.subrange(1, 9) =~= spec_u64_to_le_bytes(left_first));
    assert(other.subrange(1, 9) =~= spec_u64_to_le_bytes(right_first));
    assert(one.subrange(9, 17) =~= spec_u64_to_le_bytes(left_second));
    assert(other.subrange(9, 17) =~= spec_u64_to_le_bytes(right_second));
    assert(one.skip(17) =~= left);
    assert(other.skip(17) =~= right);
    assert(left_first == spec_u64_from_le_bytes(spec_u64_to_le_bytes(left_first)));
    assert(right_first == spec_u64_from_le_bytes(spec_u64_to_le_bytes(right_first)));
    assert(left_second == spec_u64_from_le_bytes(spec_u64_to_le_bytes(left_second)));
    assert(right_second == spec_u64_from_le_bytes(spec_u64_to_le_bytes(right_second)));
}

/// A record of another version is refused before anything else is looked at, then
/// one of another root. What the directory is now matters only to a record that
/// is not refused.
pub proof fn foreign_records_are_refused(
    store: TrustView,
    record: RecordView,
    current: Option<FilesystemIdentity>,
)
    ensures
        record.version != STORE_VERSION ==> store.judged(Some(record), current) == Err::<
            WorkspaceTrustState,
            _,
        >(TrustError::UnsupportedVersion(record.version)),
        record.version == STORE_VERSION && record.root != store.identity ==> store.judged(
            Some(record),
            current,
        ) == Err::<WorkspaceTrustState, _>(TrustError::DifferentRoot),
        record.version == STORE_VERSION && record.root == store.identity && current is None
            ==> store.judged(Some(record), current) == Err::<WorkspaceTrustState, _>(
            TrustError::UnknownIdentity,
        ),
        store.judged(Some(record), current) == Ok::<_, TrustError>(WorkspaceTrustState::Stale)
            <==> record.version == STORE_VERSION && record.root == store.identity && current is Some
            && record.filesystem != current->0,
        store.judged(None, current) == Ok::<_, TrustError>(WorkspaceTrustState::Untrusted),
{
}

} // verus!
