//! Keys that stand for longer names.

use vstd::prelude::*;
use vstd::string::*;
use vstd::utf8::*;

use crate::bytes::{hex, hex_digit, hex_length, hex_of, hex_tells_bytes_apart};
use crate::path::{is_absolute, joined};

verus! {

/// What `Sha256::digest` returns.
pub uninterp spec fn sha256_of(bytes: Seq<u8>) -> Seq<u8>;

/// `sha2::Sha256::digest`: the SHA-256 digest of the bytes, which has 32 bytes.
#[verifier::external_body]
fn sha256(bytes: &[u8]) -> (digest: Vec<u8>)
    ensures
        digest@ == sha256_of(bytes@),
        digest@.len() == 32,
{
    <sha2::Sha256 as sha2::Digest>::digest(bytes).to_vec()
}

/// The digest of the bytes in lower-case hexadecimal digits.
pub fn key_of(bytes: &[u8]) -> (result: String)
    ensures
        result@ == key(bytes@),
        result@.len() == 64,
{
    let digest = sha256(bytes);
    proof {
        hex_length(digest@);
    }
    hex(digest.as_slice())
}

/// The digest of the bytes in lower-case hexadecimal digits.
pub open spec fn key(bytes: Seq<u8>) -> Seq<char> {
    hex_of(sha256_of(bytes))
}

/// The name of the file that is kept for the bytes.
pub open spec fn file_name(bytes: Seq<u8>) -> Seq<char> {
    key(bytes) + ".json"@
}

/// The name of the file that is kept for the bytes: their digest.
pub fn file_name_of(bytes: &[u8]) -> (name: String)
    ensures
        name@ == file_name(bytes@),
{
    let mut name = key_of(bytes);
    name.append(".json");
    name
}

proof fn lemma_hex_has_no_slash(bytes: Seq<u8>)
    ensures
        forall|i: int| 0 <= i < hex_of(bytes).len() ==> hex_of(bytes)[i] != '/',
    decreases bytes.len(),
{
    if bytes.len() > 0 {
        lemma_hex_has_no_slash(bytes.drop_last());
        let high = bytes.last() as int / 16;
        let low = bytes.last() as int % 16;
        assert(hex_digit(high) != '/');
        assert(hex_digit(low) != '/');
        let shorter = hex_of(bytes.drop_last());
        assert(hex_of(bytes) =~= shorter.push(hex_digit(high)).push(hex_digit(low)));
        assert(forall|i: int|
            0 <= i < shorter.len() ==> #[trigger] hex_of(bytes)[i] == shorter[i]);
    }
}

/// A name that starts with no slash does not lead to the root.
proof fn lemma_name_is_relative(name: Seq<char>)
    requires
        name.len() > 0 ==> name[0] != '/',
    ensures
        !is_absolute(encode_utf8(name)),
{
    if name.len() > 0 {
        encode_utf8_first_scalar(name);
        let first = encode_utf8(name)[0];
        assert(first == 0x2fu8 ==> (first & 0x7Fu8) as u32 == 0x2fu32) by (bit_vector);
        lemma_slash(name[0]);
    }
}

proof fn lemma_slash(character: char)
    ensures
        character as u32 == 0x2fu32 ==> character == '/',
{
}

/// In one directory, different relative names are different paths.
pub proof fn lemma_names_have_their_own_paths(
    directory: Seq<u8>,
    left: Seq<char>,
    right: Seq<char>,
)
    requires
        left != right,
        left.len() > 0 ==> left[0] != '/',
        right.len() > 0 ==> right[0] != '/',
    ensures
        joined(directory, encode_utf8(left)) != joined(directory, encode_utf8(right)),
{
    lemma_name_is_relative(left);
    lemma_name_is_relative(right);
    let first = encode_utf8(left);
    let second = encode_utf8(right);
    if joined(directory, first) == joined(directory, second) {
        let base = if directory.len() > 0 && directory.last() != 0x2fu8 {
            directory.push(0x2fu8)
        } else {
            directory
        };
        assert((base + first).skip(base.len() as int) =~= first);
        assert((base + second).skip(base.len() as int) =~= second);
        encode_utf8_decode_utf8(left);
        encode_utf8_decode_utf8(right);
    }
}

/// In one directory, bytes with different digests have different files.
pub proof fn digests_have_their_own_files(directory: Seq<u8>, left: Seq<u8>, right: Seq<u8>)
    requires
        sha256_of(left) != sha256_of(right),
    ensures
        joined(directory, encode_utf8(file_name(left))) != joined(
            directory,
            encode_utf8(file_name(right)),
        ),
{
    reveal_strlit(".json");
    lemma_hex_has_no_slash(sha256_of(left));
    lemma_hex_has_no_slash(sha256_of(right));
    if file_name(left) == file_name(right) {
        let digits = key(left).len() as int;
        assert(file_name(left).len() == digits + ".json"@.len());
        assert(file_name(left).take(digits) =~= key(left));
        assert(file_name(right).take(digits) =~= key(right));
        hex_tells_bytes_apart(sha256_of(left), sha256_of(right));
    }
    lemma_names_have_their_own_paths(directory, file_name(left), file_name(right));
}

/// In one directory, bytes with different digests have different directories,
/// and each has one name.
pub proof fn digests_have_their_own_directories(directory: Seq<u8>, left: Seq<u8>, right: Seq<u8>)
    requires
        sha256_of(left) != sha256_of(right),
    ensures
        joined(directory, encode_utf8(key(left))) != joined(directory, encode_utf8(key(right))),
        forall|i: int| 0 <= i < key(left).len() ==> key(left)[i] != '/',
{
    lemma_hex_has_no_slash(sha256_of(left));
    lemma_hex_has_no_slash(sha256_of(right));
    if key(left) == key(right) {
        hex_tells_bytes_apart(sha256_of(left), sha256_of(right));
    }
    lemma_names_have_their_own_paths(directory, key(left), key(right));
}

} // verus!
