//! Content hashing: the digest behind type identifiers and derived record
//! identifiers.

use crate::encoding::{decode_le, le_value, lemma_byte_range_8, lemma_le_value_bound};
use crate::text::{join, joined, lemma_joined_injective_left, lemma_utf8_injective};
use sha2::Digest;
use vstd::prelude::*;
use vstd::slice::slice_subrange;
use vstd::utf8::encode_utf8;

verus! {

/// Number of bytes in a SHA-256 digest.
pub const DIGEST_LEN: usize = 32;

/// Number of leading digest bytes that form an identifier.
pub const ID_LEN: usize = 8;

/// The SHA-256 digest of a byte string.
pub uninterp spec fn sha256(data: Seq<u8>) -> Seq<u8>;

/// `sha2::Sha256::digest`, the one-shot form of the hasher: the result is the
/// SHA-256 digest of `data`, which is always 32 bytes long. Nothing else is
/// claimed of the digest.
#[verifier::external_body]
fn sha256_digest(data: &[u8]) -> (out: Vec<u8>)
    ensures
        out@ == sha256(data@),
        out@.len() == DIGEST_LEN,
{
    sha2::Sha256::digest(data).to_vec()
}

/// The identifier that a digest stands for: its first eight bytes read as a
/// little-endian integer. Fewer than eight bytes are no digest and stand
/// for zero.
pub open spec fn id_of_digest(digest: Seq<u8>) -> nat {
    if digest.len() >= ID_LEN {
        le_value(digest.subrange(0, ID_LEN as int))
    } else {
        0
    }
}

/// An identifier fits in 64 bits.
pub proof fn lemma_id_of_digest_bound(digest: Seq<u8>)
    ensures
        id_of_digest(digest) <= u64::MAX,
{
    if digest.len() >= ID_LEN {
        lemma_le_value_bound(digest.subrange(0, ID_LEN as int));
        lemma_byte_range_8();
    }
}

/// Maps a digest into the identifier value space.
pub fn id_from_digest(digest: &[u8]) -> (id: u64)
    ensures
        id == id_of_digest(digest@),
{
    if digest.len() < ID_LEN {
        return 0;
    }
    decode_le(slice_subrange(digest, 0, ID_LEN))
}

/// The identifier derived from a byte string: the digest of the bytes, mapped
/// into the identifier value space.
pub open spec fn derived_id(bytes: Seq<u8>) -> nat {
    id_of_digest(sha256(bytes))
}

/// Hashes `bytes` and maps the digest into the identifier value space.
pub fn derive_id(bytes: &[u8]) -> (id: u64)
    ensures
        id == derived_id(bytes@),
{
    let digest = sha256_digest(bytes);
    id_from_digest(digest.as_slice())
}

/// The bytes of all parts, one part after the other.
pub open spec fn concatenated(parts: Seq<Seq<u8>>) -> Seq<u8>
    decreases parts.len(),
{
    if parts.len() == 0 {
        Seq::empty()
    } else {
        concatenated(parts.drop_last()) + parts.last()
    }
}

/// Derives an identifier from the byte encodings of a record's fields:
/// feeds them in their order into one digest and maps the digest into
/// the identifier value space.
pub fn derive_identifier(encodings: &Vec<Vec<u8>>) -> (id: u64)
    ensures
        id == derived_id(concatenated(encodings.deep_view())),
{
    let ghost parts = encodings.deep_view();
    let mut bytes: Vec<u8> = Vec::new();
    let mut i: usize = 0;
    while i < encodings.len()
        invariant
            i <= encodings.len(),
            parts == encodings.deep_view(),
            bytes@ == concatenated(parts.take(i as int)),
        decreases encodings.len() - i,
    {
        let mut part = encodings[i].clone();
        proof {
            assert(parts.take(i + 1).drop_last() =~= parts.take(i as int));
        }
        bytes.append(&mut part);
        i += 1;
    }
    proof {
        assert(parts.take(i as int) =~= parts);
    }
    derive_id(bytes.as_slice())
}

/// Number of type identifiers: they are the integers below 2 to the power 63.
pub const TYPE_ID_RANGE: u64 = 0x8000_0000_0000_0000;

/// The text that a type's identifier is hashed from: the namespace, a dot,
/// the type's name.
pub open spec fn qualified_name(namespace: Seq<char>, name: Seq<char>) -> Seq<char> {
    joined(namespace, "."@, name)
}

/// The stable hash of a text: the identifier derived from its UTF-8 bytes.
pub open spec fn stable_hash(text: Seq<char>) -> nat {
    derived_id(encode_utf8(text))
}

/// The identifier of the type `name` in `namespace`.
pub open spec fn type_id_of(namespace: Seq<char>, name: Seq<char>) -> int {
    (stable_hash(qualified_name(namespace, name)) % (TYPE_ID_RANGE as nat)) as int
}

/// Computes the identifier of the type `name` in `namespace`: the stable
/// hash of the qualified name, reduced to 63 bits.
pub fn type_id(namespace: &str, name: &str) -> (id: i64)
    ensures
        id == type_id_of(namespace@, name@),
        0 <= id,
{
    let qualified = join(namespace, ".", name);
    let hash = derive_id(qualified.as_str().as_bytes());
    (hash % TYPE_ID_RANGE) as i64
}

/// Types of one name in two namespaces are hashed from two texts.
pub proof fn lemma_namespaces_keep_names_apart(first: Seq<char>, second: Seq<char>, name: Seq<char>)
    requires
        first != second,
    ensures
        qualified_name(first, name) != qualified_name(second, name),
        encode_utf8(qualified_name(first, name)) != encode_utf8(qualified_name(second, name)),
{
    if qualified_name(first, name) == qualified_name(second, name) {
        lemma_joined_injective_left(first, second, "."@, name);
    }
    if encode_utf8(qualified_name(first, name)) == encode_utf8(qualified_name(second, name)) {
        lemma_utf8_injective(qualified_name(first, name), qualified_name(second, name));
    }
}

} // verus!
