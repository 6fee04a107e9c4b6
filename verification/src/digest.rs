//! Hashes of JSON notations.

use crate::json::Json;
use crate::primitives::encode_hex;
use sha2::Digest;
use vstd::prelude::*;

verus! {

/// The SHA-256 digest of `bytes`.
pub uninterp spec fn sha256_digest(bytes: Seq<u8>) -> Seq<u8>;

/// The hash of a notation: the SHA-256 digest of its UTF-8 encoding, in small hexadecimal digits.
pub open spec fn json_hash(json: Seq<char>) -> Seq<char> {
    crate::hex::lower_hex(sha256_digest(vstd::utf8::encode_utf8(json)))
}

/// Calls `<sha2::Sha256 as Digest>::digest`. The contract names the digest and says that it has 32
/// bytes; it does not say how it is computed.
#[verifier::external_body]
fn sha256(bytes: &[u8]) -> (digest: Vec<u8>)
    ensures
        digest@ == sha256_digest(bytes@),
        digest@.len() == 32,
{
    sha2::Sha256::digest(bytes).to_vec()
}

/// A digest in small hexadecimal digits.
pub fn digest_text(digest: &[u8]) -> (text: String)
    ensures
        text@ == crate::hex::lower_hex(digest@),
{
    encode_hex(digest)
}

/// The hash of the notation of `value`.
pub fn hash_json<T: Json>(value: &T) -> (hash: String)
    ensures
        hash@ == json_hash(value.json()),
        hash@.len() == 64,
{
    let mut json = String::new();
    value.write_json(&mut json);
    assert(json@ =~= value.json());
    let digest = sha256(json.as_str().as_bytes());
    digest_text(digest.as_slice())
}

/// A hash is the SHA-256 digest of the UTF-8 encoding of the notation, in small hexadecimal digits,
/// two a byte: reading it back gives the digest.
pub proof fn law_hashes_are_digests(json: Seq<char>)
    ensures
        crate::hex::decoded(json_hash(json)) == sha256_digest(vstd::utf8::encode_utf8(json)),
        json_hash(json).len() == 2 * sha256_digest(vstd::utf8::encode_utf8(json)).len(),
        forall|i: int|
            0 <= i < json_hash(json).len() ==> '0' <= #[trigger] json_hash(json)[i] <= '9' || 'a'
                <= json_hash(json)[i] <= 'f',
{
    let digest = sha256_digest(vstd::utf8::encode_utf8(json));
    crate::hex::lemma_decoded_lower_hex(digest);
    assert forall|i: int| 0 <= i < json_hash(json).len() implies '0' <= #[trigger] json_hash(
        json,
    )[i] <= '9' || 'a' <= json_hash(json)[i] <= 'f' by {
        let b = digest[i / 2] as int;
        assert(0 <= b / 16 < 16 && 0 <= b % 16 < 16);
    }
}

} // verus!
