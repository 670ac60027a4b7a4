//! SHA-256 digests in hex: the short cache key of an environment token, and
//! the checksum that a downloaded release asset must match.

use vstd::prelude::*;
use vstd::utf8::{encode_utf8, valid_utf8, decode_utf8};
use sha2::Digest;
use crate::text::{hex_lower, hex_prefix, owned};

verus! {

/// The SHA-256 digest of a byte string. Its value is a function of the input
/// alone; what it is, is the SHA-256 algorithm, which is not restated here.
pub uninterp spec fn sha256(data: Seq<u8>) -> Seq<u8>;

/// `sha2::Sha256::digest`: the 32-byte SHA-256 digest of the input.
#[verifier::external_body]
fn sha256_digest(data: &[u8]) -> (r: Vec<u8>)
    ensures
        r@ == sha256(data@),
        r@.len() == 32,
{
    sha2::Sha256::digest(data).to_vec()
}

/// The first 4 bytes of SHA-256 of the text's UTF-8 bytes, in lowercase hex.
pub open spec fn short_hash_of(s: Seq<char>) -> Seq<char> {
    hex_lower(sha256(encode_utf8(s)).take(4))
}

/// First 8 hex chars of sha256(input): a short, stable, non-reversible key.
pub fn short_hash(input: &str) -> (r: String)
    ensures
        r@ == short_hash_of(input@),
        r@.len() == 8,
{
    let d = sha256_digest(input.as_bytes());
    hex_prefix(d.as_slice(), 4)
}

/// The SHA-256 of bytes in lowercase hex (64 characters).
pub open spec fn sha256_hex(data: Seq<u8>) -> Seq<char> {
    hex_lower(sha256(data))
}

/// The lowercase hex SHA-256 of a download.
pub fn sha256_hex_of(data: &[u8]) -> (r: String)
    ensures
        r@ == sha256_hex(data@),
        r@.len() == 64,
{
    let d = sha256_digest(data);
    proof {
        assert(d@.take(32) =~= d@);
    }
    hex_prefix(d.as_slice(), 32)
}

/// The text of the error that std `String::from_utf8` reports for bytes
/// that are not UTF-8 (its `Display`: where the first bad sequence starts
/// and how long it is). It is a function of the bytes alone.
pub uninterp spec fn utf8_error(bytes: Seq<u8>) -> Seq<char>;

/// std `String::from_utf8`: the text when the bytes are valid UTF-8, else
/// the text of its error.
#[verifier::external_body]
pub(crate) fn utf8_text(bytes: Vec<u8>) -> (r: Result<String, String>)
    ensures
        r is Ok <==> valid_utf8(bytes@),
        r matches Ok(s) ==> s@ == decode_utf8(bytes@),
        r matches Err(e) ==> e@ == utf8_error(bytes@),
{
    match String::from_utf8(bytes) {
        Ok(s) => Ok(s),
        Err(e) => Err(e.to_string()),
    }
}

} // verus!
