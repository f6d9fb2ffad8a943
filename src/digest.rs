//! Content hashes: a document's id is the MD5 digest of its bytes, written
//! as 32 lowercase hexadecimal digits.

use vstd::prelude::*;
use crate::text::same_text;

verus! {

/// The MD5 digest of `data` in lowercase hexadecimal.
pub uninterp spec fn md5_hex_of(data: Seq<u8>) -> Seq<char>;

/// Relies on `md5::compute` for the digest and on its `LowerHex` formatting,
/// which writes each of the 16 digest bytes as two lowercase hex digits.
#[verifier::external_body]
fn md5_hex(data: &[u8]) -> (r: String)
    ensures
        r@ == md5_hex_of(data@),
        r@.len() == 32,
{
    format!("{:x}", md5::compute(data))
}

/// The content hash of a document's bytes.
pub fn content_digest(data: &Vec<u8>) -> (r: String)
    ensures
        r@ == md5_hex_of(data@),
        r@.len() == 32,
{
    md5_hex(data.as_slice())
}

/// Whether a computed digest names the document `id`.
pub fn digest_matches_id(digest: &str, id: &str) -> (r: bool)
    ensures
        r == (digest@ == id@),
{
    same_text(digest, id)
}

/// Whether `data` is the content that the id `id` names.
pub fn content_matches_id(data: &Vec<u8>, id: &str) -> (r: bool)
    ensures
        r == (md5_hex_of(data@) == id@),
{
    let digest = content_digest(data);
    digest_matches_id(digest.as_str(), id)
}

} // verus!
