//! Content digests, computed by the `blake3` and `md5` crates.
use vstd::prelude::*;

verus! {

/// The lower-case hexadecimal BLAKE3 digest of some bytes.
pub uninterp spec fn blake3_hex_of(bytes: Seq<u8>) -> Seq<char>;

/// `blake3::hash(bytes).to_hex()`: the claim is only that the result is the
/// digest of exactly these bytes (the same bytes always give the same text).
#[verifier::external_body]
pub(crate) fn blake3_hex(bytes: &[u8]) -> (r: String)
    ensures
        r@ == blake3_hex_of(bytes@),
{
    blake3::hash(bytes).to_hex().to_string()
}

/// The lower-case hexadecimal MD5 digest of some bytes.
pub uninterp spec fn md5_hex_of(bytes: Seq<u8>) -> Seq<char>;

/// `format!("{:x}", md5::compute(bytes))`: the claim is only that the
/// result is the digest of exactly these bytes.
#[verifier::external_body]
pub(crate) fn md5_hex(bytes: &[u8]) -> (r: String)
    ensures
        r@ == md5_hex_of(bytes@),
{
    format!("{:x}", md5::compute(bytes))
}

/// The BLAKE3 digest of a text's UTF-8 encoding.
pub fn blake3_of_text(s: &str) -> (r: String)
    ensures
        r@ == blake3_hex_of(vstd::utf8::encode_utf8(s@)),
{
    blake3_hex(s.as_bytes())
}

/// The MD5 digest of a text's UTF-8 encoding.
pub fn md5_of_text(s: &str) -> (r: String)
    ensures
        r@ == md5_hex_of(vstd::utf8::encode_utf8(s@)),
{
    md5_hex(s.as_bytes())
}

/// The BLAKE3 digest of a file's contents, by which files are recorded.
pub fn content_hash(bytes: &[u8]) -> (r: String)
    ensures
        r@ == blake3_hex_of(bytes@),
{
    blake3_hex(bytes)
}

} // verus!
