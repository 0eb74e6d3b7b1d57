//! Content digests: SHA-256 of a text's UTF-8 bytes, written as lower-case
//! hexadecimal.

use sha2::{Digest, Sha256};
use vstd::prelude::*;
use vstd::utf8::encode_utf8;

verus! {

/// The SHA-256 digest of `data`.
pub uninterp spec fn sha256(data: Seq<u8>) -> Seq<u8>;

/// Computes the SHA-256 digest of `data`. Trusted: `Sha256::digest` of the
/// sha2 crate, which hashes the whole input in one call and returns the
/// 32 bytes of the digest; the same input always gives the same digest.
#[verifier::external_body]
pub(crate) fn sha256_digest(data: &[u8]) -> (digest: Vec<u8>)
    ensures
        digest@ == sha256(data@),
        digest@.len() == 32,
{
    Sha256::digest(data).to_vec()
}

/// The lower-case hexadecimal digit for a value below sixteen.
pub open spec fn hex_digit(nibble: u8) -> char {
    if nibble < 10 {
        (48 + nibble) as char
    } else {
        (87 + nibble) as char
    }
}

/// Two lower-case hexadecimal digits per byte, high half first.
pub open spec fn hex_lower(bytes: Seq<u8>) -> Seq<char> {
    Seq::new(
        2 * bytes.len(),
        |i: int|
            if i % 2 == 0 {
                hex_digit(bytes[i / 2] / 16)
            } else {
                hex_digit(bytes[i / 2] % 16)
            },
    )
}

/// The digest by which a text is recognised: the lower-case hexadecimal
/// SHA-256 of its UTF-8 encoding.
pub open spec fn text_digest(text: Seq<char>) -> Seq<char> {
    hex_lower(sha256(encode_utf8(text)))
}

/// The hexadecimal digit for `nibble`.
pub fn to_hex_digit(nibble: u8) -> (digit: char)
    requires
        nibble < 16,
    ensures
        digit == hex_digit(nibble),
{
    if nibble < 10 {
        (48u8 + nibble) as char
    } else {
        (87u8 + nibble) as char
    }
}

/// Writes `bytes` as lower-case hexadecimal.
pub fn to_hex_lower(bytes: &[u8]) -> (out: String)
    ensures
        out@ == hex_lower(bytes@),
{
    let mut out = String::new();
    let mut i: usize = 0;
    while i < bytes.len()
        invariant
            i <= bytes.len(),
            out@ == hex_lower(bytes@.take(i as int)),
        decreases bytes.len() - i,
    {
        let byte: u8 = bytes[i];
        out.push(to_hex_digit(byte / 16));
        out.push(to_hex_digit(byte % 16));
        i += 1;
        assert(out@ == hex_lower(bytes@.take(i as int)));
    }
    assert(bytes@.take(bytes.len() as int) == bytes@);
    out
}

/// Hashes `content` and returns the digest as 64 hexadecimal digits.
pub fn hash_instruction_content(content: &str) -> (hash: String)
    ensures
        hash@ == text_digest(content@),
        hash@.len() == 64,
{
    let digest = sha256_digest(content.as_bytes());
    to_hex_lower(digest.as_slice())
}

} // verus!
