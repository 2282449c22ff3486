//! SHA-256 digests and the `sha256:`-prefixed hash texts built from them.
use vstd::prelude::*;

use crate::hex::{hex_text, lower_hex};
use crate::text::push_text;

verus! {

/// The SHA-256 digest of a message.
pub uninterp spec fn sha256_of(message: Seq<u8>) -> Seq<u8>;

/// Computes the SHA-256 digest of `message` with `sha2::Sha256::digest`.
/// The contract claims that the result is the digest of exactly these bytes
/// (named `sha256_of`) and, as the digest type fixes, that it is 32 bytes long.
#[verifier::external_body]
pub(crate) fn sha256(message: &[u8]) -> (d: Vec<u8>)
    ensures
        d@ == sha256_of(message@),
        d@.len() == 32,
{
    <sha2::Sha256 as sha2::Digest>::digest(message).to_vec()
}

/// `sha256:` followed by the lowercase hexadecimal digest of `message`.
pub open spec fn stable_hash_text(message: Seq<u8>) -> Seq<char> {
    "sha256:"@ + hex_text(sha256_of(message))
}

/// Hashes bytes into the `sha256:<hex>` form used for content and artifact hashes.
pub fn stable_hash(message: &[u8]) -> (s: String)
    ensures
        s@ == stable_hash_text(message@),
{
    let digest = sha256(message);
    let hex = lower_hex(digest.as_slice());
    let mut s = "sha256:".to_owned();
    push_text(&mut s, hex.as_str());
    s
}

} // verus!
