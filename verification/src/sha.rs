//! The cryptographic digest behind the canonical hasher and the
//! proof-of-work predicate.

use vstd::prelude::*;
use crate::text::hex_of;
use crate::text::to_hex;

verus! {

/// The SHA-256 digest of a byte string. Its value is fixed by the input
/// alone; the library never states what it is, only computes it through
/// the trusted wrapper below.
pub uninterp spec fn sha256_of(bytes: Seq<u8>) -> Seq<u8>;

/// Relies on sha2::Sha256 through the digest::Digest trait (new, update,
/// finalize): the SHA-256 digest of the input bytes, always 32 bytes long
/// and a function of the input alone.
#[verifier::external_body]
fn sha256_digest(input: &[u8]) -> (r: Vec<u8>)
    ensures
        r@ == sha256_of(input@),
        r@.len() == 32,
{
    let mut hasher = <sha2::Sha256 as sha2::Digest>::new();
    sha2::Digest::update(&mut hasher, input);
    sha2::Digest::finalize(hasher).to_vec()
}

/// Lowercase hex text of the SHA-256 digest of `input`: the canonical
/// digest form used for chain links and proof-of-work checks.
pub fn sha256_hex(input: &[u8]) -> (r: String)
    ensures
        r@ == hex_of(sha256_of(input@)),
        r@.len() == 64,
{
    let digest = sha256_digest(input);
    to_hex(digest.as_slice())
}

} // verus!
