//! Content hashing for transfer integrity checks.

use vstd::prelude::*;
use std::hash::Hasher;

verus! {

/// The SipHash-2-4 digest (zero key) of a byte sequence. The algorithm is
/// deterministic, so the digest is a function of the bytes alone; the library
/// does not restate it, it only names it.
pub uninterp spec fn sip_hash_of(bytes: Seq<u8>) -> u64;

/// Relies on siphasher's `SipHasher` (SipHash-2-4 with both keys 0, the same
/// hasher the wire peers use): feeding a byte stream to `write` and calling
/// `finish` yields a digest that depends on the bytes alone.
#[verifier::external_body]
fn sip_hash(bytes: &Vec<u8>) -> (r: u64)
    ensures
        r == sip_hash_of(bytes@),
{
    let mut hasher = siphasher::sip::SipHasher::new();
    hasher.write(bytes);
    hasher.finish()
}

/// The digest a sender must declare at registration for `content` to pass the
/// install-time integrity gate.
pub fn content_hash(content: &Vec<u8>) -> (r: u64)
    ensures
        r == sip_hash_of(content@),
{
    sip_hash(content)
}

} // verus!
