//! Where the client's random numbers come from.
//!
//! Transaction ids, announce keys and the tail of the peer id are drawn from
//! the `rand` crate's thread-local generator. Nothing is promised of what
//! comes out but its type and size.

use rand::Rng;
use vstd::prelude::*;

verus! {

/// `rand::random::<u32>()`: any 32-bit number.
#[verifier::external_body]
pub(crate) fn random_u32() -> u32 {
    rand::random()
}

/// `Rng::fill` on `rand::thread_rng()`, over a fresh buffer of `len` bytes:
/// that many bytes, whatever they are.
#[verifier::external_body]
pub(crate) fn random_bytes(len: usize) -> (bytes: Vec<u8>)
    ensures
        bytes@.len() == len,
{
    let mut bytes = vec![0u8; len];
    rand::thread_rng().fill(&mut bytes[..]);
    bytes
}

} // verus!
