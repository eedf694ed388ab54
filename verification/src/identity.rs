//! The identity under which this client speaks to trackers and peers.

use crate::random;
use crate::wire;
use vstd::prelude::*;
use vstd::slice::slice_subrange;

verus! {

/// Bytes in a peer id, and in an info hash.
pub const ID_SIZE: usize = 20;

/// The client signature that opens our peer id.
pub const SIGNATURE: &'static str = "-WM0001-";

/// The bytes of the client signature.
pub open spec fn signature() -> Seq<u8> {
    seq![0x2du8, 0x57, 0x4d, 0x30, 0x30, 0x30, 0x31, 0x2d]
}

/// The peer id made of the client signature and the last twelve of twenty
/// given bytes.
pub fn signed_peer_id(seed: &[u8]) -> (peer_id: Vec<u8>)
    requires
        seed@.len() == ID_SIZE,
    ensures
        peer_id@ == signature() + seed@.skip(8),
        peer_id@.len() == ID_SIZE,
{
    let mut peer_id: Vec<u8> = vec![0x2du8, 0x57, 0x4d, 0x30, 0x30, 0x30, 0x31, 0x2d];
    wire::append_bytes(&mut peer_id, slice_subrange(seed, 8, ID_SIZE));
    peer_id
}

/// A fresh peer id: the client signature, then twelve bytes drawn at random.
pub fn new_peer_id() -> (peer_id: Vec<u8>)
    ensures
        peer_id@.len() == ID_SIZE,
        peer_id@.take(8) == signature(),
{
    let seed = random::random_bytes(ID_SIZE);
    let peer_id = signed_peer_id(seed.as_slice());
    peer_id
}

} // verus!
