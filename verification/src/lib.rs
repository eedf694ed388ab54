//! The core of a download-only BitTorrent client, as state machines over bytes
//! and plain values. Sockets, timers and channels belong to whoever drives it.
//!
//! - `magnet` reads a magnet link: info hash, display name, tracker URLs.
//! - `tracker_stream` holds the UDP tracker messages and judges the datagrams
//!   that come back.
//! - `peer_codec` is the peer wire format; `codec` and `connection` frame it
//!   over a byte stream, and `stream` states what the format guarantees.
//! - `peer_connection` is one peer session: handshake gate and frame pump.
//! - `coordinator` keeps the registry of peers and the piece plan, and turns
//!   each inbound message into the frames to send.
//! - `wire`, `buffer` and `random` are the edges to the `byteorder`, `bytes`
//!   and `rand` crates.

pub mod buffer;
pub mod codec;
pub mod connection;
pub mod coordinator;
pub mod error;
pub mod identity;
pub mod magnet;
pub mod peer_codec;
pub mod peer_connection;
pub mod peer_message;
mod random;
pub mod stream;
pub mod tracker_stream;
pub mod wire;

use vstd::prelude::*;

verus! {

/// Where a peer or a tracker is reached: an IPv4 address and a port.
#[derive(Debug, Clone, Copy, PartialEq, Eq, Hash, Structural)]
pub struct PeerAddr {
    /// The four octets of the address as one number, first octet highest.
    pub ip: u32,
    pub port: u16,
}

impl PeerAddr {
    /// The address with the octets `a.b.c.d` and the given port.
    pub fn from_octets(a: u8, b: u8, c: u8, d: u8, port: u16) -> (addr: PeerAddr)
        ensures
            addr.ip == a as int * 0x100_0000 + b as int * 0x1_0000 + c as int * 0x100 + d as int,
            addr.port == port,
    {
        let ip: u32 = (a as u32) * 0x100_0000 + (b as u32) * 0x1_0000 + (c as u32) * 0x100 + (
        d as u32);
        PeerAddr { ip, port }
    }
}

} // verus!
