//! The peer wire format: the handshake prologue and length-prefixed data
//! frames, read from and written to a byte buffer.

use crate::buffer;
use crate::codec;
use crate::codec::Decoder;
use crate::codec::Encoder;
use crate::codec::Framed;
use crate::codec::Parsed;
use crate::error::ProtocolError;
use crate::wire;
use bytes::BytesMut;
use vstd::prelude::*;
use vstd::slice::slice_subrange;
use vstd::slice::slice_to_vec;

verus! {

/// The protocol name that opens every handshake.
pub const BITTORRENT_PROTOCOL: &'static str = "BitTorrent protocol";

/// Bytes a handshake takes on the wire.
pub const HANDSHAKE_SIZE: usize = 68;

/// The bytes of the protocol name.
pub open spec fn protocol_name() -> Seq<u8> {
    seq![
        0x42u8, 0x69, 0x74, 0x54, 0x6f, 0x72, 0x72, 0x65, 0x6e, 0x74,
        0x20, 0x70, 0x72, 0x6f, 0x74, 0x6f, 0x63, 0x6f, 0x6c,
    ]
}

/// The bytes of the protocol name, as a fresh vector.
pub fn protocol_bytes() -> (name: Vec<u8>)
    ensures
        name@ == protocol_name(),
{
    let name: Vec<u8> = vec![
        0x42u8, 0x69, 0x74, 0x54, 0x6f, 0x72, 0x72, 0x65, 0x6e, 0x74,
        0x20, 0x70, 0x72, 0x6f, 0x74, 0x6f, 0x63, 0x6f, 0x6c,
    ];
    name
}

/// The prologue that both sides send once, before any data frame.
#[derive(Debug)]
pub struct Handshake {
    pub pstr: Vec<u8>,
    pub info_hash: Vec<u8>,
    pub peer_id: Vec<u8>,
}

/// A `Handshake` as plain values.
pub struct HandshakeView {
    pub pstr: Seq<u8>,
    pub info_hash: Seq<u8>,
    pub peer_id: Seq<u8>,
}

impl View for Handshake {
    type V = HandshakeView;

    open spec fn view(&self) -> HandshakeView {
        HandshakeView { pstr: self.pstr@, info_hash: self.info_hash@, peer_id: self.peer_id@ }
    }
}

impl HandshakeView {
    /// A handshake that can go on the wire: the protocol name, and twenty
    /// bytes each of info hash and peer id.
    pub open spec fn well_formed(self) -> bool {
        &&& self.pstr == protocol_name()
        &&& self.info_hash.len() == 20
        &&& self.peer_id.len() == 20
    }

    /// The bytes a handshake is written as: the length of the name, the name,
    /// eight reserved zero bytes, the info hash, the peer id.
    pub open spec fn encoding(self) -> Seq<u8> {
        seq![(self.pstr.len() % 256) as u8] + self.pstr + Seq::new(8, |i: int| 0u8)
            + self.info_hash + self.peer_id
    }

    /// What the head of `buf` holds when a handshake is due there.
    pub open spec fn parse(buf: Seq<u8>) -> Parsed<HandshakeView> {
        if buf.len() < 68 {
            Parsed::Incomplete
        } else if buf[0] != 19 || buf.subrange(1, 20) != protocol_name() {
            Parsed::Invalid(ProtocolError::MalformedHandshake)
        } else {
            Parsed::Frame {
                frame: HandshakeView {
                    pstr: buf.subrange(1, 20),
                    info_hash: buf.subrange(28, 48),
                    peer_id: buf.subrange(48, 68),
                },
                consumed: 68,
            }
        }
    }
}

impl Handshake {
    /// Reads a handshake from the head of `bytes`, with the number of bytes it
    /// took. The eight reserved bytes are skipped unread.
    pub fn from_bytes(bytes: &[u8]) -> (r: Result<Option<(Handshake, usize)>, ProtocolError>)
        ensures
            codec::parsed_as(HandshakeView::parse(bytes@), r),
    {
        if bytes.len() < HANDSHAKE_SIZE {
            return Ok(None);
        }
        let pstrlen = bytes[0];
        if pstrlen != 19 {
            return Err(ProtocolError::MalformedHandshake);
        }
        let pstr = slice_to_vec(slice_subrange(bytes, 1, 20));
        let name = protocol_bytes();
        if !wire::same_bytes(pstr.as_slice(), name.as_slice()) {
            return Err(ProtocolError::MalformedHandshake);
        }
        let info_hash = slice_to_vec(slice_subrange(bytes, 28, 48));
        let peer_id = slice_to_vec(slice_subrange(bytes, 48, 68));
        Ok(Some((Handshake { pstr, info_hash, peer_id }, HANDSHAKE_SIZE)))
    }

    /// Takes a handshake off the head of `bytes`. Until all 68 bytes are there,
    /// and on a malformed prologue, the buffer is left as it was.
    pub fn decode(bytes: &mut BytesMut) -> (r: Result<Option<Handshake>, ProtocolError>)
        ensures
            codec::decoded(
                HandshakeView::parse(buffer::buffered(*old(bytes))),
                buffer::buffered(*old(bytes)),
                buffer::buffered(*final(bytes)),
                r,
            ),
    {
        match Handshake::from_bytes(buffer::contents(bytes)) {
            Ok(Some((handshake, consumed))) => {
                buffer::advance(bytes, consumed);
                Ok(Some(handshake))
            },
            Ok(None) => Ok(None),
            Err(e) => Err(e),
        }
    }

    /// The bytes this handshake is written as.
    pub fn encode(&self) -> (bytes: Vec<u8>)
        ensures
            bytes@ == self@.encoding(),
    {
        let mut bytes: Vec<u8> = Vec::new();
        let pstrlen: u8 = (self.pstr.len() % 256) as u8;
        bytes.push(pstrlen);
        wire::append_bytes(&mut bytes, self.pstr.as_slice());
        let reserved: Vec<u8> = vec![0u8; 8];
        wire::append_bytes(&mut bytes, reserved.as_slice());
        wire::append_bytes(&mut bytes, self.info_hash.as_slice());
        wire::append_bytes(&mut bytes, self.peer_id.as_slice());
        bytes
    }
}

/// A length-prefixed frame: one byte of message code, then the payload.
#[derive(Debug)]
pub struct Data {
    pub message_id: u8,
    pub payload: Vec<u8>,
}

/// A `Data` frame as plain values.
pub struct DataView {
    pub message_id: u8,
    pub payload: Seq<u8>,
}

impl View for Data {
    type V = DataView;

    open spec fn view(&self) -> DataView {
        DataView { message_id: self.message_id, payload: self.payload@ }
    }
}

impl DataView {
    /// The frame that a length prefix of zero decodes to.
    pub open spec fn keep_alive() -> DataView {
        DataView { message_id: 0, payload: Seq::empty() }
    }

    /// Whether the length prefix can hold this frame's length.
    pub open spec fn fits(self) -> bool {
        self.payload.len() < 0xFFFF_FFFF
    }

    /// The bytes a frame is written as: the length of what follows in four
    /// bytes, the message code, the payload.
    pub open spec fn encoding(self) -> Seq<u8> {
        wire::bytes32(1 + self.payload.len() as int) + seq![self.message_id] + self.payload
    }

    /// What the head of `buf` holds when a data frame is due there.
    pub open spec fn parse(buf: Seq<u8>) -> Parsed<DataView> {
        if buf.len() < 4 {
            Parsed::Incomplete
        } else if wire::be32(buf) == 0 {
            Parsed::Frame { frame: DataView::keep_alive(), consumed: 4 }
        } else if buf.len() - 4 < wire::be32(buf) {
            Parsed::Incomplete
        } else if buf[4] > 9 {
            Parsed::Invalid(ProtocolError::BadMessageId)
        } else {
            Parsed::Frame {
                frame: DataView {
                    message_id: buf[4],
                    payload: buf.subrange(5, 4 + wire::be32(buf)),
                },
                consumed: (4 + wire::be32(buf)) as nat,
            }
        }
    }
}

impl Data {
    /// Reads a data frame from the head of `bytes`, with the number of bytes
    /// it took. A length prefix of zero is a keep-alive: four bytes, message
    /// code zero, no payload.
    pub fn from_bytes(bytes: &[u8]) -> (r: Result<Option<(Data, usize)>, ProtocolError>)
        ensures
            codec::parsed_as(DataView::parse(bytes@), r),
    {
        if bytes.len() < 4 {
            return Ok(None);
        }
        let message_len = wire::read_u32(slice_subrange(bytes, 0, 4));
        if message_len == 0 {
            return Ok(Some((Data { message_id: 0, payload: Vec::new() }, 4)));
        }
        if bytes.len() - 4 < message_len as usize {
            return Ok(None);
        }
        let message_id = bytes[4];
        if message_id > 9 {
            return Err(ProtocolError::BadMessageId);
        }
        let end: usize = 4 + message_len as usize;
        let payload = slice_to_vec(slice_subrange(bytes, 5, end));
        Ok(Some((Data { message_id, payload }, end)))
    }

    /// Takes a data frame off the head of `bytes`. Until the whole frame is
    /// there, and on a bad message code, the buffer is left as it was.
    pub fn decode(bytes: &mut BytesMut) -> (r: Result<Option<Data>, ProtocolError>)
        ensures
            codec::decoded(
                DataView::parse(buffer::buffered(*old(bytes))),
                buffer::buffered(*old(bytes)),
                buffer::buffered(*final(bytes)),
                r,
            ),
    {
        match Data::from_bytes(buffer::contents(bytes)) {
            Ok(Some((data, consumed))) => {
                buffer::advance(bytes, consumed);
                Ok(Some(data))
            },
            Ok(None) => Ok(None),
            Err(e) => Err(e),
        }
    }

    /// The bytes this frame is written as.
    pub fn encode(&self) -> (bytes: Vec<u8>)
        requires
            self@.fits(),
        ensures
            bytes@ == self@.encoding(),
    {
        let message_len: u32 = (1 + self.payload.len()) as u32;
        let mut bytes = wire::write_u32(message_len);
        bytes.push(self.message_id);
        wire::append_bytes(&mut bytes, self.payload.as_slice());
        bytes
    }
}

/// What travels on a peer connection: the handshake once, data frames after.
#[derive(Debug)]
pub enum PeerFrame {
    Handshake(Handshake),
    Data(Data),
}

/// A `PeerFrame` as plain values.
pub enum FrameView {
    Handshake(HandshakeView),
    Data(DataView),
}

impl View for PeerFrame {
    type V = FrameView;

    open spec fn view(&self) -> FrameView {
        match self {
            PeerFrame::Handshake(handshake) => FrameView::Handshake(handshake@),
            PeerFrame::Data(data) => FrameView::Data(data@),
        }
    }
}

impl FrameView {
    /// A frame that decodes to itself: a well-formed handshake, or a data
    /// frame with a defined message code whose length fits the prefix.
    pub open spec fn well_formed(self) -> bool {
        match self {
            FrameView::Handshake(handshake) => handshake.well_formed(),
            FrameView::Data(data) => data.message_id <= 9 && data.fits(),
        }
    }

    /// Whether the frame can be written at all.
    pub open spec fn fits(self) -> bool {
        match self {
            FrameView::Handshake(_) => true,
            FrameView::Data(data) => data.fits(),
        }
    }

    /// The bytes a frame is written as.
    pub open spec fn encoding(self) -> Seq<u8> {
        match self {
            FrameView::Handshake(handshake) => handshake.encoding(),
            FrameView::Data(data) => data.encoding(),
        }
    }

    /// What the head of `buf` holds for a decoder that does not know whether
    /// the handshake has passed: a data frame if a whole one is there, and a
    /// handshake if the data frame is incomplete and a whole handshake is
    /// there. Bytes that may yet grow into a data frame are incomplete,
    /// whatever they would be as a handshake: only who knows that a handshake
    /// is due can call them malformed.
    pub open spec fn parse(buf: Seq<u8>) -> Parsed<FrameView> {
        match DataView::parse(buf) {
            Parsed::Frame { frame, consumed } => Parsed::Frame {
                frame: FrameView::Data(frame),
                consumed,
            },
            Parsed::Invalid(e) => Parsed::Invalid(e),
            Parsed::Incomplete => match HandshakeView::parse(buf) {
                Parsed::Frame { frame, consumed } => Parsed::Frame {
                    frame: FrameView::Handshake(frame),
                    consumed,
                },
                Parsed::Invalid(_) => Parsed::Incomplete,
                Parsed::Incomplete => Parsed::Incomplete,
            },
        }
    }
}

impl PeerFrame {
    /// The bytes this frame is written as.
    pub fn encode(&self) -> (bytes: Vec<u8>)
        requires
            self@.fits(),
        ensures
            bytes@ == self@.encoding(),
    {
        match self {
            PeerFrame::Handshake(handshake) => handshake.encode(),
            PeerFrame::Data(data) => data.encode(),
        }
    }
}

/// The codec of a peer connection. It keeps nothing between calls: all state
/// is in the buffer.
#[derive(Debug, Clone, Copy)]
pub struct PeerCodec {}

impl PeerCodec {
    pub fn new() -> (codec: PeerCodec)
        ensures
            codec == (PeerCodec {  }),
    {
        PeerCodec {  }
    }

    /// Decodes at the end of the stream: what `decode` gives, but bytes that
    /// are left over without making a frame are an error.
    pub fn decode_eof(&mut self, buf: &mut BytesMut) -> (r: Result<Option<PeerFrame>, ProtocolError>)
        ensures
            match FrameView::parse(buffer::buffered(*old(buf))) {
                Parsed::Incomplete => buffer::buffered(*final(buf)) == buffer::buffered(*old(buf))
                    && if buffer::buffered(*old(buf)).len() == 0 {
                    r matches Ok(None)
                } else {
                    r matches Err(e) && e == ProtocolError::BytesRemaining
                },
                parsed => codec::decoded(
                    parsed,
                    buffer::buffered(*old(buf)),
                    buffer::buffered(*final(buf)),
                    r,
                ),
            },
    {
        match self.decode(buf) {
            Ok(Some(frame)) => Ok(Some(frame)),
            Ok(None) => {
                if buffer::contents(buf).len() == 0 {
                    Ok(None)
                } else {
                    Err(ProtocolError::BytesRemaining)
                }
            },
            Err(e) => Err(e),
        }
    }
}

impl Decoder for PeerCodec {
    type Item = PeerFrame;

    open spec fn parse(&self, buf: Seq<u8>) -> Parsed<FrameView> {
        FrameView::parse(buf)
    }

    /// Takes the next frame off the head of `buf`: a data frame first, and a
    /// handshake where the data frame is incomplete and a whole handshake is
    /// there.
    fn decode(&mut self, buf: &mut BytesMut) -> (r: Result<Option<PeerFrame>, ProtocolError>) {
        match Data::decode(buf) {
            Ok(Some(data)) => Ok(Some(PeerFrame::Data(data))),
            Ok(None) => match Handshake::decode(buf) {
                Ok(Some(handshake)) => Ok(Some(PeerFrame::Handshake(handshake))),
                Ok(None) => Ok(None),
                Err(_) => Ok(None),
            },
            Err(e) => Err(e),
        }
    }

    fn framed(self) -> (framed: Framed<PeerCodec>) {
        Framed::new(self)
    }
}

impl Encoder<PeerFrame> for PeerCodec {
    open spec fn encodable(item: FrameView) -> bool {
        item.fits()
    }

    open spec fn encoding(item: FrameView) -> Seq<u8> {
        item.encoding()
    }

    /// Writes `item` at the end of `dst`.
    fn encode(&mut self, item: PeerFrame, dst: &mut BytesMut) -> (r: Result<(), ProtocolError>) {
        let bytes = item.encode();
        buffer::extend(dst, bytes.as_slice());
        Ok(())
    }
}

} // verus!
