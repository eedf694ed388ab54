//! Framing over a byte stream: what a decoder and an encoder are, and the
//! buffer that holds the bytes of a frame until all of them have arrived.

use crate::buffer;
use crate::error::ProtocolError;
use bytes::BytesMut;
use vstd::prelude::*;

verus! {

/// What the head of a buffer holds.
pub enum Parsed<T> {
    /// Not all of a frame has arrived; nothing is consumed.
    Incomplete,
    /// The bytes cannot begin any frame.
    Invalid(ProtocolError),
    /// A whole frame, and the number of bytes it took.
    Frame { frame: T, consumed: nat },
}

/// Whether a decoder that found `parsed` at the head of `before` answered `r`
/// and left `after` in the buffer: a frame is handed out and its bytes are
/// gone, anything else leaves the buffer as it was.
pub open spec fn decoded<T: View>(
    parsed: Parsed<T::V>,
    before: Seq<u8>,
    after: Seq<u8>,
    r: Result<Option<T>, ProtocolError>,
) -> bool {
    match parsed {
        Parsed::Incomplete => r matches Ok(None) && after == before,
        Parsed::Invalid(e) => r matches Err(found) && found == e && after == before,
        Parsed::Frame { frame, consumed } => r matches Ok(Some(item)) && item@ == frame && consumed
            <= before.len() && after == before.skip(consumed as int),
    }
}

/// Whether a slice parser that found `parsed` at the head of its input
/// answered `r`.
pub open spec fn parsed_as<T: View>(
    parsed: Parsed<T::V>,
    r: Result<Option<(T, usize)>, ProtocolError>,
) -> bool {
    match parsed {
        Parsed::Incomplete => r matches Ok(None),
        Parsed::Invalid(e) => r matches Err(found) && found == e,
        Parsed::Frame { frame, consumed } => r matches Ok(Some(pair)) && pair.0@ == frame && pair.1
            == consumed,
    }
}

/// Takes frames off the head of a byte buffer.
pub trait Decoder: Sized {
    type Item: View;

    /// What the head of `buf` holds for this decoder.
    spec fn parse(&self, buf: Seq<u8>) -> Parsed<<Self::Item as View>::V>;

    /// Takes the next frame off `buf`. A frame leaves with its bytes; while the
    /// frame is incomplete, and on bytes that begin no frame, the buffer stays
    /// as it was. The decoder itself keeps no state.
    fn decode(&mut self, buf: &mut BytesMut) -> (r: Result<Option<Self::Item>, ProtocolError>)
        ensures
            decoded(
                old(self).parse(buffer::buffered(*old(buf))),
                buffer::buffered(*old(buf)),
                buffer::buffered(*final(buf)),
                r,
            ),
            *final(self) == *old(self),
    ;

    /// This decoder with an empty read buffer in front of it.
    fn framed(self) -> (framed: Framed<Self>)
        ensures
            framed.codec() == self,
            framed.pending() == Seq::<u8>::empty(),
    ;
}

/// Writes frames at the end of a byte buffer.
pub trait Encoder<Item: View> {
    /// The items that can be written.
    spec fn encodable(item: Item::V) -> bool;

    /// The bytes an item is written as.
    spec fn encoding(item: Item::V) -> Seq<u8>;

    /// Appends the bytes of `item` to `dst`.
    fn encode(&mut self, item: Item, dst: &mut BytesMut) -> (r: Result<(), ProtocolError>)
        requires
            Self::encodable(item@),
        ensures
            r is Ok,
            buffer::buffered(*final(dst)) == buffer::buffered(*old(dst)) + Self::encoding(item@),
    ;
}

/// What a framed stream does next.
pub enum Next<T> {
    /// A frame is ready.
    Frame(T),
    /// More bytes are needed: read from the transport and hand them to
    /// `poll_read`.
    Read,
    /// The stream is over: the transport is at its end, or the bytes are not
    /// frames.
    End,
}

/// A decoder together with the bytes that have been read and not yet decoded.
pub struct Framed<U> {
    codec: U,
    read: BytesMut,
}

impl<U> Framed<U> {
    /// The decoder.
    pub closed spec fn codec(&self) -> U {
        self.codec
    }

    /// The bytes that have been read and not yet decoded.
    pub closed spec fn pending(&self) -> Seq<u8> {
        buffer::buffered(self.read)
    }

    pub fn new(codec: U) -> (framed: Framed<U>)
        ensures
            framed.codec() == codec,
            framed.pending() == Seq::<u8>::empty(),
    {
        Framed { codec, read: buffer::empty() }
    }
}

impl<U: Decoder> Framed<U> {
    /// Whether `next` and the bytes `after` are what follows from finding
    /// `parsed` at the head of `before`.
    pub open spec fn stepped(
        parsed: Parsed<<U::Item as View>::V>,
        before: Seq<u8>,
        after: Seq<u8>,
        next: Next<U::Item>,
    ) -> bool {
        match parsed {
            Parsed::Frame { frame, consumed } => next matches Next::Frame(item) && item@ == frame
                && consumed <= before.len() && after == before.skip(consumed as int),
            Parsed::Incomplete => next is Read && after == before,
            Parsed::Invalid(_) => next is End && after == before,
        }
    }

    /// Looks for a frame among the bytes already read.
    pub fn poll_buffered(&mut self) -> (next: Next<U::Item>)
        ensures
            final(self).codec() == old(self).codec(),
            Self::stepped(
                old(self).codec().parse(old(self).pending()),
                old(self).pending(),
                final(self).pending(),
                next,
            ),
    {
        match self.codec.decode(&mut self.read) {
            Ok(Some(frame)) => Next::Frame(frame),
            Ok(None) => Next::Read,
            Err(_) => Next::End,
        }
    }

    /// Takes in what one read of the transport gave. No bytes mean that the
    /// transport is at its end; otherwise the bytes join those already read and
    /// a frame is looked for.
    pub fn poll_read(&mut self, filled: &[u8]) -> (next: Next<U::Item>)
        ensures
            final(self).codec() == old(self).codec(),
            filled@.len() == 0 ==> next is End && final(self).pending() == old(self).pending(),
            filled@.len() > 0 ==> Self::stepped(
                old(self).codec().parse(old(self).pending() + filled@),
                old(self).pending() + filled@,
                final(self).pending(),
                next,
            ),
    {
        if filled.len() == 0 {
            return Next::End;
        }
        buffer::extend(&mut self.read, filled);
        self.poll_buffered()
    }
}

} // verus!
