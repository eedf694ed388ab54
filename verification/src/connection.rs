//! Frames over a connection: what a frame type must offer, and the buffer
//! that collects what has been read until whole frames can be taken from it.

use crate::error::Error;
use crate::wire;
use vstd::prelude::*;
use vstd::slice::slice_subrange;

verus! {

/// A message that is read from and written to a byte stream.
pub trait Frame: Sized + View {
    /// The frame at the head of `bytes` and the number of bytes it takes, or
    /// `None` where no whole frame is there.
    spec fn parse(bytes: Seq<u8>) -> Option<(Self::V, nat)>;

    /// Whether the frame can be written.
    spec fn encodable(frame: Self::V) -> bool;

    /// The bytes a frame is written as.
    spec fn encoding(frame: Self::V) -> Seq<u8>;

    /// Reads the frame at the head of `bytes`. A frame takes at least one byte
    /// and no more than there are.
    fn from_bytes(bytes: &[u8]) -> (r: Option<(Self, usize)>)
        ensures
            match Self::parse(bytes@) {
                Some((frame, consumed)) => r matches Some(pair) && pair.0@ == frame && pair.1
                    == consumed && 0 < consumed <= bytes@.len(),
                None => r is None,
            },
    ;

    fn to_bytes(&self) -> (bytes: Vec<u8>)
        requires
            Self::encodable(self@),
        ensures
            bytes@ == Self::encoding(self@),
    ;
}

/// The frames at the head of `bytes`, one after the other, as far as whole
/// frames go.
pub open spec fn leading_frames<T: Frame>(bytes: Seq<u8>) -> Seq<T::V>
    decreases bytes.len(),
{
    match T::parse(bytes) {
        Some((frame, consumed)) => if 0 < consumed <= bytes.len() {
            seq![frame] + leading_frames::<T>(bytes.skip(consumed as int))
        } else {
            Seq::empty()
        },
        None => Seq::empty(),
    }
}

/// What is left of `bytes` behind its leading frames.
pub open spec fn trailing_bytes<T: Frame>(bytes: Seq<u8>) -> Seq<u8>
    decreases bytes.len(),
{
    match T::parse(bytes) {
        Some((frame, consumed)) => if 0 < consumed <= bytes.len() {
            trailing_bytes::<T>(bytes.skip(consumed as int))
        } else {
            bytes
        },
        None => bytes,
    }
}

/// The encodings of `frames`, one after the other.
pub open spec fn encodings<T: Frame>(frames: Seq<T>) -> Seq<u8>
    decreases frames.len(),
{
    if frames.len() == 0 {
        Seq::empty()
    } else {
        encodings::<T>(frames.drop_last()) + T::encoding(frames.last()@)
    }
}

/// The views of `frames`.
pub open spec fn views<T: View>(frames: Seq<T>) -> Seq<T::V> {
    frames.map_values(|frame: T| frame@)
}

/// The reading side of a connection: the bytes that have arrived and have not
/// yet made a whole frame.
#[derive(Debug)]
pub struct TcpConnection {
    read_buf: Vec<u8>,
}

impl View for TcpConnection {
    type V = Seq<u8>;

    closed spec fn view(&self) -> Seq<u8> {
        self.read_buf@
    }
}

impl TcpConnection {
    /// A connection on which nothing has arrived.
    pub fn establish() -> (connection: TcpConnection)
        ensures
            connection@ == Seq::<u8>::empty(),
    {
        TcpConnection { read_buf: Vec::new() }
    }

    /// Takes every whole frame off the head of the buffer.
    fn take_frames<T: Frame>(&mut self) -> (frames: Vec<T>)
        ensures
            views(frames@) == leading_frames::<T>(old(self)@),
            final(self)@ == trailing_bytes::<T>(old(self)@),
    {
        let mut frames: Vec<T> = Vec::new();
        let mut start: usize = 0;
        assert(self@.skip(0) =~= self@);
        loop
            invariant
                start <= self.read_buf@.len(),
                self@ == old(self)@,
                leading_frames::<T>(old(self)@) == views(frames@) + leading_frames::<T>(
                    self@.skip(start as int),
                ),
                trailing_bytes::<T>(old(self)@) == trailing_bytes::<T>(self@.skip(start as int)),
            ensures
                start <= self.read_buf@.len(),
                self@ == old(self)@,
                leading_frames::<T>(old(self)@) == views(frames@),
                trailing_bytes::<T>(old(self)@) == self@.skip(start as int),
            decreases self.read_buf@.len() - start,
        {
            let rest = slice_subrange(self.read_buf.as_slice(), start, self.read_buf.len());
            match T::from_bytes(rest) {
                Some((frame, len)) => {
                    assert(self@.skip(start as int).skip(len as int) =~= self@.skip(start + len));
                    frames.push(frame);
                    start += len;
                },
                None => {
                    break ;
                },
            }
        }
        let rest = wire::copy_bytes(
            slice_subrange(self.read_buf.as_slice(), start, self.read_buf.len()),
        );
        self.read_buf = rest;
        frames
    }

    /// Takes in what one blocking read of the socket gave, and hands out the
    /// frames that are now whole. A read of no bytes means that the peer has
    /// closed the connection.
    pub fn read<T: Frame>(&mut self, received: &[u8]) -> (r: Result<Vec<T>, Error>)
        ensures
            received@.len() == 0 ==> r == Err::<Vec<T>, Error>(Error::Transport) && final(self)@
                == old(self)@,
            received@.len() > 0 ==> (r matches Ok(frames) && views(frames@) == leading_frames::<T>(
                old(self)@ + received@,
            ) && final(self)@ == trailing_bytes::<T>(old(self)@ + received@)),
    {
        if received.len() == 0 {
            return Err(Error::Transport);
        }
        wire::append_bytes(&mut self.read_buf, received);
        Ok(self.take_frames())
    }

    /// Takes in what one non-blocking read of the socket gave, if it gave
    /// anything, and hands out the frames that are whole. `None` stands for a
    /// read that would have blocked; a read of no bytes means that the peer
    /// has closed the connection.
    pub fn try_read<T: Frame>(&mut self, received: Option<&[u8]>) -> (r: Result<Vec<T>, Error>)
        ensures
            match received {
                None => r matches Ok(frames) && views(frames@) == leading_frames::<T>(old(self)@)
                    && final(self)@ == trailing_bytes::<T>(old(self)@),
                Some(bytes) => if bytes@.len() == 0 {
                    r == Err::<Vec<T>, Error>(Error::Transport) && final(self)@ == old(self)@
                } else {
                    r matches Ok(frames) && views(frames@) == leading_frames::<T>(
                        old(self)@ + bytes@,
                    ) && final(self)@ == trailing_bytes::<T>(old(self)@ + bytes@)
                },
            },
    {
        match received {
            None => Ok(self.take_frames()),
            Some(bytes) => self.read(bytes),
        }
    }

    /// The bytes to send for `frames`: their encodings, one after the other.
    pub fn write<T: Frame>(frames: &[T]) -> (bytes: Vec<u8>)
        requires
            forall|i: int| 0 <= i < frames@.len() ==> T::encodable(#[trigger] frames@[i]@),
        ensures
            bytes@ == encodings::<T>(frames@),
    {
        let mut bytes: Vec<u8> = Vec::new();
        let mut i: usize = 0;
        while i < frames.len()
            invariant
                i <= frames@.len(),
                forall|j: int| 0 <= j < frames@.len() ==> T::encodable(#[trigger] frames@[j]@),
                bytes@ == encodings::<T>(frames@.take(i as int)),
            decreases frames@.len() - i,
        {
            assert(frames@.take(i + 1).drop_last() =~= frames@.take(i as int));
            let encoded = frames[i].to_bytes();
            wire::append_bytes(&mut bytes, encoded.as_slice());
            i += 1;
        }
        assert(frames@.take(i as int) =~= frames@);
        bytes
    }
}

} // verus!
