//! What the wire format guarantees: a frame is read back as it was written,
//! no beginning of a frame is mistaken for a frame, and frames that arrive
//! piecemeal come out whole and in order.

use crate::codec::Parsed;
use crate::peer_codec::DataView;
use crate::peer_codec::FrameView;
use crate::peer_codec::HandshakeView;
use crate::wire;
use vstd::prelude::*;

verus! {

/// The frames that come out when `input` arrives one byte at a time behind the
/// bytes already in `buffer`, and the decoder `parse` is asked after every
/// byte. `None` when the decoder rejects the buffer at some point.
pub open spec fn fed<T>(
    parse: spec_fn(Seq<u8>) -> Parsed<T>,
    buffer: Seq<u8>,
    input: Seq<u8>,
) -> Option<Seq<T>>
    decreases input.len(),
{
    if input.len() == 0 {
        Some(Seq::empty())
    } else {
        let grown = buffer.push(input[0]);
        match parse(grown) {
            Parsed::Incomplete => fed(parse, grown, input.skip(1)),
            Parsed::Invalid(_) => None,
            Parsed::Frame { frame, consumed } => match fed(
                parse,
                grown.skip(consumed as int),
                input.skip(1),
            ) {
                Some(rest) => Some(seq![frame] + rest),
                None => None,
            },
        }
    }
}

/// The decoder of data frames, as a value.
pub open spec fn data_parser() -> spec_fn(Seq<u8>) -> Parsed<DataView> {
    |buf: Seq<u8>| DataView::parse(buf)
}

/// The decoder of a codec that takes either shape, as a value.
pub open spec fn frame_parser() -> spec_fn(Seq<u8>) -> Parsed<FrameView> {
    |buf: Seq<u8>| FrameView::parse(buf)
}

/// Whether `parse` reads `encoding` as `frame`, all of it, and takes none of
/// its beginnings for a frame or an error.
pub open spec fn frames_cleanly<T>(
    parse: spec_fn(Seq<u8>) -> Parsed<T>,
    encoding: Seq<u8>,
    frame: T,
) -> bool {
    &&& encoding.len() > 0
    &&& parse(encoding) == (Parsed::Frame { frame, consumed: encoding.len() })
    &&& forall|j: int| 0 < j < encoding.len() ==> #[trigger] parse(encoding.take(j)) is Incomplete
}

/// A frame that arrives byte by byte comes out once its last byte is in, and
/// what follows it is decoded from an empty buffer.
pub proof fn lemma_fed_one<T>(
    parse: spec_fn(Seq<u8>) -> Parsed<T>,
    encoding: Seq<u8>,
    frame: T,
    k: int,
    rest: Seq<u8>,
)
    requires
        frames_cleanly(parse, encoding, frame),
        0 <= k < encoding.len(),
    ensures
        fed(parse, encoding.take(k), encoding.skip(k) + rest) == match fed(
            parse,
            Seq::empty(),
            rest,
        ) {
            Some(more) => Some(seq![frame] + more),
            None => None,
        },
    decreases encoding.len() - k,
{
    let input = encoding.skip(k) + rest;
    let grown = encoding.take(k).push(input[0]);
    assert(grown =~= encoding.take(k + 1));
    assert(input.skip(1) =~= encoding.skip(k + 1) + rest);
    if k + 1 < encoding.len() {
        lemma_fed_one(parse, encoding, frame, k + 1, rest);
    } else {
        assert(encoding.take(k + 1) =~= encoding);
        assert(grown.skip(encoding.len() as int) =~= Seq::<u8>::empty());
    }
}

/// Two frames written one after the other and fed byte by byte come out as
/// those two frames, in that order.
pub proof fn lemma_fed_two<T>(
    parse: spec_fn(Seq<u8>) -> Parsed<T>,
    first_encoding: Seq<u8>,
    first: T,
    second_encoding: Seq<u8>,
    second: T,
)
    requires
        frames_cleanly(parse, first_encoding, first),
        frames_cleanly(parse, second_encoding, second),
    ensures
        fed(parse, Seq::empty(), first_encoding + second_encoding) == Some(seq![first, second]),
{
    lemma_fed_one(parse, first_encoding, first, 0, second_encoding);
    lemma_fed_one(parse, second_encoding, second, 0, Seq::empty());
    assert(first_encoding.take(0) =~= Seq::<u8>::empty());
    assert(second_encoding.take(0) =~= Seq::<u8>::empty());
    assert(first_encoding.skip(0) + second_encoding =~= first_encoding + second_encoding);
    assert(second_encoding.skip(0) + Seq::<u8>::empty() =~= second_encoding);
}

/// A well-formed handshake takes 68 bytes, and is read back from them as it
/// was written, whatever follows.
pub proof fn lemma_handshake_round_trip(handshake: HandshakeView, rest: Seq<u8>)
    requires
        handshake.well_formed(),
    ensures
        handshake.encoding().len() == 68,
        HandshakeView::parse(handshake.encoding() + rest) == (Parsed::Frame {
            frame: handshake,
            consumed: 68,
        }),
{
    let buf = handshake.encoding() + rest;
    assert(buf.subrange(1, 20) =~= handshake.pstr);
    assert(buf.subrange(28, 48) =~= handshake.info_hash);
    assert(buf.subrange(48, 68) =~= handshake.peer_id);
}

/// A data frame with a defined message code is read back as it was written,
/// whatever its payload and whatever follows.
pub proof fn lemma_data_round_trip(data: DataView, rest: Seq<u8>)
    requires
        data.message_id <= 9,
        data.fits(),
    ensures
        data.encoding().len() == 5 + data.payload.len(),
        DataView::parse(data.encoding() + rest) == (Parsed::Frame {
            frame: data,
            consumed: data.encoding().len(),
        }),
{
    let n = 1 + data.payload.len() as int;
    let buf = data.encoding() + rest;
    assert(buf.subrange(5, 4 + n) =~= data.payload);
}

/// No proper beginning of a data frame is a frame or an error: the decoder
/// waits for the rest.
pub proof fn lemma_data_prefix_incomplete(data: DataView, j: int)
    requires
        data.fits(),
        0 <= j < data.encoding().len(),
    ensures
        DataView::parse(data.encoding().take(j)) is Incomplete,
{
}

/// The number that the first four bytes of a handshake spell when they are
/// read as the length prefix of a data frame.
pub open spec fn handshake_as_length() -> int {
    0x1342_6974
}

/// Read as a data frame, a handshake and all its beginnings are incomplete,
/// as long as fewer bytes follow than its first four bytes would announce.
pub proof fn lemma_handshake_is_no_data(handshake: HandshakeView, rest: Seq<u8>, j: int)
    requires
        handshake.well_formed(),
        0 <= j <= 68 + rest.len(),
        j - 4 < handshake_as_length(),
    ensures
        DataView::parse((handshake.encoding() + rest).take(j)) is Incomplete,
{
}

/// No beginning of a data frame with a defined message code, and no such
/// frame with whatever follows it, reads as a handshake.
pub proof fn lemma_data_is_no_handshake(data: DataView, rest: Seq<u8>, j: int)
    requires
        data.message_id <= 9,
        data.fits(),
        0 <= j <= data.encoding().len() + rest.len(),
    ensures
        !(HandshakeView::parse((data.encoding() + rest).take(j)) is Frame),
{
}

/// A codec that takes either shape reads a well-formed frame back as it was
/// written.
pub proof fn lemma_frame_round_trip(frame: FrameView)
    requires
        frame.well_formed(),
    ensures
        FrameView::parse(frame.encoding()) == (Parsed::Frame {
            frame,
            consumed: frame.encoding().len(),
        }),
{
    match frame {
        FrameView::Handshake(handshake) => {
            lemma_handshake_round_trip(handshake, Seq::empty());
        },
        FrameView::Data(data) => {
            lemma_data_round_trip(data, Seq::empty());
        },
    }
}

/// A handshake one byte short is incomplete for every decoder here, and with
/// its 68th byte it is one frame.
pub proof fn lemma_handshake_boundary(handshake: HandshakeView)
    requires
        handshake.well_formed(),
    ensures
        HandshakeView::parse(handshake.encoding().take(67)) is Incomplete,
        FrameView::parse(handshake.encoding().take(67)) is Incomplete,
        FrameView::parse(handshake.encoding()) == (Parsed::Frame {
            frame: FrameView::Handshake(handshake),
            consumed: 68,
        }),
{
    lemma_frame_round_trip(FrameView::Handshake(handshake));
}

/// The data decoder reads every frame it can write cleanly.
pub proof fn lemma_data_frames_cleanly(data: DataView)
    requires
        data.message_id <= 9,
        data.fits(),
    ensures
        frames_cleanly(data_parser(), data.encoding(), data),
{
    lemma_data_round_trip(data, Seq::empty());
}

/// A codec that takes either shape reads every well-formed frame back as it
/// was written, and waits through all of its beginnings, however long the
/// frame.
pub proof fn lemma_frames_cleanly(frame: FrameView)
    requires
        frame.well_formed(),
    ensures
        frames_cleanly(frame_parser(), frame.encoding(), frame),
{
    lemma_frame_round_trip(frame);
    match frame {
        FrameView::Handshake(handshake) => {
            lemma_handshake_round_trip(handshake, Seq::empty());
            assert forall|j: int| 0 < j < frame.encoding().len() implies #[trigger] frame_parser()(
                frame.encoding().take(j),
            ) is Incomplete by {
                assert(handshake.encoding() + Seq::<u8>::empty() =~= handshake.encoding());
                lemma_handshake_is_no_data(handshake, Seq::empty(), j);
            }
        },
        FrameView::Data(data) => {
            assert forall|j: int| 0 < j < frame.encoding().len() implies #[trigger] frame_parser()(
                frame.encoding().take(j),
            ) is Incomplete by {
                assert(data.encoding() + Seq::<u8>::empty() =~= data.encoding());
                lemma_data_prefix_incomplete(data, j);
                lemma_data_is_no_handshake(data, Seq::empty(), j);
            }
        },
    }
}

/// Two data frames sent one after the other, arriving byte by byte at the
/// data decoder, come out as those two frames in order.
pub proof fn lemma_two_data_frames_in_order(first: DataView, second: DataView)
    requires
        first.message_id <= 9,
        first.fits(),
        second.message_id <= 9,
        second.fits(),
    ensures
        fed(data_parser(), Seq::empty(), first.encoding() + second.encoding()) == Some(
            seq![first, second],
        ),
{
    lemma_data_frames_cleanly(first);
    lemma_data_frames_cleanly(second);
    lemma_fed_two(data_parser(), first.encoding(), first, second.encoding(), second);
}

/// Two frames of either shape sent one after the other and arriving byte by
/// byte at a codec that takes either shape come out as those two frames in
/// order, whatever their lengths.
pub proof fn lemma_two_frames_in_order(first: FrameView, second: FrameView)
    requires
        first.well_formed(),
        second.well_formed(),
    ensures
        fed(frame_parser(), Seq::empty(), first.encoding() + second.encoding()) == Some(
            seq![first, second],
        ),
{
    lemma_frames_cleanly(first);
    lemma_frames_cleanly(second);
    lemma_fed_two(frame_parser(), first.encoding(), first, second.encoding(), second);
}

} // verus!
