//! One peer session: the handshake gate and the frame pump between a peer's
//! socket and the coordinator.
//!
//! The session owns no socket. Whoever drives it writes the handshake that
//! `connect` gives, hands over the bytes it reads with `received`, asks `next`
//! for what they amount to, and passes outbound messages through `outbound`.
//! Every answer is a `Step` that says what to do.

use crate::buffer;
use crate::codec::Decoder;
use crate::connection::Frame;
use crate::error::Error;
use crate::error::ProtocolError;
use crate::peer_codec::Data;
use crate::codec::Parsed;
use crate::peer_codec::DataView;
use crate::peer_codec::FrameView;
use crate::peer_codec::Handshake;
use crate::peer_codec::HandshakeView;
use crate::peer_codec::PeerCodec;
use crate::peer_codec::PeerFrame;
use crate::peer_message::PeerMessage;
use crate::peer_message::PeerMessageType;
use crate::peer_message::PeerMessageView;
use crate::stream;
use crate::wire;
use crate::PeerAddr;
use bytes::BytesMut;
use vstd::prelude::*;

verus! {

/// Seconds to wait for a TCP connection to a peer.
pub const CONNECT_TIMEOUT_SECS: u64 = 5;

impl Frame for PeerFrame {
    /// The handshake shape is tried first, the data shape where that gives no
    /// frame; whatever is no whole frame reads as nothing.
    open spec fn parse(bytes: Seq<u8>) -> Option<(FrameView, nat)> {
        match HandshakeView::parse(bytes) {
            Parsed::Frame { frame, consumed } => Some((FrameView::Handshake(frame), consumed)),
            _ => match DataView::parse(bytes) {
                Parsed::Frame { frame, consumed } => Some((FrameView::Data(frame), consumed)),
                _ => None,
            },
        }
    }

    open spec fn encodable(frame: FrameView) -> bool {
        frame.fits()
    }

    open spec fn encoding(frame: FrameView) -> Seq<u8> {
        frame.encoding()
    }

    fn from_bytes(bytes: &[u8]) -> (r: Option<(PeerFrame, usize)>) {
        match Handshake::from_bytes(bytes) {
            Ok(Some((handshake, size))) => Some((PeerFrame::Handshake(handshake), size)),
            _ => match Data::from_bytes(bytes) {
                Ok(Some((data, size))) => Some((PeerFrame::Data(data), size)),
                _ => None,
            },
        }
    }

    fn to_bytes(&self) -> (bytes: Vec<u8>) {
        self.encode()
    }
}

/// How far a session has come.
#[derive(Debug, Clone, Copy, PartialEq, Eq, Structural)]
pub enum Phase {
    /// Our handshake is out; the peer's is due.
    AwaitingHandshake,
    /// Handshakes are exchanged; data frames flow.
    Pumping,
    /// The session is over.
    Closed,
}

/// What the driver of a session is to do next.
#[derive(Debug)]
pub enum Step {
    /// Nothing: read from the socket, or wait for an outbound message.
    Idle,
    /// The peer's handshake is in and matches: register the peer.
    Registered,
    /// A keep-alive arrived: nothing to pass on.
    KeepAlive,
    /// Pass this message to the coordinator.
    Forward(PeerMessage),
    /// Write these bytes to the socket.
    Write(Vec<u8>),
    /// The session cannot send this message now; it is handed back.
    Held(PeerMessage),
    /// The session is over: pass `cancel` to the coordinator, unregister the
    /// peer and drop the socket.
    Closed { cancel: PeerMessage, error: Error },
}

/// A `Step` as plain values.
pub enum StepView {
    Idle,
    Registered,
    KeepAlive,
    Forward(PeerMessageView),
    Write(Seq<u8>),
    Held(PeerMessageView),
    Closed { cancel: PeerMessageView, error: Error },
}

impl View for Step {
    type V = StepView;

    open spec fn view(&self) -> StepView {
        match self {
            Step::Idle => StepView::Idle,
            Step::Registered => StepView::Registered,
            Step::KeepAlive => StepView::KeepAlive,
            Step::Forward(message) => StepView::Forward(message@),
            Step::Write(bytes) => StepView::Write(bytes@),
            Step::Held(message) => StepView::Held(message@),
            Step::Closed { cancel, error } => StepView::Closed { cancel: cancel@, error: *error },
        }
    }
}

/// One peer session.
#[derive(Debug)]
pub struct PeerConnection {
    addr: PeerAddr,
    info_hash: Vec<u8>,
    peer_id: Vec<u8>,
    remote_peer_id: Vec<u8>,
    phase: Phase,
    read: BytesMut,
}

/// A `PeerConnection` as plain values.
pub struct PeerConnectionView {
    /// The peer's address.
    pub addr: PeerAddr,
    /// The torrent that the session is about.
    pub info_hash: Seq<u8>,
    /// Our own peer id.
    pub peer_id: Seq<u8>,
    /// The peer id that the peer gave in its handshake; empty before.
    pub remote_peer_id: Seq<u8>,
    pub phase: Phase,
    /// The bytes that have arrived and have not been decoded.
    pub pending: Seq<u8>,
}

impl View for PeerConnection {
    type V = PeerConnectionView;

    closed spec fn view(&self) -> PeerConnectionView {
        PeerConnectionView {
            addr: self.addr,
            info_hash: self.info_hash@,
            peer_id: self.peer_id@,
            remote_peer_id: self.remote_peer_id@,
            phase: self.phase,
            pending: buffer::buffered(self.read),
        }
    }
}

impl PeerConnectionView {
    /// A session that has sent its handshake and received nothing.
    pub open spec fn opened(addr: PeerAddr, peer_id: Seq<u8>, info_hash: Seq<u8>) -> PeerConnectionView {
        PeerConnectionView {
            addr,
            info_hash,
            peer_id,
            remote_peer_id: Seq::empty(),
            phase: Phase::AwaitingHandshake,
            pending: Seq::empty(),
        }
    }

    /// The handshake that we send.
    pub open spec fn local_handshake(self) -> HandshakeView {
        HandshakeView {
            pstr: crate::peer_codec::protocol_name(),
            info_hash: self.info_hash,
            peer_id: self.peer_id,
        }
    }

    /// The message that tells the coordinator that this session is over.
    pub open spec fn cancel_frame(self) -> PeerMessageView {
        PeerMessageView {
            message_type: PeerMessageType::Cancel,
            payload: Seq::empty(),
            addr: self.addr,
        }
    }

    /// The session, over.
    pub open spec fn closed(self) -> PeerConnectionView {
        PeerConnectionView { phase: Phase::Closed, ..self }
    }

    /// The session with the first `consumed` pending bytes gone.
    pub open spec fn advanced(self, consumed: nat) -> PeerConnectionView {
        PeerConnectionView { pending: self.pending.skip(consumed as int), ..self }
    }

    /// The step that ends the session for `error`.
    pub open spec fn failure(self, error: Error) -> StepView {
        StepView::Closed { cancel: self.cancel_frame(), error }
    }

    /// What the head of `buf` holds once handshakes are exchanged: a data
    /// frame as the data decoder reads it, except that a whole handshake, for
    /// which the data decoder would wait on, is an error.
    pub open spec fn pump_parse(buf: Seq<u8>) -> Parsed<DataView> {
        match DataView::parse(buf) {
            Parsed::Incomplete => if HandshakeView::parse(buf) is Frame {
                Parsed::Invalid(ProtocolError::UnexpectedHandshake)
            } else {
                Parsed::Incomplete
            },
            other => other,
        }
    }

    /// The message that a data frame is passed on as.
    pub open spec fn forwarded(self, frame: DataView) -> PeerMessageView {
        PeerMessageView {
            message_type: PeerMessageType::of_code(frame.message_id)->0,
            payload: frame.payload,
            addr: self.addr,
        }
    }

    /// What the pending bytes amount to, and the session after it.
    ///
    /// While the handshake is due, the first frame must be a handshake for our
    /// torrent; it registers the peer. Bytes that are no frame yet and cannot
    /// begin a handshake end the session as a malformed handshake. After that, data frames are passed on,
    /// keep-alives are dropped, and anything that is no data frame ends the
    /// session. A session that is over stays over.
    pub open spec fn next(self) -> (PeerConnectionView, StepView) {
        match self.phase {
            Phase::Closed => (self, StepView::Idle),
            Phase::AwaitingHandshake => match FrameView::parse(self.pending) {
                Parsed::Incomplete => match HandshakeView::parse(self.pending) {
                    Parsed::Invalid(e) => (self.closed(), self.failure(Error::Protocol(e))),
                    _ => (self, StepView::Idle),
                },
                Parsed::Invalid(e) => (self.closed(), self.failure(Error::Protocol(e))),
                Parsed::Frame { frame, consumed } => match frame {
                    FrameView::Data(_) => (
                        self.advanced(consumed).closed(),
                        self.failure(Error::Protocol(ProtocolError::MissingHandshake)),
                    ),
                    FrameView::Handshake(handshake) => if handshake.info_hash != self.info_hash {
                        (
                            self.advanced(consumed).closed(),
                            self.failure(Error::Protocol(ProtocolError::InfoHashMismatch)),
                        )
                    } else {
                        (
                            PeerConnectionView {
                                phase: Phase::Pumping,
                                remote_peer_id: handshake.peer_id,
                                ..self.advanced(consumed)
                            },
                            StepView::Registered,
                        )
                    },
                },
            },
            Phase::Pumping => match Self::pump_parse(self.pending) {
                Parsed::Incomplete => (self, StepView::Idle),
                Parsed::Invalid(e) => (self.closed(), self.failure(Error::Protocol(e))),
                Parsed::Frame { frame, consumed } => if consumed == 4 {
                    (self.advanced(consumed), StepView::KeepAlive)
                } else {
                    (self.advanced(consumed), StepView::Forward(self.forwarded(frame)))
                },
            },
        }
    }

    /// What all the pending bytes amount to: the steps that `next` gives one
    /// after the other, until it has nothing more to give or the session is
    /// over. Every step that is passed takes bytes off the pending ones, so
    /// the steps come to an end.
    pub open spec fn handled(self) -> (PeerConnectionView, Seq<StepView>)
        decreases self.pending.len(),
    {
        let (after, step) = self.next();
        if step is Idle {
            (after, Seq::empty())
        } else if step is Closed || after.pending.len() >= self.pending.len() {
            (after, seq![step])
        } else {
            (after.handled().0, seq![step] + after.handled().1)
        }
    }

    /// What the arrival of `bytes` from the socket does. No bytes mean that
    /// the peer has closed the connection.
    pub open spec fn received(self, bytes: Seq<u8>) -> (PeerConnectionView, StepView) {
        if self.phase == Phase::Closed {
            (self, StepView::Idle)
        } else if bytes.len() == 0 {
            (self.closed(), self.failure(Error::Transport))
        } else {
            (PeerConnectionView { pending: self.pending + bytes, ..self }, StepView::Idle)
        }
    }

    /// What the end of the session's resources does: the socket failed, a
    /// timer ran out, or the session was told to stop.
    pub open spec fn ended(self, cause: Error) -> (PeerConnectionView, StepView) {
        if self.phase == Phase::Closed {
            (self, StepView::Idle)
        } else {
            (self.closed(), self.failure(cause))
        }
    }

    /// Whether a transition from `before` ends the session at most once: a
    /// closing step starts from a session that was open, leaves it closed and
    /// carries its cancel message; a closed session stays as it is and
    /// answers `Idle` or `Held`.
    pub open spec fn ends_once(
        before: PeerConnectionView,
        taken: (PeerConnectionView, StepView),
    ) -> bool {
        &&& taken.1 is Closed ==> before.phase != Phase::Closed && taken.0.phase == Phase::Closed
            && taken.1->cancel == before.cancel_frame()
        &&& before.phase == Phase::Closed ==> taken.0 == before && (taken.1 is Idle
            || taken.1 is Held)
    }

    /// The data frame that an outbound message is sent as.
    pub open spec fn outbound_frame(message: PeerMessageView) -> DataView {
        DataView { message_id: message.message_type.code(), payload: message.payload }
    }

    /// What a message from the coordinator does, or, with `None`, the loss of
    /// the channel it would have come through.
    pub open spec fn outbound(self, message: Option<PeerMessageView>) -> (
        PeerConnectionView,
        StepView,
    ) {
        match message {
            None => self.ended(Error::ChannelClosed),
            Some(message) => if self.phase == Phase::Pumping {
                (self, StepView::Write(Self::outbound_frame(message).encoding()))
            } else {
                (self, StepView::Held(message))
            },
        }
    }
}

impl PeerConnection {
    /// Opens a session with the peer at `addr`, and gives the handshake to send
    /// first.
    pub fn connect(addr: PeerAddr, peer_id: &[u8], info_hash: &[u8]) -> (opened: (
        PeerConnection,
        Vec<u8>,
    ))
        ensures
            opened.0@ == PeerConnectionView::opened(addr, peer_id@, info_hash@),
            opened.1@ == opened.0@.local_handshake().encoding(),
    {
        let handshake = Handshake {
            pstr: crate::peer_codec::protocol_bytes(),
            info_hash: wire::copy_bytes(info_hash),
            peer_id: wire::copy_bytes(peer_id),
        };
        let connection = PeerConnection {
            addr,
            info_hash: wire::copy_bytes(info_hash),
            peer_id: wire::copy_bytes(peer_id),
            remote_peer_id: Vec::new(),
            phase: Phase::AwaitingHandshake,
            read: buffer::empty(),
        };
        (connection, handshake.encode())
    }

    pub fn phase(&self) -> (phase: Phase)
        ensures
            phase == self@.phase,
    {
        self.phase
    }

    pub fn addr(&self) -> (addr: PeerAddr)
        ensures
            addr == self@.addr,
    {
        self.addr
    }

    /// The peer id that the peer gave in its handshake; empty before.
    pub fn remote_peer_id(&self) -> (peer_id: &Vec<u8>)
        ensures
            peer_id@ == self@.remote_peer_id,
    {
        &self.remote_peer_id
    }

    /// The message that tells the coordinator that this session is over.
    fn cancel(&self) -> (message: PeerMessage)
        ensures
            message@ == self@.cancel_frame(),
    {
        PeerMessage { message_type: PeerMessageType::Cancel, payload: Vec::new(), addr: self.addr }
    }

    /// Ends the session for `error`.
    fn fail(&mut self, error: Error) -> (step: Step)
        ensures
            final(self)@ == old(self)@.closed(),
            step@ == old(self)@.failure(error),
    {
        let cancel = self.cancel();
        self.phase = Phase::Closed;
        Step::Closed { cancel, error }
    }

    /// Takes in what a read of the socket gave.
    pub fn received(&mut self, bytes: &[u8]) -> (step: Step)
        ensures
            (final(self)@, step@) == old(self)@.received(bytes@),
    {
        if self.phase == Phase::Closed {
            Step::Idle
        } else if bytes.len() == 0 {
            self.fail(Error::Transport)
        } else {
            buffer::extend(&mut self.read, bytes);
            Step::Idle
        }
    }

    /// Takes note that the socket failed, a timer ran out, or the session was
    /// told to stop.
    pub fn ended(&mut self, cause: Error) -> (step: Step)
        ensures
            (final(self)@, step@) == old(self)@.ended(cause),
    {
        if self.phase == Phase::Closed {
            Step::Idle
        } else {
            self.fail(cause)
        }
    }

    /// Decodes the next frame from the bytes that have arrived and says what
    /// it amounts to.
    pub fn next(&mut self) -> (step: Step)
        ensures
            (final(self)@, step@) == old(self)@.next(),
    {
        match self.phase {
            Phase::Closed => Step::Idle,
            Phase::AwaitingHandshake => {
                let mut codec = PeerCodec::new();
                match codec.decode(&mut self.read) {
                    Ok(None) => match Handshake::from_bytes(buffer::contents(&self.read)) {
                        Err(e) => self.fail(Error::Protocol(e)),
                        _ => Step::Idle,
                    },
                    Err(e) => self.fail(Error::Protocol(e)),
                    Ok(Some(PeerFrame::Data(_))) => self.fail(
                        Error::Protocol(ProtocolError::MissingHandshake),
                    ),
                    Ok(Some(PeerFrame::Handshake(handshake))) => {
                        if !wire::same_bytes(
                            handshake.info_hash.as_slice(),
                            self.info_hash.as_slice(),
                        ) {
                            self.fail(Error::Protocol(ProtocolError::InfoHashMismatch))
                        } else {
                            self.remote_peer_id = handshake.peer_id;
                            self.phase = Phase::Pumping;
                            Step::Registered
                        }
                    },
                }
            },
            Phase::Pumping => {
                match Data::from_bytes(buffer::contents(&self.read)) {
                    Err(e) => self.fail(Error::Protocol(e)),
                    Ok(None) => {
                        match Handshake::from_bytes(buffer::contents(&self.read)) {
                            Ok(Some(_)) => self.fail(
                                Error::Protocol(ProtocolError::UnexpectedHandshake),
                            ),
                            _ => Step::Idle,
                        }
                    },
                    Ok(Some((data, consumed))) => {
                        buffer::advance(&mut self.read, consumed);
                        if consumed == 4 {
                            Step::KeepAlive
                        } else {
                            match PeerMessageType::from_u8(data.message_id) {
                                Some(message_type) => Step::Forward(
                                    PeerMessage {
                                        message_type,
                                        payload: data.payload,
                                        addr: self.addr,
                                    },
                                ),
                                None => {
                                    assert(false);
                                    Step::Idle
                                },
                            }
                        }
                    },
                }
            },
        }
    }

    /// Works off the bytes that have arrived: every frame that is whole is
    /// decoded and answered with its step, in order. The last step is `Closed`
    /// if the session ended on the way.
    pub fn handle_messages(&mut self) -> (steps: Vec<Step>)
        ensures
            (final(self)@, step_views(steps@)) == old(self)@.handled(),
    {
        let mut steps: Vec<Step> = Vec::new();
        loop
            invariant
                old(self)@.handled() == (self@.handled().0, step_views(steps@) + self@.handled().1),
            ensures
                (self@, step_views(steps@)) == old(self)@.handled(),
            decreases self@.pending.len(),
        {
            proof {
                lemma_steps_take_bytes(self@);
            }
            match self.next() {
                Step::Idle => {
                    break ;
                },
                Step::Closed { cancel, error } => {
                    steps.push(Step::Closed { cancel, error });
                    break ;
                },
                other => {
                    steps.push(other);
                },
            }
        }
        steps
    }

    /// Takes a message from the coordinator, or, with `None`, the news that
    /// the coordinator has dropped its end of the channel.
    pub fn outbound(&mut self, message: Option<PeerMessage>) -> (step: Step)
        requires
            message matches Some(m) ==> m.payload@.len() < 0xFFFF_FFFF,
        ensures
            (final(self)@, step@) == old(self)@.outbound(
                match message {
                    Some(m) => Some(m@),
                    None => None,
                },
            ),
    {
        match message {
            None => self.ended(Error::ChannelClosed),
            Some(message) => {
                if self.phase == Phase::Pumping {
                    let frame = Data {
                        message_id: message.message_type.raw_value(),
                        payload: message.payload,
                    };
                    Step::Write(frame.encode())
                } else {
                    Step::Held(message)
                }
            },
        }
    }
}

/// The steps of `steps` as plain values.
pub open spec fn step_views(steps: Seq<Step>) -> Seq<StepView> {
    steps.map_values(|step: Step| step@)
}

/// Every step of `next` that neither waits nor ends the session takes bytes
/// off the pending ones.
pub proof fn lemma_steps_take_bytes(session: PeerConnectionView)
    ensures
        !(session.next().1 is Idle) && !(session.next().1 is Closed) ==> session.next().0.pending.len()
            < session.pending.len(),
{
}

/// The decoder of a session that has exchanged handshakes, as a value.
pub open spec fn pump_parser() -> spec_fn(Seq<u8>) -> Parsed<DataView> {
    |buf: Seq<u8>| PeerConnectionView::pump_parse(buf)
}

/// A session that has exchanged handshakes reads every data frame with a
/// defined message code back as it was written, and waits through all of its
/// beginnings, however long the frame.
pub proof fn lemma_pump_frames_cleanly(data: DataView)
    requires
        data.message_id <= 9,
        data.fits(),
    ensures
        stream::frames_cleanly(pump_parser(), data.encoding(), data),
{
    stream::lemma_data_round_trip(data, Seq::empty());
}

/// Two data frames sent one after the other, arriving byte by byte at a
/// session that has exchanged handshakes, come out as those two frames in
/// order, whatever their lengths.
pub proof fn lemma_pump_two_frames_in_order(first: DataView, second: DataView)
    requires
        first.message_id <= 9,
        first.fits(),
        second.message_id <= 9,
        second.fits(),
    ensures
        stream::fed(pump_parser(), Seq::empty(), first.encoding() + second.encoding()) == Some(
            seq![first, second],
        ),
{
    lemma_pump_frames_cleanly(first);
    lemma_pump_frames_cleanly(second);
    stream::lemma_fed_two(pump_parser(), first.encoding(), first, second.encoding(), second);
}

/// A session that awaits the handshake waits while the peer's handshake is
/// arriving, and once all of a handshake for our torrent is in, it registers
/// the peer, records the peer's id, keeps what followed the handshake, and
/// goes on to pump data frames.
pub proof fn lemma_handshake_opens_the_pump(
    session: PeerConnectionView,
    handshake: HandshakeView,
    rest: Seq<u8>,
    j: int,
)
    requires
        session.phase == Phase::AwaitingHandshake,
        handshake.well_formed(),
        handshake.info_hash == session.info_hash,
        0 <= j < 68,
        64 + rest.len() < stream::handshake_as_length(),
    ensures
        (PeerConnectionView { pending: handshake.encoding().take(j), ..session }).next() == (
            PeerConnectionView { pending: handshake.encoding().take(j), ..session },
            StepView::Idle,
        ),
        (PeerConnectionView { pending: handshake.encoding() + rest, ..session }).next() == (
            PeerConnectionView {
                pending: rest,
                phase: Phase::Pumping,
                remote_peer_id: handshake.peer_id,
                ..session
            },
            StepView::Registered,
        ),
{
    stream::lemma_handshake_round_trip(handshake, rest);
    assert((handshake.encoding() + rest).skip(68) =~= rest);
}

/// A keep-alive at the head of a pumping session's bytes is taken off and
/// passed to nobody: the session is as before, four bytes on.
pub proof fn lemma_keep_alive_changes_nothing(session: PeerConnectionView)
    requires
        session.phase == Phase::Pumping,
        session.pending.len() >= 4,
        wire::be32(session.pending) == 0,
    ensures
        session.next() == (session.advanced(4), StepView::KeepAlive),
{
}

/// A session ends once. Whatever ends it, the step that does so carries the
/// cancel message for the coordinator and leaves the session closed; and a
/// closed session takes no further step but `Idle` and `Held`, and stays as
/// it is.
pub proof fn lemma_session_ends_once(
    session: PeerConnectionView,
    bytes: Seq<u8>,
    cause: Error,
    message: Option<PeerMessageView>,
)
    ensures
        session.phase != Phase::Closed ==> session.received(Seq::empty()) == (
            session.closed(),
            session.failure(Error::Transport),
        ),
        session.phase != Phase::Closed ==> session.ended(cause) == (
            session.closed(),
            session.failure(cause),
        ),
        session.phase != Phase::Closed ==> session.outbound(None) == (
            session.closed(),
            session.failure(Error::ChannelClosed),
        ),
        PeerConnectionView::ends_once(session, session.next()),
        PeerConnectionView::ends_once(session, session.received(bytes)),
        PeerConnectionView::ends_once(session, session.ended(cause)),
        PeerConnectionView::ends_once(session, session.outbound(message)),
{
}

/// No data frame is passed on or sent before the handshakes are exchanged:
/// a step that forwards a message to the coordinator, and a step that writes
/// a message to the socket, come from a session that is pumping.
pub proof fn lemma_handshake_comes_first(
    session: PeerConnectionView,
    message: Option<PeerMessageView>,
)
    ensures
        session.next().1 is Forward ==> session.phase == Phase::Pumping,
        session.outbound(message).1 is Write ==> session.phase == Phase::Pumping,
        session.next().1 is Registered ==> session.phase == Phase::AwaitingHandshake
            && session.next().0.phase == Phase::Pumping,
{
}

} // verus!
