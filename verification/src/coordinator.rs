//! The swarm coordinator: the registry of peers, the piece plan, and what one
//! inbound peer message does to them and sends out in return.
//!
//! The coordinator owns no socket and no channel. It is a function from its
//! state and one message to its next state and the frames to send; whoever
//! drives it delivers those frames to the peers they are addressed to.

use crate::peer_message::PeerMessage;
use crate::peer_message::PeerMessageType;
use crate::peer_message::PeerMessageView;
use crate::wire;
use crate::PeerAddr;
use vstd::prelude::*;

verus! {

/// The length of the block that a request asks for: 16 KiB.
pub const BLOCK_LENGTH: u32 = 16384;

/// The largest bitfield payload whose bits can all be numbered in 32 bits: the
/// plan that a first bitfield sets up has a piece for each bit.
pub const MAX_BITFIELD_BYTES: usize = 0x1FFF_FFFF;

#[derive(Debug, Clone, Copy, PartialEq, Eq, Structural)]
pub enum PieceStatus {
    Waiting,
    InProgress,
    Complete,
}

/// One piece of the torrent: its number, what has arrived of it, and how far
/// it is.
#[derive(Debug)]
pub struct Piece {
    pub index: u32,
    pub bytes: Vec<u8>,
    pub status: PieceStatus,
}

/// A `Piece` as plain values.
pub struct PieceView {
    pub index: u32,
    pub bytes: Seq<u8>,
    pub status: PieceStatus,
}

impl View for Piece {
    type V = PieceView;

    open spec fn view(&self) -> PieceView {
        PieceView { index: self.index, bytes: self.bytes@, status: self.status }
    }
}

impl PieceView {
    /// The piece as the plan first holds it.
    pub open spec fn fresh(index: int) -> PieceView {
        PieceView { index: index as u32, bytes: Seq::empty(), status: PieceStatus::Waiting }
    }

    /// The same piece, now being downloaded.
    pub open spec fn in_progress(self) -> PieceView {
        PieceView { status: PieceStatus::InProgress, ..self }
    }
}

/// The plan of the download: every piece, by its number.
#[derive(Debug)]
pub struct DownloadState {
    pub pieces: Vec<Piece>,
}

impl View for DownloadState {
    type V = Seq<PieceView>;

    open spec fn view(&self) -> Seq<PieceView> {
        self.pieces@.map_values(|piece: Piece| piece@)
    }
}

#[derive(Debug, Clone, Copy, PartialEq, Eq, Structural)]
pub enum PeerStatus {
    Waiting,
    Downloading,
    Disconnected,
}

/// What is known of one peer's stance and holdings.
#[derive(Debug)]
pub struct PeerState {
    /// Whether we have told the peer that we want its pieces.
    pub am_interested: bool,
    /// Whether the peer refuses to serve us.
    pub am_choked: bool,
    /// Whether the peer wants our pieces.
    pub interested: bool,
    /// Whether we refuse to serve the peer.
    pub choked: bool,
    /// For each piece number, whether the peer has that piece.
    pub bitfield: Vec<bool>,
}

/// A `PeerState` as plain values.
pub struct PeerStateView {
    pub am_interested: bool,
    pub am_choked: bool,
    pub interested: bool,
    pub choked: bool,
    pub bitfield: Seq<bool>,
}

impl View for PeerState {
    type V = PeerStateView;

    open spec fn view(&self) -> PeerStateView {
        PeerStateView {
            am_interested: self.am_interested,
            am_choked: self.am_choked,
            interested: self.interested,
            choked: self.choked,
            bitfield: self.bitfield@,
        }
    }
}

impl PeerStateView {
    /// A peer of which nothing is known yet: choked both ways, interested
    /// neither way, no bitfield.
    pub open spec fn initial() -> PeerStateView {
        PeerStateView {
            am_interested: false,
            am_choked: true,
            interested: false,
            choked: true,
            bitfield: Seq::empty(),
        }
    }

    /// Bit `i` of `byte`, counted from the most significant bit.
    pub open spec fn bit(byte: u8, i: int) -> bool {
        byte & (0x80u8 >> (i as u8)) != 0
    }

    /// The bits of `bytes`, eight per byte, the most significant bit of the
    /// first byte first.
    pub open spec fn bits(bytes: Seq<u8>) -> Seq<bool> {
        Seq::new(bytes.len() * 8, |i: int| Self::bit(bytes[i / 8], i % 8))
    }

    /// Whether the peer is known to have piece `index`.
    pub open spec fn has_piece(self, index: int) -> bool {
        0 <= index < self.bitfield.len() && self.bitfield[index]
    }

    /// The messages that can be applied to this state: a `Have` must name a
    /// piece that the bitfield covers.
    pub open spec fn accepts(self, kind: PeerMessageType, payload: Seq<u8>) -> bool {
        match kind {
            PeerMessageType::Have => payload.len() >= 4 && wire::be32(payload)
                < self.bitfield.len(),
            _ => true,
        }
    }

    /// The state after a message of `kind` with `payload` from the peer.
    pub open spec fn updated(self, kind: PeerMessageType, payload: Seq<u8>) -> PeerStateView {
        match kind {
            PeerMessageType::Choke => PeerStateView { am_choked: true, ..self },
            PeerMessageType::Unchoke => PeerStateView { am_choked: false, ..self },
            PeerMessageType::Interested => PeerStateView { interested: true, ..self },
            PeerMessageType::NotInterested => PeerStateView { interested: false, ..self },
            PeerMessageType::Have => PeerStateView {
                bitfield: self.bitfield.update(wire::be32(payload), true),
                ..self
            },
            PeerMessageType::Bitfield => PeerStateView { bitfield: Self::bits(payload), ..self },
            PeerMessageType::Request => self,
            PeerMessageType::Piece => self,
            PeerMessageType::Cancel => self,
            PeerMessageType::Port => self,
        }
    }
}

impl Default for PeerState {
    fn default() -> (state: PeerState)
        ensures
            state@ == PeerStateView::initial(),
    {
        PeerState {
            am_interested: false,
            am_choked: true,
            interested: false,
            choked: true,
            bitfield: Vec::new(),
        }
    }
}

impl PeerState {
    /// Applies one message from the peer.
    pub fn update(&mut self, message: &PeerMessage)
        requires
            old(self)@.accepts(message.message_type, message.payload@),
        ensures
            final(self)@ == old(self)@.updated(message.message_type, message.payload@),
    {
        match message.message_type {
            PeerMessageType::Choke => {
                self.am_choked = true;
            },
            PeerMessageType::Unchoke => {
                self.am_choked = false;
            },
            PeerMessageType::Interested => {
                self.interested = true;
            },
            PeerMessageType::NotInterested => {
                self.interested = false;
            },
            PeerMessageType::Have => {
                self.process_have(message.payload.as_slice());
            },
            PeerMessageType::Bitfield => {
                self.process_bitfield(message.payload.as_slice());
            },
            PeerMessageType::Request => {},
            PeerMessageType::Piece => {},
            PeerMessageType::Cancel => {},
            PeerMessageType::Port => {},
        }
    }

    /// Replaces the bitfield by the bits of `bytes`, most significant bit
    /// first within each byte.
    pub fn process_bitfield(&mut self, bytes: &[u8])
        ensures
            final(self)@ == (PeerStateView {
                bitfield: PeerStateView::bits(bytes@),
                ..old(self)@
            }),
    {
        let mut bits: Vec<bool> = Vec::new();
        let mut k: usize = 0;
        while k < bytes.len()
            invariant
                k <= bytes@.len(),
                bits@.len() == 8 * k,
                forall|j: int|
                    0 <= j < bits@.len() ==> bits@[j] == PeerStateView::bit(bytes@[j / 8], j % 8),
            decreases bytes@.len() - k,
        {
            let byte = bytes[k];
            let mut i: u8 = 0;
            while i < 8
                invariant
                    k < bytes@.len(),
                    byte == bytes@[k as int],
                    i <= 8,
                    bits@.len() == 8 * k + i,
                    forall|j: int|
                        0 <= j < bits@.len() ==> bits@[j] == PeerStateView::bit(
                            bytes@[j / 8],
                            j % 8,
                        ),
                decreases 8 - i,
            {
                let mask: u8 = 0x80u8 >> i;
                let bit = (byte & mask) != 0;
                bits.push(bit);
                i += 1;
            }
            k += 1;
        }
        assert(bits@ =~= PeerStateView::bits(bytes@));
        self.bitfield = bits;
    }

    /// Marks the piece whose number `bytes` begins with as held by the peer.
    pub fn process_have(&mut self, bytes: &[u8])
        requires
            bytes@.len() >= 4,
            wire::be32(bytes@) < old(self).bitfield@.len(),
        ensures
            final(self)@ == (PeerStateView {
                bitfield: old(self)@.bitfield.update(wire::be32(bytes@), true),
                ..old(self)@
            }),
    {
        let index = wire::read_u32(bytes);
        self.bitfield[index as usize] = true;
    }
}

/// One peer of the registry.
#[derive(Debug)]
pub struct Peer {
    pub addr: PeerAddr,
    pub state: PeerState,
    pub status: PeerStatus,
}

/// A `Peer` as plain values.
pub struct PeerView {
    pub addr: PeerAddr,
    pub state: PeerStateView,
    pub status: PeerStatus,
}

impl View for Peer {
    type V = PeerView;

    open spec fn view(&self) -> PeerView {
        PeerView { addr: self.addr, state: self.state@, status: self.status }
    }
}

/// The payload of a request for the first block of piece `index`: the piece
/// number, the offset zero and the block length, four bytes each.
pub open spec fn request_payload(index: int) -> Seq<u8> {
    wire::bytes32(index) + wire::bytes32(0) + wire::bytes32(BLOCK_LENGTH as int)
}

impl PeerView {
    /// A peer as it enters the registry.
    pub open spec fn fresh(addr: PeerAddr) -> PeerView {
        PeerView { addr, state: PeerStateView::initial(), status: PeerStatus::Waiting }
    }

    /// The peer after a message from it: a `Cancel` marks it disconnected,
    /// anything else goes to its state.
    pub open spec fn received(self, kind: PeerMessageType, payload: Seq<u8>) -> PeerView {
        if kind == PeerMessageType::Cancel {
            PeerView { status: PeerStatus::Disconnected, ..self }
        } else {
            PeerView { state: self.state.updated(kind, payload), ..self }
        }
    }

    /// Whether the peer is connected and willing to serve us.
    pub open spec fn unchoked(self) -> bool {
        self.status != PeerStatus::Disconnected && !self.state.am_choked
    }

    /// Whether the peer is to be told that we are interested.
    pub open spec fn wants_interest(self) -> bool {
        self.unchoked() && !self.state.am_interested
    }

    /// The peer once any interest due has been declared to it.
    pub open spec fn after_interest(self) -> PeerView {
        if self.wants_interest() {
            PeerView { state: PeerStateView { am_interested: true, ..self.state }, ..self }
        } else {
            self
        }
    }

    /// Whether the peer is to be asked for piece `index`.
    pub open spec fn can_take(self, index: int) -> bool {
        self.unchoked() && self.status == PeerStatus::Waiting && self.state.has_piece(index)
    }

    /// The peer once it has been asked for piece `index`, if it was to be.
    pub open spec fn after_selection(self, index: int) -> PeerView {
        if self.can_take(index) {
            PeerView { status: PeerStatus::Downloading, ..self }
        } else {
            self
        }
    }

    /// The frame that declares our interest to this peer.
    pub open spec fn interested_frame(self) -> PeerMessageView {
        PeerMessageView {
            message_type: PeerMessageType::Interested,
            payload: Seq::empty(),
            addr: self.addr,
        }
    }

    /// The frame that asks this peer for the first block of piece `index`.
    pub open spec fn request_frame(self, index: int) -> PeerMessageView {
        PeerMessageView {
            message_type: PeerMessageType::Request,
            payload: request_payload(index),
            addr: self.addr,
        }
    }
}

impl Peer {
    pub fn new(addr: PeerAddr) -> (peer: Peer)
        ensures
            peer@ == PeerView::fresh(addr),
    {
        Peer { addr, state: PeerState::default(), status: PeerStatus::Waiting }
    }

    /// Whether the peer is connected and willing to serve us.
    pub fn unchoked(&self) -> (b: bool)
        ensures
            b == self@.unchoked(),
    {
        self.status != PeerStatus::Disconnected && !self.state.am_choked
    }

    /// Whether the peer is known to have piece `index`.
    pub fn has_piece(&self, index: usize) -> (b: bool)
        ensures
            b == self@.state.has_piece(index as int),
    {
        index < self.state.bitfield.len() && self.state.bitfield[index]
    }
}

/// The frames that declare interest, one for each peer in `peers` that is due
/// one, in the order of the registry.
pub open spec fn interest_frames(peers: Seq<PeerView>) -> Seq<PeerMessageView>
    decreases peers.len(),
{
    if peers.len() == 0 {
        Seq::empty()
    } else if peers.last().wants_interest() {
        interest_frames(peers.drop_last()).push(peers.last().interested_frame())
    } else {
        interest_frames(peers.drop_last())
    }
}

/// The requests for piece `index`, one for each peer in `peers` that is to be
/// asked, in the order of the registry.
pub open spec fn request_frames(peers: Seq<PeerView>, index: int) -> Seq<PeerMessageView>
    decreases peers.len(),
{
    if peers.len() == 0 {
        Seq::empty()
    } else if peers.last().can_take(index) {
        request_frames(peers.drop_last(), index).push(peers.last().request_frame(index))
    } else {
        request_frames(peers.drop_last(), index)
    }
}

/// The number of the first piece from `from` on that is still waiting, or the
/// length of the plan if there is none.
pub open spec fn first_waiting(pieces: Seq<PieceView>, from: int) -> int
    decreases pieces.len() - from,
{
    if from < 0 || from >= pieces.len() {
        pieces.len() as int
    } else if pieces[from].status == PieceStatus::Waiting {
        from
    } else {
        first_waiting(pieces, from + 1)
    }
}

/// The messages of `frames` as plain values.
pub open spec fn frame_views(frames: Seq<PeerMessage>) -> Seq<PeerMessageView> {
    frames.map_values(|frame: PeerMessage| frame@)
}

/// The coordinator's state as plain values.
pub struct SwarmView {
    pub peers: Seq<PeerView>,
    pub pieces: Seq<PieceView>,
}

impl SwarmView {
    /// Whether a peer with this address is in the registry.
    pub open spec fn knows(self, addr: PeerAddr) -> bool {
        exists|i: int| 0 <= i < self.peers.len() && #[trigger] self.peers[i].addr == addr
    }

    /// No address is registered twice, and the plan numbers its pieces from
    /// zero in 32 bits.
    pub open spec fn well_formed(self) -> bool {
        &&& forall|i: int, j: int|
            0 <= i < j < self.peers.len() ==> #[trigger] self.peers[i].addr
                != #[trigger] self.peers[j].addr
        &&& self.pieces.len() <= u32::MAX
        &&& forall|i: int| 0 <= i < self.pieces.len() ==> #[trigger] self.pieces[i].index == i
    }

    /// The plan that a first bitfield of `bits` bits sets up: that many
    /// pieces, all waiting.
    pub open spec fn fresh_plan(bits: nat) -> Seq<PieceView> {
        Seq::new(bits, |i: int| PieceView::fresh(i))
    }

    /// The messages that the coordinator can take in this state: a `Have`
    /// must come from a registered peer and name a piece that the peer's
    /// bitfield covers, and the `Bitfield` that sets up the plan must not hold
    /// more bits than can be numbered.
    pub open spec fn accepts(self, message: PeerMessageView) -> bool {
        match message.message_type {
            PeerMessageType::Have => self.knows(message.addr) && forall|i: int|
                0 <= i < self.peers.len() && #[trigger] self.peers[i].addr == message.addr
                    ==> self.peers[i].state.accepts(message.message_type, message.payload),
            PeerMessageType::Bitfield => self.pieces.len() == 0 ==> message.payload.len()
                <= MAX_BITFIELD_BYTES,
            _ => true,
        }
    }

    /// The state with the sender of a message in the registry: as it was if
    /// the address is known, else with a fresh peer at the end.
    pub open spec fn registered(self, addr: PeerAddr) -> SwarmView {
        if self.knows(addr) {
            self
        } else {
            SwarmView { peers: self.peers.push(PeerView::fresh(addr)), ..self }
        }
    }

    /// The state after the message has been applied to its sender, and the
    /// plan set up where the first bitfield arrives.
    pub open spec fn applied(self, message: PeerMessageView) -> SwarmView {
        SwarmView {
            peers: self.peers.map_values(
                |peer: PeerView|
                    if peer.addr == message.addr {
                        peer.received(message.message_type, message.payload)
                    } else {
                        peer
                    },
            ),
            pieces: if self.pieces.len() == 0 && message.message_type
                == PeerMessageType::Bitfield {
                Self::fresh_plan(message.payload.len() * 8)
            } else {
                self.pieces
            },
        }
    }

    /// The state once interest has been declared to every peer that is due it.
    pub open spec fn after_interest(self) -> SwarmView {
        SwarmView { peers: self.peers.map_values(|peer: PeerView| peer.after_interest()), ..self }
    }

    /// The state once piece `index` has been requested from every peer that is
    /// to be asked for it. The piece is in progress if anyone was asked.
    pub open spec fn after_selection(self, index: int) -> SwarmView {
        SwarmView {
            peers: self.peers.map_values(|peer: PeerView| peer.after_selection(index)),
            pieces: if request_frames(self.peers, index).len() > 0 {
                self.pieces.update(index, self.pieces[index].in_progress())
            } else {
                self.pieces
            },
        }
    }

    /// What one inbound message does: the sender is registered, the message is
    /// applied, interest is declared to the unchoked peers that have not heard
    /// it, and the first waiting piece is requested from every unchoked,
    /// waiting peer that has it. The frames to send are the declarations of
    /// interest and then the requests, each in the order of the registry.
    pub open spec fn step(self, message: PeerMessageView) -> (SwarmView, Seq<PeerMessageView>) {
        let applied = self.registered(message.addr).applied(message);
        let interested = applied.after_interest();
        let target = first_waiting(interested.pieces, 0);
        if target < interested.pieces.len() {
            (
                interested.after_selection(target),
                interest_frames(applied.peers) + request_frames(interested.peers, target),
            )
        } else {
            (interested, interest_frames(applied.peers))
        }
    }
}

/// The coordinator: the registry of peers in the order in which they were first
/// heard from, and the piece plan.
#[derive(Debug)]
pub struct Magdl {
    peers: Vec<Peer>,
    download_state: DownloadState,
}

impl View for Magdl {
    type V = SwarmView;

    closed spec fn view(&self) -> SwarmView {
        SwarmView {
            peers: self.peers@.map_values(|peer: Peer| peer@),
            pieces: self.download_state@,
        }
    }
}

impl Magdl {
    /// A coordinator that knows no peer and no piece.
    pub fn new() -> (swarm: Magdl)
        ensures
            swarm@.peers.len() == 0,
            swarm@.pieces.len() == 0,
            swarm@.well_formed(),
    {
        Magdl { peers: Vec::new(), download_state: DownloadState { pieces: Vec::new() } }
    }

    /// The registry, in the order in which the peers were first heard from.
    pub fn peers(&self) -> (peers: &Vec<Peer>)
        ensures
            peers@.map_values(|peer: Peer| peer@) == self@.peers,
    {
        &self.peers
    }

    /// The piece plan.
    pub fn download_state(&self) -> (plan: &DownloadState)
        ensures
            plan@ == self@.pieces,
    {
        &self.download_state
    }

    /// Where in the registry the peer with this address stands.
    pub fn position(&self, addr: PeerAddr) -> (found: Option<usize>)
        ensures
            found is Some <==> self@.knows(addr),
            found matches Some(i) ==> i < self@.peers.len() && self@.peers[i as int].addr == addr,
    {
        let mut i: usize = 0;
        while i < self.peers.len()
            invariant
                i <= self.peers@.len(),
                forall|j: int| 0 <= j < i ==> self.peers@[j].addr != addr,
            decreases self.peers@.len() - i,
        {
            if self.peers[i].addr == addr {
                assert(self@.peers[i as int].addr == addr);
                return Some(i);
            }
            i += 1;
        }
        None
    }

    /// Whether no address is registered twice and the plan numbers its pieces
    /// from zero. It always is so for a coordinator that `new` made and
    /// `handle_message` changed.
    pub fn is_well_formed(&self) -> (ok: bool)
        ensures
            ok == self@.well_formed(),
    {
        let mut j: usize = 0;
        while j < self.peers.len()
            invariant
                j <= self.peers@.len(),
                forall|a: int, b: int|
                    0 <= a < b < j ==> (#[trigger] self@.peers[a]).addr != (
                    #[trigger] self@.peers[b]).addr,
            decreases self.peers@.len() - j,
        {
            let mut i: usize = 0;
            while i < j
                invariant
                    i <= j < self.peers@.len(),
                    forall|a: int| 0 <= a < i ==> (#[trigger] self@.peers[a]).addr
                        != self@.peers[j as int].addr,
                decreases j - i,
            {
                if self.peers[i].addr == self.peers[j].addr {
                    assert(self@.peers[i as int].addr == self@.peers[j as int].addr);
                    return false;
                }
                i += 1;
            }
            j += 1;
        }
        if self.download_state.pieces.len() > 0xFFFF_FFFF {
            return false;
        }
        let mut k: usize = 0;
        while k < self.download_state.pieces.len()
            invariant
                k <= self.download_state.pieces@.len() <= u32::MAX,
                forall|a: int| 0 <= a < k ==> (#[trigger] self@.pieces[a]).index == a,
            decreases self.download_state.pieces@.len() - k,
        {
            if self.download_state.pieces[k].index as usize != k {
                assert(self@.pieces[k as int].index != k);
                return false;
            }
            k += 1;
        }
        true
    }

    /// Whether `handle_message` can take this message in this state.
    pub fn accepts(&self, message: &PeerMessage) -> (ok: bool)
        requires
            self@.well_formed(),
        ensures
            ok == self@.accepts(message@),
    {
        match message.message_type {
            PeerMessageType::Have => {
                match self.position(message.addr) {
                    Some(i) => message.payload.len() >= 4 && (wire::read_u32(
                        message.payload.as_slice(),
                    ) as usize) < self.peers[i].state.bitfield.len(),
                    None => false,
                }
            },
            PeerMessageType::Bitfield => self.download_state.pieces.len() != 0
                || message.payload.len() <= MAX_BITFIELD_BYTES,
            _ => true,
        }
    }

    /// Puts the sender of a message in the registry if it is not there, and
    /// says where it stands.
    fn register(&mut self, addr: PeerAddr) -> (at: usize)
        requires
            old(self)@.well_formed(),
        ensures
            final(self)@ == old(self)@.registered(addr),
            final(self)@.well_formed(),
            at < final(self)@.peers.len(),
            final(self)@.peers[at as int].addr == addr,
    {
        match self.position(addr) {
            Some(at) => at,
            None => {
                let ghost before = self@;
                self.peers.push(Peer::new(addr));
                assert(self@.peers =~= before.peers.push(PeerView::fresh(addr)));
                self.peers.len() - 1
            },
        }
    }

    /// Sets up a plan of `count` pieces, all waiting.
    fn fresh_plan(count: usize) -> (pieces: Vec<Piece>)
        requires
            count <= u32::MAX,
        ensures
            pieces@.map_values(|piece: Piece| piece@) == SwarmView::fresh_plan(count as nat),
    {
        let mut pieces: Vec<Piece> = Vec::new();
        let mut i: usize = 0;
        while i < count
            invariant
                i <= count <= u32::MAX,
                pieces@.len() == i,
                forall|j: int| 0 <= j < i ==> (#[trigger] pieces@[j])@ == PieceView::fresh(j),
            decreases count - i,
        {
            pieces.push(Piece { index: i as u32, bytes: Vec::new(), status: PieceStatus::Waiting });
            i += 1;
        }
        pieces
    }

    /// Applies a message to its sender, who stands at `at`.
    fn apply(&mut self, at: usize, message: &PeerMessage)
        requires
            old(self)@.well_formed(),
            at < old(self)@.peers.len(),
            old(self)@.peers[at as int].addr == message.addr,
            old(self)@.peers[at as int].state.accepts(message.message_type, message.payload@),
            old(self)@.pieces.len() == 0 && message.message_type == PeerMessageType::Bitfield
                ==> message.payload@.len() <= MAX_BITFIELD_BYTES,
        ensures
            final(self)@ == old(self)@.applied(message@),
            final(self)@.well_formed(),
    {
        let ghost before = self@;
        if self.download_state.pieces.len() == 0 && message.message_type
            == PeerMessageType::Bitfield {
            self.download_state.pieces = Self::fresh_plan(message.payload.len() * 8);
        }
        if message.message_type == PeerMessageType::Cancel {
            self.peers[at].status = PeerStatus::Disconnected;
        } else {
            self.peers[at].state.update(message);
        }
        assert(self@.peers =~= before.applied(message@).peers);
    }

    /// Declares interest to every peer that is due it, adding the frames to
    /// `out`.
    fn declare_interest(&mut self, out: &mut Vec<PeerMessage>)
        requires
            old(self)@.well_formed(),
        ensures
            final(self)@ == old(self)@.after_interest(),
            final(self)@.well_formed(),
            frame_views(final(out)@) == frame_views(old(out)@) + interest_frames(old(self)@.peers),
    {
        let ghost before = self@;
        let ghost sent = frame_views(out@);
        let mut i: usize = 0;
        while i < self.peers.len()
            invariant
                i <= self.peers@.len(),
                self@.peers.len() == before.peers.len(),
                self@.pieces == before.pieces,
                forall|j: int| 0 <= j < i ==> self@.peers[j] == before.peers[j].after_interest(),
                forall|j: int| i <= j < before.peers.len() ==> self@.peers[j] == before.peers[j],
                frame_views(out@) == sent + interest_frames(before.peers.take(i as int)),
            decreases self.peers@.len() - i,
        {
            assert(before.peers.take(i + 1).drop_last() =~= before.peers.take(i as int));
            let ghost mid_view = self@;
            if self.peers[i].unchoked() && !self.peers[i].state.am_interested {
                let frame = PeerMessage {
                    message_type: PeerMessageType::Interested,
                    payload: Vec::new(),
                    addr: self.peers[i].addr,
                };
                let ghost old_out = out@;
                out.push(frame);
                assert(frame_views(out@) =~= frame_views(old_out).push(frame@));
                self.peers[i].state.am_interested = true;
            }
            assert forall|j: int| 0 <= j < i + 1 implies self@.peers[j]
                == before.peers[j].after_interest() by {
                if j < i {
                    assert(mid_view.peers[j] == before.peers[j].after_interest());
                }
            }
            i += 1;
        }
        assert(before.peers.take(i as int) =~= before.peers);
        assert(self@.peers =~= before.after_interest().peers);
    }

    /// The number of the first waiting piece, or the length of the plan.
    fn first_waiting(&self) -> (target: usize)
        ensures
            target == first_waiting(self@.pieces, 0),
            target <= self@.pieces.len(),
    {
        let mut i: usize = 0;
        while i < self.download_state.pieces.len()
            invariant
                i <= self.download_state.pieces@.len(),
                first_waiting(self@.pieces, 0) == first_waiting(self@.pieces, i as int),
            decreases self.download_state.pieces@.len() - i,
        {
            if self.download_state.pieces[i].status == PieceStatus::Waiting {
                return i;
            }
            i += 1;
        }
        i
    }

    /// Requests piece `target` from every peer that is to be asked for it,
    /// adding the frames to `out`.
    fn select(&mut self, target: usize, out: &mut Vec<PeerMessage>)
        requires
            old(self)@.well_formed(),
            target < old(self)@.pieces.len(),
        ensures
            final(self)@ == old(self)@.after_selection(target as int),
            final(self)@.well_formed(),
            frame_views(final(out)@) == frame_views(old(out)@) + request_frames(
                old(self)@.peers,
                target as int,
            ),
    {
        let ghost before = self@;
        let ghost sent = frame_views(out@);
        let ghost index = target as int;
        let mut asked = false;
        let mut i: usize = 0;
        while i < self.peers.len()
            invariant
                i <= self.peers@.len(),
                index == target,
                target < before.pieces.len() <= u32::MAX,
                self@.peers.len() == before.peers.len(),
                self@.pieces == before.pieces,
                forall|j: int|
                    0 <= j < i ==> self@.peers[j] == before.peers[j].after_selection(index),
                forall|j: int| i <= j < before.peers.len() ==> self@.peers[j] == before.peers[j],
                frame_views(out@) == sent + request_frames(before.peers.take(i as int), index),
                asked <==> request_frames(before.peers.take(i as int), index).len() > 0,
            decreases self.peers@.len() - i,
        {
            assert(before.peers.take(i + 1).drop_last() =~= before.peers.take(i as int));
            let ghost mid_view = self@;
            if self.peers[i].unchoked() && self.peers[i].status == PeerStatus::Waiting
                && self.peers[i].has_piece(target) {
                let mut payload = wire::write_u32(target as u32);
                let mut begin = wire::write_u32(0);
                let mut length = wire::write_u32(BLOCK_LENGTH);
                payload.append(&mut begin);
                payload.append(&mut length);
                let frame = PeerMessage {
                    message_type: PeerMessageType::Request,
                    payload,
                    addr: self.peers[i].addr,
                };
                let ghost old_out = out@;
                out.push(frame);
                assert(frame_views(out@) =~= frame_views(old_out).push(frame@));
                self.peers[i].status = PeerStatus::Downloading;
                asked = true;
            }
            assert forall|j: int| 0 <= j < i + 1 implies self@.peers[j]
                == before.peers[j].after_selection(index) by {
                if j < i {
                    assert(mid_view.peers[j] == before.peers[j].after_selection(index));
                }
            }
            i += 1;
        }
        assert(before.peers.take(i as int) =~= before.peers);
        assert(self@.peers =~= before.after_selection(index).peers);
        if asked {
            self.download_state.pieces[target].status = PieceStatus::InProgress;
            assert(self@.pieces =~= before.pieces.update(index, before.pieces[index].in_progress()));
        }
    }

    /// Takes one message from a peer session and gives back the frames to
    /// deliver, each addressed to the peer it is for.
    ///
    /// A coordinator that `new` made and `handle_message` changed is always
    /// well-formed, and there is no other way to make or change one. What is
    /// left to the caller is to ask `accepts` first.
    pub fn handle_message(&mut self, message: PeerMessage) -> (out: Vec<PeerMessage>)
        requires
            old(self)@.well_formed(),
            old(self)@.accepts(message@),
        ensures
            final(self)@ == old(self)@.step(message@).0,
            frame_views(out@) == old(self)@.step(message@).1,
            final(self)@.well_formed(),
    {
        let at = self.register(message.addr);
        assert(self@.peers[at as int].state.accepts(message.message_type, message.payload@));
        self.apply(at, &message);
        let mut out: Vec<PeerMessage> = Vec::new();
        self.declare_interest(&mut out);
        let target = self.first_waiting();
        if target < self.download_state.pieces.len() {
            self.select(target, &mut out);
        }
        out
    }
}

impl SwarmView {
    /// The state in which a step picks a piece: the sender registered, the
    /// message applied, interest declared.
    pub open spec fn before_selection(self, message: PeerMessageView) -> SwarmView {
        self.registered(message.addr).applied(message).after_interest()
    }

    /// The piece that a step picks, or the length of the plan if none waits.
    pub open spec fn target(self, message: PeerMessageView) -> int {
        first_waiting(self.before_selection(message).pieces, 0)
    }

    /// Every bitfield that has been set is as long as the plan.
    pub open spec fn bitfields_match_plan(self) -> bool {
        forall|i: int|
            0 <= i < self.peers.len() ==> (#[trigger] self.peers[i]).state.bitfield.len() == 0
                || self.peers[i].state.bitfield.len() == self.pieces.len()
    }

    /// Whether at most one peer is to be asked for piece `index`.
    pub open spec fn at_most_one_taker(self, index: int) -> bool {
        forall|j: int, k: int|
            0 <= j < k < self.peers.len() ==> !((#[trigger] self.peers[j]).can_take(index) && (
            #[trigger] self.peers[k]).can_take(index))
    }
}

/// What `first_waiting` finds is a waiting piece, and no piece before it waits.
pub proof fn lemma_first_waiting(pieces: Seq<PieceView>, from: int)
    requires
        0 <= from,
    ensures
        from <= first_waiting(pieces, from) || first_waiting(pieces, from) == pieces.len(),
        first_waiting(pieces, from) <= pieces.len(),
        first_waiting(pieces, from) < pieces.len() ==> pieces[first_waiting(pieces, from)].status
            == PieceStatus::Waiting,
        forall|i: int|
            from <= i < first_waiting(pieces, from) ==> (#[trigger] pieces[i]).status
                != PieceStatus::Waiting,
    decreases pieces.len() - from,
{
    if from < pieces.len() && pieces[from].status != PieceStatus::Waiting {
        lemma_first_waiting(pieces, from + 1);
    }
}

/// Whether `frame` is the request for piece `index` to the peer at `at`, and
/// that peer was to be asked.
pub open spec fn is_request_to(
    frame: PeerMessageView,
    peers: Seq<PeerView>,
    index: int,
    at: int,
) -> bool {
    0 <= at < peers.len() && peers[at].can_take(index) && frame == peers[at].request_frame(index)
}

/// Whether `frame` is the request for piece `index` to some peer that was to
/// be asked.
pub open spec fn has_taker(frame: PeerMessageView, peers: Seq<PeerView>, index: int) -> bool {
    exists|at: int| is_request_to(frame, peers, index, at)
}

/// Every request goes to a peer that was to be asked.
pub proof fn lemma_requests_have_takers(peers: Seq<PeerView>, index: int)
    ensures
        forall|k: int|
            0 <= k < request_frames(peers, index).len() ==> has_taker(
                #[trigger] request_frames(peers, index)[k],
                peers,
                index,
            ),
    decreases peers.len(),
{
    if peers.len() > 0 {
        let head = peers.drop_last();
        lemma_requests_have_takers(head, index);
        let frames = request_frames(peers, index);
        let before = request_frames(head, index);
        assert forall|k: int| 0 <= k < frames.len() implies has_taker(
            #[trigger] frames[k],
            peers,
            index,
        ) by {
            if k < before.len() {
                let at = choose|at: int| is_request_to(before[k], head, index, at);
                assert(is_request_to(frames[k], peers, index, at));
            } else {
                assert(is_request_to(frames[k], peers, index, peers.len() - 1));
            }
        }
    }
}

/// Every peer that was to be asked gets a request.
pub proof fn lemma_takers_have_requests(peers: Seq<PeerView>, index: int, at: int)
    requires
        0 <= at < peers.len(),
        peers[at].can_take(index),
    ensures
        request_frames(peers, index).contains(peers[at].request_frame(index)),
    decreases peers.len(),
{
    let head = peers.drop_last();
    let frames = request_frames(peers, index);
    let before = request_frames(head, index);
    if at < head.len() {
        lemma_takers_have_requests(head, index, at);
        let k = choose|k: int| 0 <= k < before.len() && before[k] == head[at].request_frame(index);
        assert(frames[k] == before[k]);
    } else {
        assert(frames[frames.len() - 1] == peers[at].request_frame(index));
    }
}

/// Where nobody is to be asked, nothing is requested.
pub proof fn lemma_no_taker(peers: Seq<PeerView>, index: int)
    requires
        forall|j: int| 0 <= j < peers.len() ==> !(#[trigger] peers[j]).can_take(index),
    ensures
        request_frames(peers, index) == Seq::<PeerMessageView>::empty(),
    decreases peers.len(),
{
    if peers.len() > 0 {
        let head = peers.drop_last();
        lemma_no_taker(head, index);
    }
}

/// Where one peer alone is to be asked, the one request goes to it.
pub proof fn lemma_single_taker(peers: Seq<PeerView>, index: int, taker: int)
    requires
        0 <= taker < peers.len(),
        peers[taker].can_take(index),
        forall|j: int| 0 <= j < peers.len() && j != taker ==> !(#[trigger] peers[j]).can_take(index),
    ensures
        request_frames(peers, index) == seq![peers[taker].request_frame(index)],
    decreases peers.len(),
{
    let head = peers.drop_last();
    if taker == peers.len() - 1 {
        lemma_no_taker(head, index);
    } else {
        lemma_single_taker(head, index, taker);
    }
}

/// Whether `frame` declares interest to the peer at `at`, and that peer was
/// due it.
pub open spec fn is_interest_to(frame: PeerMessageView, peers: Seq<PeerView>, at: int) -> bool {
    0 <= at < peers.len() && peers[at].wants_interest() && frame == peers[at].interested_frame()
}

/// Whether `frame` declares interest to some peer that was due it.
pub open spec fn has_listener(frame: PeerMessageView, peers: Seq<PeerView>) -> bool {
    exists|at: int| is_interest_to(frame, peers, at)
}

/// Every declaration of interest goes to a peer that was due one.
pub proof fn lemma_interest_has_listeners(peers: Seq<PeerView>)
    ensures
        forall|k: int|
            0 <= k < interest_frames(peers).len() ==> has_listener(
                #[trigger] interest_frames(peers)[k],
                peers,
            ),
    decreases peers.len(),
{
    if peers.len() > 0 {
        let head = peers.drop_last();
        lemma_interest_has_listeners(head);
        let frames = interest_frames(peers);
        let before = interest_frames(head);
        assert forall|k: int| 0 <= k < frames.len() implies has_listener(
            #[trigger] frames[k],
            peers,
        ) by {
            if k < before.len() {
                let at = choose|at: int| is_interest_to(before[k], head, at);
                assert(is_interest_to(frames[k], peers, at));
            } else {
                assert(is_interest_to(frames[k], peers, peers.len() - 1));
            }
        }
    }
}

/// A step keeps the registry free of doubles and the plan numbered, and it
/// only ever adds to the registry.
pub proof fn lemma_step_well_formed(swarm: SwarmView, message: PeerMessageView)
    requires
        swarm.well_formed(),
        swarm.accepts(message),
    ensures
        swarm.step(message).0.well_formed(),
        swarm.step(message).0.knows(message.addr),
        swarm.step(message).0.peers.len() >= swarm.peers.len(),
        forall|i: int|
            0 <= i < swarm.peers.len() ==> (#[trigger] swarm.step(message).0.peers[i]).addr
                == swarm.peers[i].addr,
{
    let selecting = swarm.before_selection(message);
    let after = swarm.step(message).0;
    lemma_first_waiting(selecting.pieces, 0);
    if swarm.knows(message.addr) {
        let i = choose|i: int| 0 <= i < swarm.peers.len() && swarm.peers[i].addr == message.addr;
        assert(after.peers[i].addr == message.addr);
    } else {
        assert(after.peers[swarm.peers.len() as int].addr == message.addr);
    }
}

/// Every frame that a step sends out is addressed to a peer that is in the
/// registry after the step and has not disconnected.
pub proof fn lemma_frames_go_to_registered_peers(swarm: SwarmView, message: PeerMessageView)
    requires
        swarm.well_formed(),
        swarm.accepts(message),
    ensures
        forall|k: int|
            0 <= k < swarm.step(message).1.len() ==> exists|j: int|
                0 <= j < swarm.step(message).0.peers.len() && (#[trigger] swarm.step(
                    message,
                ).0.peers[j]).addr == (#[trigger] swarm.step(message).1[k]).addr
                    && swarm.step(message).0.peers[j].status != PeerStatus::Disconnected,
{
    let applied = swarm.registered(message.addr).applied(message);
    let selecting = swarm.before_selection(message);
    let target = swarm.target(message);
    let after = swarm.step(message).0;
    let out = swarm.step(message).1;
    let interest = interest_frames(applied.peers);
    lemma_interest_has_listeners(applied.peers);
    lemma_requests_have_takers(selecting.peers, target);
    assert forall|k: int| 0 <= k < out.len() implies exists|j: int|
        0 <= j < after.peers.len() && (#[trigger] after.peers[j]).addr == (#[trigger] out[k]).addr
            && after.peers[j].status != PeerStatus::Disconnected by {
        if k < interest.len() {
            let j = choose|j: int| is_interest_to(interest[k], applied.peers, j);
            assert(after.peers[j].status != PeerStatus::Disconnected);
        } else {
            let requests = request_frames(selecting.peers, target);
            let request = requests[k - interest.len()];
            let j = choose|j: int| is_request_to(request, selecting.peers, target, j);
            assert(after.peers[j].status == PeerStatus::Downloading);
        }
    }
}

/// Bitfields that match the plan still match it after a step, unless the
/// message is a bitfield of another length than the plan already has.
pub proof fn lemma_bitfields_match_plan(swarm: SwarmView, message: PeerMessageView)
    requires
        swarm.well_formed(),
        swarm.accepts(message),
        swarm.bitfields_match_plan(),
        message.message_type == PeerMessageType::Bitfield && swarm.pieces.len() > 0
            ==> message.payload.len() * 8 == swarm.pieces.len(),
    ensures
        swarm.step(message).0.bitfields_match_plan(),
{
    let registered = swarm.registered(message.addr);
    let selecting = swarm.before_selection(message);
    lemma_first_waiting(selecting.pieces, 0);
}

/// A piece that a step puts in progress is the piece that the step picked,
/// and the step asked at least one peer for it: that peer was waiting, is now
/// downloading, and a request for the piece is among the frames sent.
pub proof fn lemma_piece_in_progress_was_requested(
    swarm: SwarmView,
    message: PeerMessageView,
    piece: int,
)
    requires
        swarm.well_formed(),
        swarm.accepts(message),
        0 <= piece < swarm.step(message).0.pieces.len(),
        swarm.step(message).0.pieces[piece].status == PieceStatus::InProgress,
        swarm.before_selection(message).pieces[piece].status != PieceStatus::InProgress,
    ensures
        piece == swarm.target(message),
        exists|j: int, k: int|
            0 <= j < swarm.step(message).0.peers.len() && 0 <= k < swarm.step(message).1.len()
                && swarm.before_selection(message).peers[j].status == PeerStatus::Waiting && (
            #[trigger] swarm.step(message).0.peers[j]).status == PeerStatus::Downloading
                && #[trigger] swarm.step(message).1[k] == swarm.step(message).0.peers[j].request_frame(
                piece,
            ),
{
    let applied = swarm.registered(message.addr).applied(message);
    let selecting = swarm.before_selection(message);
    let target = swarm.target(message);
    let after = swarm.step(message).0;
    let out = swarm.step(message).1;
    let interest = interest_frames(applied.peers);
    let requests = request_frames(selecting.peers, target);
    lemma_requests_have_takers(selecting.peers, target);
    let j = choose|j: int| is_request_to(requests[0], selecting.peers, target, j);
    let k = interest.len() as int;
    assert(out[k] == after.peers[j].request_frame(piece));
}

/// Where at most one peer was to be asked for the piece that a step picked, a
/// piece that the step puts in progress has exactly one peer that the step
/// turned to downloading, and the step sent exactly one request, to that peer
/// and for that piece, after its declarations of interest.
pub proof fn lemma_piece_in_progress_has_one_downloader(
    swarm: SwarmView,
    message: PeerMessageView,
    piece: int,
)
    requires
        swarm.well_formed(),
        swarm.accepts(message),
        0 <= piece < swarm.step(message).0.pieces.len(),
        swarm.step(message).0.pieces[piece].status == PieceStatus::InProgress,
        swarm.before_selection(message).pieces[piece].status != PieceStatus::InProgress,
        swarm.before_selection(message).at_most_one_taker(swarm.target(message)),
    ensures
        exists|j: int|
            {
                &&& 0 <= j < swarm.step(message).0.peers.len()
                &&& swarm.before_selection(message).peers[j].status == PeerStatus::Waiting
                &&& (#[trigger] swarm.step(message).0.peers[j]).status == PeerStatus::Downloading
                &&& swarm.step(message).1 == interest_frames(
                    swarm.registered(message.addr).applied(message).peers,
                ).push(swarm.step(message).0.peers[j].request_frame(piece))
                &&& forall|other: int|
                    0 <= other < swarm.step(message).0.peers.len() && other != j ==> (
                    #[trigger] swarm.step(message).0.peers[other]).status
                        == swarm.before_selection(message).peers[other].status
            },
{
    let applied = swarm.registered(message.addr).applied(message);
    let selecting = swarm.before_selection(message);
    let target = swarm.target(message);
    let after = swarm.step(message).0;
    let requests = request_frames(selecting.peers, target);
    lemma_requests_have_takers(selecting.peers, target);
    let j = choose|j: int| is_request_to(requests[0], selecting.peers, target, j);
    lemma_single_taker(selecting.peers, target, j);
    assert(after.peers[j].status == PeerStatus::Downloading);
}

/// The cancel message of a session that is over marks its peer disconnected,
/// and nothing is sent to that peer in return.
pub proof fn lemma_cancel_disconnects(swarm: SwarmView, message: PeerMessageView)
    requires
        swarm.well_formed(),
        message.message_type == PeerMessageType::Cancel,
    ensures
        exists|i: int|
            0 <= i < swarm.step(message).0.peers.len() && (#[trigger] swarm.step(
                message,
            ).0.peers[i]).addr == message.addr && swarm.step(message).0.peers[i].status
                == PeerStatus::Disconnected,
        forall|k: int|
            0 <= k < swarm.step(message).1.len() ==> (#[trigger] swarm.step(message).1[k]).addr
                != message.addr,
{
    let registered = swarm.registered(message.addr);
    let after = swarm.step(message).0;
    let out = swarm.step(message).1;
    lemma_step_well_formed(swarm, message);
    lemma_frames_go_to_registered_peers(swarm, message);
    let i = choose|i: int|
        0 <= i < registered.peers.len() && (#[trigger] registered.peers[i]).addr == message.addr;
    if !swarm.knows(message.addr) {
        assert(registered.peers[swarm.peers.len() as int].addr == message.addr);
    }
    assert(after.peers[i].addr == message.addr);
    assert(after.peers[i].status == PeerStatus::Disconnected);
    assert forall|k: int| 0 <= k < out.len() implies (#[trigger] out[k]).addr != message.addr by {
        let j = choose|j: int|
            0 <= j < after.peers.len() && (#[trigger] after.peers[j]).addr == out[k].addr
                && after.peers[j].status != PeerStatus::Disconnected;
        if out[k].addr == message.addr {
            assert(j != i);
            if j < i {
                assert(after.peers[j].addr != after.peers[i].addr);
            } else {
                assert(after.peers[i].addr != after.peers[j].addr);
            }
        }
    }
}

} // verus!
