//! The UDP tracker protocol: the four fixed-layout messages, and what to make
//! of each datagram that comes back while an answer is awaited.
//!
//! Sockets and timers are the caller's. The caller sends the bytes of a
//! request, and hands every datagram that arrives before the timeout to
//! `connect_reply` or `announce_reply`, which say whether to go on waiting.

use crate::error::Error;
use crate::error::ProtocolError;
use crate::random;
use crate::wire;
use crate::PeerAddr;
use std::collections::HashSet;
use vstd::prelude::*;
use vstd::slice::slice_subrange;

verus! {

/// The magic number that opens a connect request.
pub const PROTOCOL_ID: i64 = 0x41727101980;

pub const CONNECT_REQUEST_SIZE: usize = 16;

pub const CONNECT_RESPONSE_SIZE: usize = 16;

pub const ANNOUNCE_REQUEST_BYTES: usize = 98;

/// The fixed part of an announce response, before the peer list.
pub const ANNOUNCE_RESPONSE_HEAD: usize = 20;

/// Bytes that one peer takes in the list of an announce response.
pub const PEER_ENTRY_SIZE: usize = 6;

/// The port a tracker is reached on when its URL names none.
pub const DEFAULT_TRACKER_PORT: u16 = 80;

/// The port that this client reports to trackers.
pub const CLIENT_PORT: u16 = 6881;

/// Seconds to wait for a tracker's answer.
pub const TRACKER_TIMEOUT_SECS: u64 = 3;

pub const ACTION_CONNECT: u32 = 0;

pub const ACTION_ANNOUNCE: u32 = 1;

/// The action of a response by which a tracker refuses a request.
pub const ACTION_ERROR: u32 = 3;

/// The fixed part of an error response, before its text: action and
/// transaction id.
pub const ERROR_RESPONSE_HEAD: usize = 8;

/// The port of a tracker URL, or the default where the URL names none.
pub fn tracker_port(port: Option<u16>) -> (p: u16)
    ensures
        p == match port {
            Some(named) => named,
            None => DEFAULT_TRACKER_PORT,
        },
{
    match port {
        Some(named) => named,
        None => DEFAULT_TRACKER_PORT,
    }
}

/// The first message to a tracker: it asks for a connection id.
#[derive(Debug, Clone, Copy)]
pub struct ConnectRequest {
    pub protocol_id: i64,
    pub action: u32,
    pub transaction_id: u32,
}

impl ConnectRequest {
    /// The sixteen bytes of the request: protocol id, action, transaction id.
    pub open spec fn encoding(self) -> Seq<u8> {
        wire::bytes64(wire::unsigned(self.protocol_id as int, wire::two_to_64())) + wire::bytes32(
            self.action as int,
        ) + wire::bytes32(self.transaction_id as int)
    }

    /// A connect request under a transaction id drawn at random.
    pub fn new() -> (request: ConnectRequest)
        ensures
            request.protocol_id == PROTOCOL_ID,
            request.action == ACTION_CONNECT,
    {
        ConnectRequest::with_transaction_id(random::random_u32())
    }

    /// A connect request under the given transaction id.
    pub fn with_transaction_id(transaction_id: u32) -> (request: ConnectRequest)
        ensures
            request == (ConnectRequest {
                protocol_id: PROTOCOL_ID,
                action: ACTION_CONNECT,
                transaction_id,
            }),
    {
        ConnectRequest { protocol_id: PROTOCOL_ID, action: ACTION_CONNECT, transaction_id }
    }

    pub fn to_bytes(&self) -> (bytes: Vec<u8>)
        ensures
            bytes@ == self.encoding(),
            bytes@.len() == CONNECT_REQUEST_SIZE,
    {
        let mut bytes = wire::write_i64(self.protocol_id);
        let mut action = wire::write_u32(self.action);
        let mut transaction_id = wire::write_u32(self.transaction_id);
        bytes.append(&mut action);
        bytes.append(&mut transaction_id);
        bytes
    }
}

/// The tracker's answer to a connect request.
#[derive(Debug, Clone, Copy)]
pub struct ConnectResponse {
    pub action: u32,
    pub transaction_id: u32,
    pub connection_id: i64,
}

impl ConnectResponse {
    /// The response that the first sixteen bytes of `bytes` spell: action,
    /// transaction id, connection id.
    pub open spec fn parse(bytes: Seq<u8>) -> ConnectResponse {
        ConnectResponse {
            action: wire::be32(bytes) as u32,
            transaction_id: wire::be32(bytes.skip(4)) as u32,
            connection_id: wire::signed(wire::be64(bytes.skip(8)), wire::two_to_64()) as i64,
        }
    }

    pub fn from_bytes(bytes: &[u8]) -> (response: ConnectResponse)
        requires
            bytes@.len() >= CONNECT_RESPONSE_SIZE,
        ensures
            response == Self::parse(bytes@),
    {
        let action = wire::read_u32(slice_subrange(bytes, 0, 4));
        let transaction_id = wire::read_u32(slice_subrange(bytes, 4, 8));
        let connection_id = wire::read_i64(slice_subrange(bytes, 8, 16));
        ConnectResponse { action, transaction_id, connection_id }
    }
}

/// Why a client announces.
#[derive(Debug, Clone, Copy, PartialEq, Eq, Structural)]
pub enum AnnounceEvent {
    NoEvent,
    Completed,
    Started,
    Stopped,
}

impl AnnounceEvent {
    /// The number an event is written as.
    pub open spec fn code(self) -> u32 {
        match self {
            AnnounceEvent::NoEvent => 0,
            AnnounceEvent::Completed => 1,
            AnnounceEvent::Started => 2,
            AnnounceEvent::Stopped => 3,
        }
    }

    pub fn raw_value(&self) -> (value: u32)
        ensures
            value == self.code(),
    {
        match self {
            AnnounceEvent::NoEvent => 0,
            AnnounceEvent::Completed => 1,
            AnnounceEvent::Started => 2,
            AnnounceEvent::Stopped => 3,
        }
    }
}

/// What an announce says of the download, as the caller states it.
#[derive(Debug)]
pub struct AnnounceRequestDescriptor {
    pub connection_id: i64,
    pub peer_id: Vec<u8>,
    pub info_hash: Vec<u8>,
    pub downloaded: u64,
    pub left: u64,
    pub uploaded: u64,
    pub event: AnnounceEvent,
}

/// An `AnnounceRequestDescriptor` as plain values.
pub struct AnnounceRequestDescriptorView {
    pub connection_id: i64,
    pub peer_id: Seq<u8>,
    pub info_hash: Seq<u8>,
    pub downloaded: u64,
    pub left: u64,
    pub uploaded: u64,
    pub event: AnnounceEvent,
}

impl View for AnnounceRequestDescriptor {
    type V = AnnounceRequestDescriptorView;

    open spec fn view(&self) -> AnnounceRequestDescriptorView {
        AnnounceRequestDescriptorView {
            connection_id: self.connection_id,
            peer_id: self.peer_id@,
            info_hash: self.info_hash@,
            downloaded: self.downloaded,
            left: self.left,
            uploaded: self.uploaded,
            event: self.event,
        }
    }
}

/// The message that asks a tracker for peers.
#[derive(Debug)]
pub struct AnnounceRequest {
    pub connection_id: i64,
    pub action: u32,
    pub transaction_id: u32,
    pub info_hash: Vec<u8>,
    pub peer_id: Vec<u8>,
    pub downloaded: u64,
    pub left: u64,
    pub uploaded: u64,
    pub event: AnnounceEvent,
    pub ip_address: u32,
    pub key: u32,
    pub num_want: i32,
    pub port: u16,
}

/// An `AnnounceRequest` as plain values.
pub struct AnnounceRequestView {
    pub connection_id: i64,
    pub action: u32,
    pub transaction_id: u32,
    pub info_hash: Seq<u8>,
    pub peer_id: Seq<u8>,
    pub downloaded: u64,
    pub left: u64,
    pub uploaded: u64,
    pub event: AnnounceEvent,
    pub ip_address: u32,
    pub key: u32,
    pub num_want: i32,
    pub port: u16,
}

impl View for AnnounceRequest {
    type V = AnnounceRequestView;

    open spec fn view(&self) -> AnnounceRequestView {
        AnnounceRequestView {
            connection_id: self.connection_id,
            action: self.action,
            transaction_id: self.transaction_id,
            info_hash: self.info_hash@,
            peer_id: self.peer_id@,
            downloaded: self.downloaded,
            left: self.left,
            uploaded: self.uploaded,
            event: self.event,
            ip_address: self.ip_address,
            key: self.key,
            num_want: self.num_want,
            port: self.port,
        }
    }
}

impl AnnounceRequestView {
    /// The request that a descriptor makes under a transaction id and a key:
    /// action announce, no address of our own, as many peers as the tracker
    /// will give, and the client port.
    pub open spec fn of(
        descriptor: AnnounceRequestDescriptorView,
        transaction_id: u32,
        key: u32,
    ) -> AnnounceRequestView {
        AnnounceRequestView {
            connection_id: descriptor.connection_id,
            action: ACTION_ANNOUNCE,
            transaction_id,
            info_hash: descriptor.info_hash,
            peer_id: descriptor.peer_id,
            downloaded: descriptor.downloaded,
            left: descriptor.left,
            uploaded: descriptor.uploaded,
            event: descriptor.event,
            ip_address: 0,
            key,
            num_want: -1i32,
            port: CLIENT_PORT,
        }
    }

    /// A request whose info hash and peer id have their twenty bytes each.
    pub open spec fn well_formed(self) -> bool {
        self.info_hash.len() == 20 && self.peer_id.len() == 20
    }

    /// The bytes of the request, field after field, every number big-endian.
    pub open spec fn encoding(self) -> Seq<u8> {
        wire::bytes64(wire::unsigned(self.connection_id as int, wire::two_to_64()))
            + wire::bytes32(self.action as int) + wire::bytes32(self.transaction_id as int)
            + self.info_hash + self.peer_id + wire::bytes64(self.downloaded as int)
            + wire::bytes64(self.left as int) + wire::bytes64(self.uploaded as int)
            + wire::bytes32(self.event.code() as int) + wire::bytes32(self.ip_address as int)
            + wire::bytes32(self.key as int) + wire::bytes32(
            wire::unsigned(self.num_want as int, wire::two_to_32()),
        ) + wire::bytes16(self.port as int)
    }
}

impl AnnounceRequest {
    /// The request that `descriptor` makes, under a transaction id and a key
    /// drawn at random.
    pub fn new(descriptor: AnnounceRequestDescriptor) -> (request: AnnounceRequest)
        ensures
            exists|transaction_id: u32, key: u32|
                request@ == AnnounceRequestView::of(descriptor@, transaction_id, key),
    {
        let transaction_id = random::random_u32();
        let key = random::random_u32();
        AnnounceRequest::with_ids(descriptor, transaction_id, key)
    }

    /// The request that `descriptor` makes under the given transaction id and
    /// key.
    pub fn with_ids(descriptor: AnnounceRequestDescriptor, transaction_id: u32, key: u32) -> (request:
        AnnounceRequest)
        ensures
            request@ == AnnounceRequestView::of(descriptor@, transaction_id, key),
    {
        AnnounceRequest {
            connection_id: descriptor.connection_id,
            action: ACTION_ANNOUNCE,
            transaction_id,
            info_hash: descriptor.info_hash,
            peer_id: descriptor.peer_id,
            downloaded: descriptor.downloaded,
            left: descriptor.left,
            uploaded: descriptor.uploaded,
            event: descriptor.event,
            ip_address: 0,
            key,
            num_want: -1,
            port: CLIENT_PORT,
        }
    }

    pub fn to_bytes(&self) -> (bytes: Vec<u8>)
        requires
            self@.well_formed(),
        ensures
            bytes@ == self@.encoding(),
            bytes@.len() == ANNOUNCE_REQUEST_BYTES,
    {
        let mut bytes = wire::write_i64(self.connection_id);
        let mut action = wire::write_u32(self.action);
        bytes.append(&mut action);
        let mut transaction_id = wire::write_u32(self.transaction_id);
        bytes.append(&mut transaction_id);
        wire::append_bytes(&mut bytes, self.info_hash.as_slice());
        wire::append_bytes(&mut bytes, self.peer_id.as_slice());
        let mut downloaded = wire::write_u64(self.downloaded);
        bytes.append(&mut downloaded);
        let mut left = wire::write_u64(self.left);
        bytes.append(&mut left);
        let mut uploaded = wire::write_u64(self.uploaded);
        bytes.append(&mut uploaded);
        let mut event = wire::write_u32(self.event.raw_value());
        bytes.append(&mut event);
        let mut ip_address = wire::write_u32(self.ip_address);
        bytes.append(&mut ip_address);
        let mut key = wire::write_u32(self.key);
        bytes.append(&mut key);
        let mut num_want = wire::write_i32(self.num_want);
        bytes.append(&mut num_want);
        let mut port = wire::write_u16(self.port);
        bytes.append(&mut port);
        assert(bytes@ =~= self@.encoding());
        bytes
    }
}

/// The peers that a packed list names: six bytes each, four of address and
/// two of port.
pub open spec fn peer_list(list: Seq<u8>) -> Seq<PeerAddr> {
    Seq::new(
        (list.len() / 6) as nat,
        |i: int|
            PeerAddr {
                ip: wire::be32(list.skip(6 * i)) as u32,
                port: wire::be16(list.skip(6 * i + 4)) as u16,
            },
    )
}

/// The tracker's answer to an announce.
#[derive(Debug)]
pub struct AnnounceResponse {
    pub action: u32,
    pub transaction_id: u32,
    pub interval: u32,
    pub leechers: u32,
    pub seeders: u32,
    pub peers: Vec<PeerAddr>,
}

/// An `AnnounceResponse` as plain values.
pub struct AnnounceResponseView {
    pub action: u32,
    pub transaction_id: u32,
    pub interval: u32,
    pub leechers: u32,
    pub seeders: u32,
    pub peers: Seq<PeerAddr>,
}

impl View for AnnounceResponse {
    type V = AnnounceResponseView;

    open spec fn view(&self) -> AnnounceResponseView {
        AnnounceResponseView {
            action: self.action,
            transaction_id: self.transaction_id,
            interval: self.interval,
            leechers: self.leechers,
            seeders: self.seeders,
            peers: self.peers@,
        }
    }
}

impl AnnounceResponseView {
    /// What a datagram spells as an announce response: five numbers, then
    /// the peers. A datagram shorter than the five numbers, or with a peer
    /// list that is not a whole number of entries, is no response.
    pub open spec fn parse(datagram: Seq<u8>) -> Result<AnnounceResponseView, ProtocolError> {
        if datagram.len() < ANNOUNCE_RESPONSE_HEAD {
            Err(ProtocolError::ResponseSize)
        } else if (datagram.len() - ANNOUNCE_RESPONSE_HEAD) % 6 != 0 {
            Err(ProtocolError::BadPeerList)
        } else {
            Ok(
                AnnounceResponseView {
                    action: wire::be32(datagram) as u32,
                    transaction_id: wire::be32(datagram.skip(4)) as u32,
                    interval: wire::be32(datagram.skip(8)) as u32,
                    leechers: wire::be32(datagram.skip(12)) as u32,
                    seeders: wire::be32(datagram.skip(16)) as u32,
                    peers: peer_list(datagram.skip(20)),
                },
            )
        }
    }
}

impl AnnounceResponse {
    /// Reads the response that the first `length` bytes of `bytes` hold.
    pub fn from_bytes(bytes: &[u8], length: usize) -> (r: Result<AnnounceResponse, ProtocolError>)
        requires
            length <= bytes@.len(),
        ensures
            match AnnounceResponseView::parse(bytes@.take(length as int)) {
                Ok(response) => r matches Ok(read) && read@ == response,
                Err(e) => r matches Err(found) && found == e,
            },
    {
        let ghost datagram = bytes@.take(length as int);
        if length < ANNOUNCE_RESPONSE_HEAD {
            return Err(ProtocolError::ResponseSize);
        }
        if (length - ANNOUNCE_RESPONSE_HEAD) % PEER_ENTRY_SIZE != 0 {
            return Err(ProtocolError::BadPeerList);
        }
        let action = wire::read_u32(slice_subrange(bytes, 0, 4));
        let transaction_id = wire::read_u32(slice_subrange(bytes, 4, 8));
        let interval = wire::read_u32(slice_subrange(bytes, 8, 12));
        let leechers = wire::read_u32(slice_subrange(bytes, 12, 16));
        let seeders = wire::read_u32(slice_subrange(bytes, 16, 20));
        let count: usize = (length - ANNOUNCE_RESPONSE_HEAD) / PEER_ENTRY_SIZE;
        let ghost list = datagram.skip(20);
        let mut peers: Vec<PeerAddr> = Vec::new();
        let mut i: usize = 0;
        while i < count
            invariant
                i <= count,
                20 + 6 * count == length <= bytes@.len(),
                datagram == bytes@.take(length as int),
                list == datagram.skip(20),
                peers@.len() == i,
                forall|j: int| 0 <= j < i ==> peers@[j] == peer_list(list)[j],
            decreases count - i,
        {
            let at: usize = ANNOUNCE_RESPONSE_HEAD + PEER_ENTRY_SIZE * i;
            let ip = wire::read_u32(slice_subrange(bytes, at, at + 4));
            let port = wire::read_u16(slice_subrange(bytes, at + 4, at + 6));
            peers.push(PeerAddr { ip, port });
            i += 1;
        }
        assert(peers@ =~= peer_list(list));
        Ok(AnnounceResponse { action, transaction_id, interval, leechers, seeders, peers })
    }
}

/// Whether `datagram` is an error response to the request that went out under
/// `transaction_id`: the action is error and the transaction id is repeated,
/// whatever text follows.
pub open spec fn is_error_response(transaction_id: u32, datagram: Seq<u8>) -> bool {
    datagram.len() >= ERROR_RESPONSE_HEAD && wire::be32(datagram) == ACTION_ERROR && wire::be32(
        datagram.skip(4),
    ) == transaction_id
}

/// What to make of a datagram that arrives while an answer is awaited.
#[derive(Debug)]
pub enum Reply<T> {
    /// The datagram is not from the tracker: it is dropped, and the wait goes
    /// on under the same timeout.
    Ignored,
    /// The tracker's answer.
    Done(T),
    /// The tracker answered, and not as the protocol asks. The exchange is
    /// over.
    Failed(ProtocolError),
}

/// One tracker, once it has given a connection id.
#[derive(Debug, Clone, Copy)]
pub struct TrackerConnection {
    pub addr: PeerAddr,
    pub connection_id: i64,
}

impl TrackerConnection {
    pub fn new(addr: PeerAddr, connection_id: i64) -> (connection: TrackerConnection)
        ensures
            connection == (TrackerConnection { addr, connection_id }),
    {
        TrackerConnection { addr, connection_id }
    }

    /// Whether a send took all `size` bytes of a request.
    pub fn sent_whole(bytes_sent: usize, size: usize) -> (r: Result<(), Error>)
        ensures
            bytes_sent == size ==> r is Ok,
            bytes_sent != size ==> r == Err::<(), Error>(Error::Transport),
    {
        if bytes_sent != size {
            Err(Error::Transport)
        } else {
            Ok(())
        }
    }

    /// Whether `datagram` is an error response to the request that went out
    /// under `transaction_id`.
    fn refuses(transaction_id: u32, datagram: &[u8]) -> (refused: bool)
        ensures
            refused == is_error_response(transaction_id, datagram@),
    {
        datagram.len() >= ERROR_RESPONSE_HEAD && wire::read_u32(slice_subrange(datagram, 0, 4))
            == ACTION_ERROR && wire::read_u32(slice_subrange(datagram, 4, 8)) == transaction_id
    }

    /// The text by which the tracker refused the request that went out under
    /// `transaction_id`: what follows the fixed part of its error response.
    /// `None` where `datagram` is no error response to that request.
    pub fn error_message(transaction_id: u32, datagram: &[u8]) -> (message: Option<Vec<u8>>)
        ensures
            match message {
                Some(text) => is_error_response(transaction_id, datagram@) && text@
                    == datagram@.skip(ERROR_RESPONSE_HEAD as int),
                None => !is_error_response(transaction_id, datagram@),
            },
    {
        if Self::refuses(transaction_id, datagram) {
            let text = wire::copy_bytes(
                slice_subrange(datagram, ERROR_RESPONSE_HEAD, datagram.len()),
            );
            assert(datagram@.subrange(ERROR_RESPONSE_HEAD as int, datagram@.len() as int)
                =~= datagram@.skip(ERROR_RESPONSE_HEAD as int));
            Some(text)
        } else {
            None
        }
    }

    /// What a datagram from `from` means to the connect request that was sent
    /// to `tracker`: from elsewhere it is ignored; an error response to the
    /// request fails the exchange as a tracker error; anything else from the
    /// tracker must have the size of a connect response and repeat the
    /// transaction id, and then gives the connection id.
    pub open spec fn connect_outcome(
        request: ConnectRequest,
        tracker: PeerAddr,
        from: PeerAddr,
        datagram: Seq<u8>,
    ) -> Reply<i64> {
        if from != tracker {
            Reply::Ignored
        } else if is_error_response(request.transaction_id, datagram) {
            Reply::Failed(ProtocolError::TrackerError)
        } else if datagram.len() != CONNECT_RESPONSE_SIZE {
            Reply::Failed(ProtocolError::ResponseSize)
        } else if ConnectResponse::parse(datagram).transaction_id != request.transaction_id {
            Reply::Failed(ProtocolError::TransactionMismatch)
        } else {
            Reply::Done(ConnectResponse::parse(datagram).connection_id)
        }
    }

    /// Judges a datagram that arrived while the answer to `request` was
    /// awaited from `tracker`.
    pub fn connect_reply(
        request: &ConnectRequest,
        tracker: PeerAddr,
        from: PeerAddr,
        datagram: &[u8],
    ) -> (reply: Reply<i64>)
        ensures
            reply == Self::connect_outcome(*request, tracker, from, datagram@),
    {
        if from != tracker {
            return Reply::Ignored;
        }
        if Self::refuses(request.transaction_id, datagram) {
            return Reply::Failed(ProtocolError::TrackerError);
        }
        if datagram.len() != CONNECT_RESPONSE_SIZE {
            return Reply::Failed(ProtocolError::ResponseSize);
        }
        let response = ConnectResponse::from_bytes(datagram);
        if response.transaction_id != request.transaction_id {
            return Reply::Failed(ProtocolError::TransactionMismatch);
        }
        Reply::Done(response.connection_id)
    }

    /// What a datagram from `from` means to an announce that was sent to
    /// `tracker` under `transaction_id`: from elsewhere it is ignored; an
    /// error response to the announce fails the exchange as a tracker error;
    /// anything else from the tracker must be a well-formed announce response
    /// that repeats the transaction id, and then gives the peers.
    pub open spec fn announce_outcome(
        transaction_id: u32,
        tracker: PeerAddr,
        from: PeerAddr,
        datagram: Seq<u8>,
    ) -> Reply<Seq<PeerAddr>> {
        if from != tracker {
            Reply::Ignored
        } else if is_error_response(transaction_id, datagram) {
            Reply::Failed(ProtocolError::TrackerError)
        } else {
            match AnnounceResponseView::parse(datagram) {
                Err(e) => Reply::Failed(e),
                Ok(response) => if response.transaction_id != transaction_id {
                    Reply::Failed(ProtocolError::TransactionMismatch)
                } else {
                    Reply::Done(response.peers)
                },
            }
        }
    }

    /// Judges a datagram that arrived while the answer to `request` was
    /// awaited from this tracker.
    pub fn announce_reply(&self, request: &AnnounceRequest, from: PeerAddr, datagram: &[u8]) -> (reply:
        Reply<Vec<PeerAddr>>)
        ensures
            match Self::announce_outcome(request.transaction_id, self.addr, from, datagram@) {
                Reply::Ignored => reply is Ignored,
                Reply::Failed(e) => reply matches Reply::Failed(found) && found == e,
                Reply::Done(peers) => reply matches Reply::Done(found) && found@ == peers,
            },
    {
        if from != self.addr {
            return Reply::Ignored;
        }
        if Self::refuses(request.transaction_id, datagram) {
            return Reply::Failed(ProtocolError::TrackerError);
        }
        assert(datagram@.take(datagram@.len() as int) =~= datagram@);
        match AnnounceResponse::from_bytes(datagram, datagram.len()) {
            Err(e) => Reply::Failed(e),
            Ok(response) => {
                if response.transaction_id != request.transaction_id {
                    Reply::Failed(ProtocolError::TransactionMismatch)
                } else {
                    Reply::Done(response.peers)
                }
            },
        }
    }

    /// What this tracker is told when nothing has been downloaded yet.
    pub fn descriptor(&self, peer_id: &Vec<u8>, info_hash: &Vec<u8>) -> (descriptor:
        AnnounceRequestDescriptor)
        ensures
            descriptor@ == (AnnounceRequestDescriptorView {
                connection_id: self.connection_id,
                peer_id: peer_id@,
                info_hash: info_hash@,
                downloaded: 0,
                left: 0,
                uploaded: 0,
                event: AnnounceEvent::NoEvent,
            }),
    {
        AnnounceRequestDescriptor {
            connection_id: self.connection_id,
            peer_id: wire::copy_bytes(peer_id.as_slice()),
            info_hash: wire::copy_bytes(info_hash.as_slice()),
            downloaded: 0,
            left: 0,
            uploaded: 0,
            event: AnnounceEvent::NoEvent,
        }
    }
}

/// An announce response whose peer list is not a whole number of entries is
/// rejected: it is no response, and a datagram from the tracker that holds one
/// fails the announce and gives no peers.
pub proof fn lemma_ragged_peer_list_is_rejected(
    transaction_id: u32,
    tracker: PeerAddr,
    datagram: Seq<u8>,
)
    requires
        datagram.len() >= ANNOUNCE_RESPONSE_HEAD,
        (datagram.len() - ANNOUNCE_RESPONSE_HEAD) % 6 != 0,
    ensures
        AnnounceResponseView::parse(datagram) == Err::<AnnounceResponseView, ProtocolError>(
            ProtocolError::BadPeerList,
        ),
        TrackerConnection::announce_outcome(transaction_id, tracker, tracker, datagram) is Failed,
        !is_error_response(transaction_id, datagram) ==> TrackerConnection::announce_outcome(
            transaction_id,
            tracker,
            tracker,
            datagram,
        ) == Reply::<Seq<PeerAddr>>::Failed(ProtocolError::BadPeerList),
{
}

/// The number under which an address is kept in a hash set.
pub open spec fn addr_key(addr: PeerAddr) -> u64 {
    (addr.ip as u64 * 0x1_0000 + addr.port as u64) as u64
}

/// The successful results among `results`, in order.
pub open spec fn successes<T>(results: Seq<Result<T, Error>>) -> Seq<T>
    decreases results.len(),
{
    if results.len() == 0 {
        Seq::empty()
    } else {
        match results.last() {
            Ok(value) => successes(results.drop_last()).push(value),
            Err(_) => successes(results.drop_last()),
        }
    }
}

/// All the addresses of `lists`, list after list.
pub open spec fn flattened(lists: Seq<Vec<PeerAddr>>) -> Seq<PeerAddr>
    decreases lists.len(),
{
    if lists.len() == 0 {
        Seq::empty()
    } else {
        flattened(lists.drop_last()) + lists.last()@
    }
}

/// The addresses of `addrs` without repeats: each where it first occurs.
pub open spec fn first_occurrences(addrs: Seq<PeerAddr>) -> Seq<PeerAddr>
    decreases addrs.len(),
{
    if addrs.len() == 0 {
        Seq::empty()
    } else if first_occurrences(addrs.drop_last()).contains(addrs.last()) {
        first_occurrences(addrs.drop_last())
    } else {
        first_occurrences(addrs.drop_last()).push(addrs.last())
    }
}

/// The trackers that have answered a connect request.
#[derive(Debug)]
pub struct Trackers {
    pub connections: Vec<TrackerConnection>,
}

impl Trackers {
    /// Keeps the trackers that connected and drops those that failed.
    pub fn new(resolved: Vec<Result<TrackerConnection, Error>>) -> (trackers: Trackers)
        ensures
            trackers.connections@ == successes(resolved@),
    {
        let mut connections: Vec<TrackerConnection> = Vec::new();
        let mut i: usize = 0;
        while i < resolved.len()
            invariant
                i <= resolved@.len(),
                connections@ == successes(resolved@.take(i as int)),
            decreases resolved@.len() - i,
        {
            assert(resolved@.take(i + 1).drop_last() =~= resolved@.take(i as int));
            match &resolved[i] {
                Ok(connection) => {
                    connections.push(*connection);
                },
                Err(_) => {},
            }
            i += 1;
        }
        assert(resolved@.take(i as int) =~= resolved@);
        Trackers { connections }
    }

    /// What each tracker is told at the start of a download, in the order of
    /// the trackers.
    pub fn descriptors(&self, peer_id: &Vec<u8>, info_hash: &Vec<u8>) -> (descriptors: Vec<
        AnnounceRequestDescriptor,
    >)
        ensures
            descriptors@.len() == self.connections@.len(),
            forall|i: int|
                0 <= i < descriptors@.len() ==> (#[trigger] descriptors@[i])@ == (
                AnnounceRequestDescriptorView {
                    connection_id: self.connections@[i].connection_id,
                    peer_id: peer_id@,
                    info_hash: info_hash@,
                    downloaded: 0,
                    left: 0,
                    uploaded: 0,
                    event: AnnounceEvent::NoEvent,
                }),
    {
        let mut descriptors: Vec<AnnounceRequestDescriptor> = Vec::new();
        let mut i: usize = 0;
        while i < self.connections.len()
            invariant
                i <= self.connections@.len(),
                descriptors@.len() == i,
                forall|j: int|
                    0 <= j < i ==> (#[trigger] descriptors@[j])@ == (AnnounceRequestDescriptorView {
                        connection_id: self.connections@[j].connection_id,
                        peer_id: peer_id@,
                        info_hash: info_hash@,
                        downloaded: 0,
                        left: 0,
                        uploaded: 0,
                        event: AnnounceEvent::NoEvent,
                    }),
            decreases self.connections@.len() - i,
        {
            descriptors.push(self.connections[i].descriptor(peer_id, info_hash));
            i += 1;
        }
        descriptors
    }

    /// The swarm that the trackers' answers name: the peers of every answer
    /// that came, each peer once, in the order in which they first occur.
    pub fn announce(results: Vec<Result<Vec<PeerAddr>, Error>>) -> (peers: Vec<PeerAddr>)
        ensures
            peers@ == first_occurrences(flattened(successes(results@))),
    {
        let mut flat: Vec<PeerAddr> = Vec::new();
        let mut i: usize = 0;
        while i < results.len()
            invariant
                i <= results@.len(),
                flat@ == flattened(successes(results@.take(i as int))),
            decreases results@.len() - i,
        {
            assert(results@.take(i + 1).drop_last() =~= results@.take(i as int));
            match &results[i] {
                Ok(list) => {
                    let ghost lists = successes(results@.take(i as int));
                    assert(lists.push(*list).drop_last() =~= lists);
                    let mut k: usize = 0;
                    while k < list.len()
                        invariant
                            k <= list@.len(),
                            flat@ == flattened(lists) + list@.take(k as int),
                        decreases list@.len() - k,
                    {
                        flat.push(list[k]);
                        k += 1;
                    }
                },
                Err(_) => {},
            }
            i += 1;
        }
        assert(results@.take(i as int) =~= results@);
        unique(&flat)
    }
}

/// The addresses of `addrs` without repeats: each where it first occurs.
pub fn unique(addrs: &Vec<PeerAddr>) -> (kept: Vec<PeerAddr>)
    ensures
        kept@ == first_occurrences(addrs@),
{
    broadcast use vstd::std_specs::hash::group_hash_axioms;

    let mut seen: HashSet<u64> = HashSet::new();
    let mut kept: Vec<PeerAddr> = Vec::new();
    let mut i: usize = 0;
    while i < addrs.len()
        invariant
            i <= addrs@.len(),
            kept@ == first_occurrences(addrs@.take(i as int)),
            forall|addr: PeerAddr| seen@.contains(addr_key(addr)) <==> kept@.contains(addr),
        decreases addrs@.len() - i,
    {
        assert(addrs@.take(i + 1).drop_last() =~= addrs@.take(i as int));
        let addr = addrs[i];
        let key: u64 = (addr.ip as u64) * 0x1_0000 + addr.port as u64;
        let ghost kept_before = kept@;
        if seen.insert(key) {
            kept.push(addr);
            assert forall|other: PeerAddr| seen@.contains(addr_key(other)) <==> kept@.contains(
                other,
            ) by {
                if addr_key(other) == key {
                    assert(kept@[kept@.len() - 1] == other);
                } else {
                    if kept_before.contains(other) {
                        let j = choose|j: int| 0 <= j < kept_before.len() && kept_before[j] == other;
                        assert(kept@[j] == other);
                    }
                    if kept@.contains(other) {
                        let j = choose|j: int| 0 <= j < kept@.len() && kept@[j] == other;
                        assert(kept_before[j] == other);
                    }
                }
            }
        }
        i += 1;
    }
    assert(addrs@.take(i as int) =~= addrs@);
    kept
}

} // verus!
