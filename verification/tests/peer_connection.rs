use magdl::connection::{Frame, TcpConnection};
use magdl::error::{Error, ProtocolError};
use magdl::identity::{new_peer_id, signed_peer_id};
use magdl::peer_codec::{Data, Handshake, PeerFrame};
use magdl::peer_connection::{PeerConnection, Phase, Step};
use magdl::peer_message::{PeerMessage, PeerMessageType};
use magdl::PeerAddr;

fn peer() -> PeerAddr {
    PeerAddr { ip: 0x0A000001, port: 6881 }
}

fn handshake_bytes(info: u8, id: u8) -> Vec<u8> {
    let mut bytes = vec![19u8];
    bytes.extend_from_slice(b"BitTorrent protocol");
    bytes.extend_from_slice(&[0u8; 8]);
    bytes.extend_from_slice(&[info; 20]);
    bytes.extend_from_slice(&[id; 20]);
    bytes
}

fn pumping() -> PeerConnection {
    let (mut session, _) = PeerConnection::connect(peer(), &[0x22; 20], &[0x11; 20]);
    assert!(matches!(session.received(&handshake_bytes(0x11, 0x33)), Step::Idle));
    assert!(matches!(session.next(), Step::Registered));
    session
}

#[test]
fn connect_gives_our_handshake() {
    let (session, hello) = PeerConnection::connect(peer(), &[0x22; 20], &[0x11; 20]);
    assert_eq!(hello, handshake_bytes(0x11, 0x22));
    assert_eq!(session.phase(), Phase::AwaitingHandshake);
    assert_eq!(session.addr(), peer());
    assert!(session.remote_peer_id().is_empty());
}

#[test]
fn handshake_registers_the_peer() {
    let (mut session, _) = PeerConnection::connect(peer(), &[0x22; 20], &[0x11; 20]);
    assert!(matches!(session.next(), Step::Idle));
    let hello = handshake_bytes(0x11, 0x33);
    assert!(matches!(session.received(&hello[..67]), Step::Idle));
    assert!(matches!(session.next(), Step::Idle));
    assert!(matches!(session.received(&hello[67..]), Step::Idle));
    assert!(matches!(session.next(), Step::Registered));
    assert_eq!(session.phase(), Phase::Pumping);
    assert_eq!(session.remote_peer_id(), &vec![0x33u8; 20]);
    assert!(matches!(session.next(), Step::Idle));
}

#[test]
fn handshake_for_another_torrent_ends_the_session() {
    let (mut session, _) = PeerConnection::connect(peer(), &[0x22; 20], &[0x11; 20]);
    session.received(&handshake_bytes(0x12, 0x33));
    match session.next() {
        Step::Closed { cancel, error } => {
            assert_eq!(error, Error::Protocol(ProtocolError::InfoHashMismatch));
            assert_eq!(cancel.message_type, PeerMessageType::Cancel);
            assert_eq!(cancel.addr, peer());
            assert!(cancel.payload.is_empty());
        }
        other => panic!("{:?}", other),
    }
    assert_eq!(session.phase(), Phase::Closed);
}

#[test]
fn data_before_the_handshake_ends_the_session() {
    let (mut session, _) = PeerConnection::connect(peer(), &[0x22; 20], &[0x11; 20]);
    session.received(&[0, 0, 0, 1, 1]);
    assert!(matches!(
        session.next(),
        Step::Closed { error: Error::Protocol(ProtocolError::MissingHandshake), .. }
    ));
}

#[test]
fn malformed_handshake_ends_the_session() {
    let (mut session, _) = PeerConnection::connect(peer(), &[0x22; 20], &[0x11; 20]);
    let mut hello = handshake_bytes(0x11, 0x33);
    hello[5] = b'x';
    session.received(&hello);
    assert!(matches!(
        session.next(),
        Step::Closed { error: Error::Protocol(ProtocolError::MalformedHandshake), .. }
    ));
}

#[test]
fn data_frames_are_forwarded_in_order() {
    let mut session = pumping();
    let mut bytes = Data { message_id: 5, payload: vec![0xC0, 0] }.encode();
    bytes.extend(Data { message_id: 1, payload: vec![] }.encode());
    bytes.extend(Data { message_id: 7, payload: vec![9; 100] }.encode());
    let mut seen = Vec::new();
    for byte in bytes {
        assert!(matches!(session.received(&[byte]), Step::Idle));
        loop {
            match session.next() {
                Step::Idle => break,
                Step::Forward(message) => seen.push(message),
                other => panic!("{:?}", other),
            }
        }
    }
    assert_eq!(seen.len(), 3);
    assert_eq!(seen[0].message_type, PeerMessageType::Bitfield);
    assert_eq!(seen[0].payload, vec![0xC0, 0]);
    assert_eq!(seen[0].addr, peer());
    assert_eq!(seen[1].message_type, PeerMessageType::Unchoke);
    assert_eq!(seen[2].message_type, PeerMessageType::Piece);
    assert_eq!(seen[2].payload, vec![9; 100]);
}

#[test]
fn keep_alive_is_not_forwarded_and_choke_is() {
    let mut session = pumping();
    session.received(&[0, 0, 0, 0, 0, 0, 0, 1, 0]);
    assert!(matches!(session.next(), Step::KeepAlive));
    match session.next() {
        Step::Forward(message) => {
            assert_eq!(message.message_type, PeerMessageType::Choke);
            assert!(message.payload.is_empty());
        }
        other => panic!("{:?}", other),
    }
    assert!(matches!(session.next(), Step::Idle));
    assert_eq!(session.phase(), Phase::Pumping);
}

#[test]
fn end_of_stream_delivers_one_cancel() {
    let mut session = pumping();
    match session.received(&[]) {
        Step::Closed { cancel, error } => {
            assert_eq!(error, Error::Transport);
            assert_eq!(cancel.message_type, PeerMessageType::Cancel);
            assert_eq!(cancel.addr, peer());
        }
        other => panic!("{:?}", other),
    }
    assert_eq!(session.phase(), Phase::Closed);
    assert!(matches!(session.received(&[]), Step::Idle));
    assert!(matches!(session.received(&[0, 0, 0, 1, 1]), Step::Idle));
    assert!(matches!(session.next(), Step::Idle));
    assert!(matches!(session.ended(Error::Transport), Step::Idle));
    assert!(matches!(session.outbound(None), Step::Idle));
}

#[test]
fn every_way_out_closes_with_a_cancel() {
    let mut by_timeout = pumping();
    assert!(matches!(by_timeout.ended(Error::Timeout), Step::Closed { error: Error::Timeout, .. }));
    let mut by_channel = pumping();
    assert!(matches!(by_channel.outbound(None), Step::Closed { error: Error::ChannelClosed, .. }));
    let mut by_bad_id = pumping();
    by_bad_id.received(&[0, 0, 0, 1, 10]);
    assert!(matches!(
        by_bad_id.next(),
        Step::Closed { error: Error::Protocol(ProtocolError::BadMessageId), .. }
    ));
    let mut by_handshake = pumping();
    by_handshake.received(&handshake_bytes(0x11, 0x33));
    assert!(matches!(
        by_handshake.next(),
        Step::Closed { error: Error::Protocol(ProtocolError::UnexpectedHandshake), .. }
    ));
    let (mut early, _) = PeerConnection::connect(peer(), &[0x22; 20], &[0x11; 20]);
    assert!(matches!(early.received(&[]), Step::Closed { error: Error::Transport, .. }));
}

#[test]
fn outbound_messages_become_frames_once_pumping() {
    let request = || PeerMessage {
        message_type: PeerMessageType::Request,
        payload: vec![0, 0, 0, 0, 0, 0, 0, 0, 0, 0, 0x40, 0],
        addr: peer(),
    };
    let (mut early, _) = PeerConnection::connect(peer(), &[0x22; 20], &[0x11; 20]);
    match early.outbound(Some(request())) {
        Step::Held(message) => assert_eq!(message.message_type, PeerMessageType::Request),
        other => panic!("{:?}", other),
    }
    let mut session = pumping();
    match session.outbound(Some(request())) {
        Step::Write(bytes) => {
            assert_eq!(bytes, vec![0, 0, 0, 13, 6, 0, 0, 0, 0, 0, 0, 0, 0, 0, 0, 0x40, 0])
        }
        other => panic!("{:?}", other),
    }
    let interested = PeerMessage { message_type: PeerMessageType::Interested, payload: vec![], addr: peer() };
    match session.outbound(Some(interested)) {
        Step::Write(bytes) => assert_eq!(bytes, vec![0, 0, 0, 1, 2]),
        other => panic!("{:?}", other),
    }
}

#[test]
fn long_frames_in_parts_do_not_trip_the_session() {
    let mut session = pumping();
    let frame = Data { message_id: 7, payload: vec![1; 5000] }.encode();
    assert!(matches!(session.received(&frame[..68]), Step::Idle));
    assert!(matches!(session.next(), Step::Idle));
    assert!(matches!(session.received(&frame[68..]), Step::Idle));
    match session.next() {
        Step::Forward(message) => assert_eq!(message.payload.len(), 5000),
        other => panic!("{:?}", other),
    }
}

#[test]
fn frames_from_a_connection_buffer() {
    let mut connection = TcpConnection::establish();
    let mut bytes = handshake_bytes(1, 2);
    bytes.extend(Data { message_id: 5, payload: vec![0xFF] }.encode());
    bytes.extend(&[0, 0, 0, 9, 7, 1][..]);
    let frames: Vec<PeerFrame> = connection.read(&bytes).unwrap();
    assert_eq!(frames.len(), 2);
    assert!(matches!(&frames[0], PeerFrame::Handshake(h) if h.peer_id == vec![2; 20]));
    assert!(matches!(&frames[1], PeerFrame::Data(d) if d.message_id == 5 && d.payload == vec![0xFF]));
    let none: Vec<PeerFrame> = connection.try_read(None).unwrap();
    assert!(none.is_empty());
    let more: Vec<PeerFrame> = connection.try_read(Some(&[2, 3, 4, 5, 6, 7, 8, 0, 0, 0, 0])).unwrap();
    assert_eq!(more.len(), 2);
    assert!(matches!(&more[0], PeerFrame::Data(d) if d.message_id == 7 && d.payload == vec![1, 2, 3, 4, 5, 6, 7, 8]));
    assert!(matches!(&more[1], PeerFrame::Data(d) if d.message_id == 0 && d.payload.is_empty()));
    assert_eq!(connection.read::<PeerFrame>(&[]).unwrap_err(), Error::Transport);
    assert_eq!(connection.try_read::<PeerFrame>(Some(&[])).unwrap_err(), Error::Transport);
}

#[test]
fn frame_trait_reads_and_writes() {
    assert!(PeerFrame::from_bytes(&[0, 0, 0, 1, 12]).is_none());
    assert!(PeerFrame::from_bytes(&[0, 0, 0, 2, 1]).is_none());
    let (frame, size) = PeerFrame::from_bytes(&[0, 0, 0, 2, 1, 5, 6]).unwrap();
    assert_eq!(size, 6);
    assert_eq!(frame.to_bytes(), vec![0, 0, 0, 2, 1, 5]);
    let frames = vec![
        PeerFrame::Handshake(Handshake {
            pstr: b"BitTorrent protocol".to_vec(),
            info_hash: vec![1; 20],
            peer_id: vec![2; 20],
        }),
        PeerFrame::Data(Data { message_id: 2, payload: vec![] }),
    ];
    let mut expected = handshake_bytes(1, 2);
    expected.extend([0, 0, 0, 1, 2]);
    assert_eq!(TcpConnection::write(&frames), expected);
    assert!(TcpConnection::write::<PeerFrame>(&[]).is_empty());
}

#[test]
fn peer_id_carries_the_signature() {
    let id = new_peer_id();
    assert_eq!(id.len(), 20);
    assert_eq!(&id[..8], b"-WM0001-");
    let seed: Vec<u8> = (100..120).collect();
    let signed = signed_peer_id(&seed);
    assert_eq!(&signed[..8], b"-WM0001-");
    assert_eq!(&signed[8..], &seed[8..]);
}

#[test]
fn handle_messages_works_off_everything_that_is_whole() {
    let (mut session, _) = PeerConnection::connect(peer(), &[0x22; 20], &[0x11; 20]);
    assert!(session.handle_messages().is_empty());
    let mut bytes = handshake_bytes(0x11, 0x33);
    bytes.extend([0, 0, 0, 0]);
    bytes.extend(Data { message_id: 1, payload: vec![] }.encode());
    bytes.extend(Data { message_id: 4, payload: vec![0, 0, 0, 9] }.encode());
    bytes.extend([0, 0, 0, 2, 7]);
    session.received(&bytes);
    let steps = session.handle_messages();
    assert_eq!(steps.len(), 4);
    assert!(matches!(steps[0], Step::Registered));
    assert!(matches!(steps[1], Step::KeepAlive));
    assert!(matches!(&steps[2], Step::Forward(m) if m.message_type == PeerMessageType::Unchoke));
    assert!(matches!(&steps[3], Step::Forward(m) if m.message_type == PeerMessageType::Have && m.payload == vec![0, 0, 0, 9]));
    assert!(session.handle_messages().is_empty());
    session.received(&[0xAA, 0, 0, 0, 1, 11, 0, 0, 0, 1, 1]);
    let steps = session.handle_messages();
    assert_eq!(steps.len(), 2);
    assert!(matches!(&steps[0], Step::Forward(m) if m.message_type == PeerMessageType::Piece && m.payload == vec![0xAA]));
    assert!(matches!(
        &steps[1],
        Step::Closed { error: Error::Protocol(ProtocolError::BadMessageId), cancel } if cancel.message_type == PeerMessageType::Cancel
    ));
    assert_eq!(session.phase(), Phase::Closed);
    assert!(session.handle_messages().is_empty());
}

#[test]
fn addresses_from_octets() {
    let addr = PeerAddr::from_octets(10, 0, 0, 1, 6881);
    assert_eq!(addr, PeerAddr { ip: 0x0A000001, port: 6881 });
    assert_eq!(PeerAddr::from_octets(255, 255, 255, 255, 0).ip, u32::MAX);
}
