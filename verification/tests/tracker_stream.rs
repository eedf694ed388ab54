use magdl::error::{Error, ProtocolError};
use magdl::tracker_stream::{
    tracker_port, unique, AnnounceEvent, AnnounceRequest, AnnounceRequestDescriptor,
    AnnounceResponse, ConnectRequest, ConnectResponse, Reply, TrackerConnection, Trackers,
    ANNOUNCE_REQUEST_BYTES, PROTOCOL_ID,
};
use magdl::PeerAddr;

fn addr(a: u8, b: u8, c: u8, d: u8, port: u16) -> PeerAddr {
    PeerAddr { ip: u32::from_be_bytes([a, b, c, d]), port }
}

#[test]
fn connect_request_bytes() {
    let request = ConnectRequest::with_transaction_id(0xAABBCCDD);
    assert_eq!(
        request.to_bytes(),
        vec![0x00, 0x00, 0x04, 0x17, 0x27, 0x10, 0x19, 0x80, 0, 0, 0, 0, 0xAA, 0xBB, 0xCC, 0xDD]
    );
    let random = ConnectRequest::new();
    assert_eq!(random.protocol_id, PROTOCOL_ID);
    assert_eq!(random.action, 0);
    assert_eq!(&random.to_bytes()[..12], &[0, 0, 4, 0x17, 0x27, 0x10, 0x19, 0x80, 0, 0, 0, 0]);
}

#[test]
fn udp_connect_gives_the_connection_id() {
    let request = ConnectRequest::with_transaction_id(0xAABBCCDD);
    let tracker = addr(9, 9, 9, 9, 2800);
    let answer = [0, 0, 0, 0, 0xAA, 0xBB, 0xCC, 0xDD, 0x11, 0x22, 0x33, 0x44, 0x55, 0x66, 0x77, 0x88];
    match TrackerConnection::connect_reply(&request, tracker, tracker, &answer) {
        Reply::Done(id) => assert_eq!(id, 0x1122334455667788),
        other => panic!("{:?}", other),
    }
    let response = ConnectResponse::from_bytes(&answer);
    assert_eq!(response.action, 0);
    assert_eq!(response.transaction_id, 0xAABBCCDD);
    assert_eq!(response.connection_id, 0x1122334455667788);
}

#[test]
fn connection_id_is_signed() {
    let answer = [0, 0, 0, 0, 0, 0, 0, 1, 0xFF, 0xFF, 0xFF, 0xFF, 0xFF, 0xFF, 0xFF, 0xFE];
    assert_eq!(ConnectResponse::from_bytes(&answer).connection_id, -2);
    let lowest = [0, 0, 0, 0, 0, 0, 0, 1, 0x80, 0, 0, 0, 0, 0, 0, 0];
    assert_eq!(ConnectResponse::from_bytes(&lowest).connection_id, i64::MIN);
}

#[test]
fn connect_response_from_elsewhere_is_ignored() {
    let request = ConnectRequest::with_transaction_id(7);
    let tracker = addr(9, 9, 9, 9, 2800);
    let answer = [0, 0, 0, 0, 0, 0, 0, 7, 0, 0, 0, 0, 0, 0, 0, 1];
    assert!(matches!(
        TrackerConnection::connect_reply(&request, tracker, addr(9, 9, 9, 9, 2801), &answer),
        Reply::Ignored
    ));
    assert!(matches!(
        TrackerConnection::connect_reply(&request, tracker, addr(9, 9, 9, 8, 2800), &[1, 2, 3]),
        Reply::Ignored
    ));
    assert!(matches!(
        TrackerConnection::connect_reply(&request, tracker, tracker, &answer),
        Reply::Done(1)
    ));
}

#[test]
fn connect_response_must_fit_and_match() {
    let request = ConnectRequest::with_transaction_id(7);
    let tracker = addr(9, 9, 9, 9, 2800);
    assert!(matches!(
        TrackerConnection::connect_reply(&request, tracker, tracker, &[0; 15]),
        Reply::Failed(ProtocolError::ResponseSize)
    ));
    assert!(matches!(
        TrackerConnection::connect_reply(&request, tracker, tracker, &[0; 17]),
        Reply::Failed(ProtocolError::ResponseSize)
    ));
    assert!(matches!(
        TrackerConnection::connect_reply(&request, tracker, tracker, &[0; 16]),
        Reply::Failed(ProtocolError::TransactionMismatch)
    ));
}

#[test]
fn sent_whole_wants_every_byte() {
    assert_eq!(TrackerConnection::sent_whole(16, 16), Ok(()));
    assert_eq!(TrackerConnection::sent_whole(15, 16), Err(Error::Transport));
}

#[test]
fn announce_event_codes() {
    assert_eq!(AnnounceEvent::NoEvent.raw_value(), 0);
    assert_eq!(AnnounceEvent::Completed.raw_value(), 1);
    assert_eq!(AnnounceEvent::Started.raw_value(), 2);
    assert_eq!(AnnounceEvent::Stopped.raw_value(), 3);
}

#[test]
fn announce_request_bytes() {
    let descriptor = AnnounceRequestDescriptor {
        connection_id: 0x1122334455667788,
        peer_id: vec![0x22; 20],
        info_hash: vec![0x11; 20],
        downloaded: 1,
        left: 0x0102030405060708,
        uploaded: u64::MAX,
        event: AnnounceEvent::Started,
    };
    let request = AnnounceRequest::with_ids(descriptor, 0xAABBCCDD, 0x01020304);
    assert_eq!(request.action, 1);
    assert_eq!(request.ip_address, 0);
    assert_eq!(request.num_want, -1);
    assert_eq!(request.port, 6881);
    let bytes = request.to_bytes();
    assert_eq!(bytes.len(), ANNOUNCE_REQUEST_BYTES);
    let mut expected = vec![0x11, 0x22, 0x33, 0x44, 0x55, 0x66, 0x77, 0x88];
    expected.extend([0, 0, 0, 1]);
    expected.extend([0xAA, 0xBB, 0xCC, 0xDD]);
    expected.extend([0x11; 20]);
    expected.extend([0x22; 20]);
    expected.extend([0, 0, 0, 0, 0, 0, 0, 1]);
    expected.extend([1, 2, 3, 4, 5, 6, 7, 8]);
    expected.extend([0xFF; 8]);
    expected.extend([0, 0, 0, 2]);
    expected.extend([0, 0, 0, 0]);
    expected.extend([1, 2, 3, 4]);
    expected.extend([0xFF, 0xFF, 0xFF, 0xFF]);
    expected.extend([0x1A, 0xE1]);
    assert_eq!(bytes, expected);
}

#[test]
fn announce_request_with_random_ids() {
    let descriptor = AnnounceRequestDescriptor {
        connection_id: -1,
        peer_id: vec![2; 20],
        info_hash: vec![1; 20],
        downloaded: 0,
        left: 0,
        uploaded: 0,
        event: AnnounceEvent::NoEvent,
    };
    let request = AnnounceRequest::new(descriptor);
    assert_eq!(request.connection_id, -1);
    assert_eq!(request.action, 1);
    assert_eq!(&request.to_bytes()[..12], &[0xFF, 0xFF, 0xFF, 0xFF, 0xFF, 0xFF, 0xFF, 0xFF, 0, 0, 0, 1]);
}

fn announce_response(transaction_id: u32, tail: &[u8]) -> Vec<u8> {
    let mut bytes = vec![0, 0, 0, 1];
    bytes.extend(transaction_id.to_be_bytes());
    bytes.extend([0, 0, 7, 8]);
    bytes.extend([0, 0, 0, 3]);
    bytes.extend([0, 0, 0, 5]);
    bytes.extend(tail);
    bytes
}

#[test]
fn announce_peer_parsing() {
    let tail = [0x0A, 0, 0, 1, 0x1A, 0xE1, 0x0A, 0, 0, 2, 0x1A, 0xE2];
    let bytes = announce_response(9, &tail);
    let response = AnnounceResponse::from_bytes(&bytes, bytes.len()).unwrap();
    assert_eq!(response.action, 1);
    assert_eq!(response.transaction_id, 9);
    assert_eq!(response.interval, 0x708);
    assert_eq!(response.leechers, 3);
    assert_eq!(response.seeders, 5);
    assert_eq!(response.peers, vec![addr(10, 0, 0, 1, 6881), addr(10, 0, 0, 2, 6882)]);
}

#[test]
fn announce_response_reads_only_its_length() {
    let mut bytes = announce_response(9, &[1, 2, 3, 4, 0, 80]);
    bytes.extend([0u8; 100]);
    let response = AnnounceResponse::from_bytes(&bytes, 26).unwrap();
    assert_eq!(response.peers, vec![addr(1, 2, 3, 4, 80)]);
    let none = AnnounceResponse::from_bytes(&bytes, 20).unwrap();
    assert!(none.peers.is_empty());
}

#[test]
fn announce_response_with_ragged_peer_list_is_rejected() {
    for extra in 1..6usize {
        let bytes = announce_response(9, &vec![1u8; 6 + extra]);
        assert_eq!(
            AnnounceResponse::from_bytes(&bytes, bytes.len()).unwrap_err(),
            ProtocolError::BadPeerList
        );
    }
    let short = [0u8; 19];
    assert_eq!(AnnounceResponse::from_bytes(&short, 19).unwrap_err(), ProtocolError::ResponseSize);
}

#[test]
fn announce_reply_filters_and_checks() {
    let tracker = TrackerConnection::new(addr(9, 9, 9, 9, 2800), 5);
    let descriptor = tracker.descriptor(&vec![2; 20], &vec![1; 20]);
    assert_eq!(descriptor.connection_id, 5);
    assert_eq!(descriptor.event, AnnounceEvent::NoEvent);
    let request = AnnounceRequest::with_ids(descriptor, 9, 1);
    let good = announce_response(9, &[10, 0, 0, 1, 0x1A, 0xE1]);
    assert!(matches!(
        tracker.announce_reply(&request, addr(1, 1, 1, 1, 2800), &good),
        Reply::Ignored
    ));
    match tracker.announce_reply(&request, tracker.addr, &good) {
        Reply::Done(peers) => assert_eq!(peers, vec![addr(10, 0, 0, 1, 6881)]),
        other => panic!("{:?}", other),
    }
    let other_transaction = announce_response(10, &[10, 0, 0, 1, 0x1A, 0xE1]);
    assert!(matches!(
        tracker.announce_reply(&request, tracker.addr, &other_transaction),
        Reply::Failed(ProtocolError::TransactionMismatch)
    ));
    let ragged = announce_response(9, &[10, 0, 0, 1, 0x1A]);
    assert!(matches!(
        tracker.announce_reply(&request, tracker.addr, &ragged),
        Reply::Failed(ProtocolError::BadPeerList)
    ));
}

#[test]
fn trackers_keep_those_that_connected() {
    let a = TrackerConnection::new(addr(1, 1, 1, 1, 80), 1);
    let b = TrackerConnection::new(addr(2, 2, 2, 2, 80), 2);
    let trackers = Trackers::new(vec![Ok(a), Err(Error::Timeout), Ok(b)]);
    assert_eq!(trackers.connections.len(), 2);
    assert_eq!(trackers.connections[0].connection_id, 1);
    assert_eq!(trackers.connections[1].connection_id, 2);
    let descriptors = trackers.descriptors(&vec![2; 20], &vec![1; 20]);
    assert_eq!(descriptors.len(), 2);
    assert_eq!(descriptors[1].connection_id, 2);
    assert_eq!(descriptors[1].peer_id, vec![2; 20]);
    assert_eq!(descriptors[1].info_hash, vec![1; 20]);
    assert_eq!((descriptors[0].downloaded, descriptors[0].left, descriptors[0].uploaded), (0, 0, 0));
}

#[test]
fn announce_flattens_and_drops_repeats() {
    let first = addr(10, 0, 0, 1, 6881);
    let second = addr(10, 0, 0, 2, 6881);
    let third = addr(10, 0, 0, 1, 6882);
    let results = vec![
        Ok(vec![first, second, first]),
        Err(Error::Timeout),
        Ok(vec![third, second]),
        Err(Error::Protocol(ProtocolError::BadPeerList)),
        Ok(vec![]),
    ];
    assert_eq!(Trackers::announce(results), vec![first, second, third]);
    assert!(Trackers::announce(vec![Err(Error::Timeout)]).is_empty());
    assert_eq!(unique(&vec![second, second, first, second, first]), vec![second, first]);
}

#[test]
fn tracker_port_defaults_to_80() {
    assert_eq!(tracker_port(None), 80);
    assert_eq!(tracker_port(Some(2800)), 2800);
}

fn error_response(transaction_id: u32, text: &[u8]) -> Vec<u8> {
    let mut bytes = vec![0, 0, 0, 3];
    bytes.extend(transaction_id.to_be_bytes());
    bytes.extend(text);
    bytes
}

#[test]
fn connect_error_response_fails_the_exchange() {
    let request = ConnectRequest::with_transaction_id(7);
    let tracker = addr(9, 9, 9, 9, 2800);
    for text in [&b""[..], &b"denied"[..], &b"8 bytes."[..], &b"a longer refusal than a connect response"[..]] {
        let datagram = error_response(7, text);
        assert!(matches!(
            TrackerConnection::connect_reply(&request, tracker, tracker, &datagram),
            Reply::Failed(ProtocolError::TrackerError)
        ));
        assert_eq!(TrackerConnection::error_message(7, &datagram), Some(text.to_vec()));
        assert!(matches!(
            TrackerConnection::connect_reply(&request, tracker, addr(1, 1, 1, 1, 1), &datagram),
            Reply::Ignored
        ));
    }
    let for_another = error_response(8, b"8 bytes.");
    assert!(matches!(
        TrackerConnection::connect_reply(&request, tracker, tracker, &for_another),
        Reply::Failed(ProtocolError::TransactionMismatch)
    ));
    assert_eq!(TrackerConnection::error_message(7, &for_another), None);
    assert_eq!(TrackerConnection::error_message(7, &[0, 0, 0, 3, 0, 0, 0]), None);
    let answer = [0, 0, 0, 0, 0, 0, 0, 7, 0, 0, 0, 0, 0, 0, 0, 1];
    assert_eq!(TrackerConnection::error_message(7, &answer), None);
}

#[test]
fn announce_error_response_fails_the_exchange() {
    let tracker = TrackerConnection::new(addr(9, 9, 9, 9, 2800), 5);
    let request = AnnounceRequest::with_ids(tracker.descriptor(&vec![2; 20], &vec![1; 20]), 9, 1);
    let fitting = error_response(9, b"torrent unknown...");
    assert_eq!(fitting.len(), 26);
    assert!(matches!(
        tracker.announce_reply(&request, tracker.addr, &fitting),
        Reply::Failed(ProtocolError::TrackerError)
    ));
    assert_eq!(TrackerConnection::error_message(9, &fitting), Some(b"torrent unknown...".to_vec()));
    let ragged = error_response(9, b"no");
    assert!(matches!(
        tracker.announce_reply(&request, tracker.addr, &ragged),
        Reply::Failed(ProtocolError::TrackerError)
    ));
    let for_another = error_response(10, b"torrent unknown...");
    assert!(matches!(
        tracker.announce_reply(&request, tracker.addr, &for_another),
        Reply::Failed(ProtocolError::TransactionMismatch)
    ));
}
