use bytes::{BufMut, BytesMut};
use magdl::codec::{Decoder, Encoder, Framed, Next};
use magdl::error::ProtocolError;
use magdl::peer_codec::{
    protocol_bytes, Data, Handshake, PeerCodec, PeerFrame, BITTORRENT_PROTOCOL, HANDSHAKE_SIZE,
};

fn handshake_bytes(info: u8, peer: u8) -> Vec<u8> {
    let mut bytes = vec![19u8];
    bytes.extend_from_slice(b"BitTorrent protocol");
    bytes.extend_from_slice(&[0u8; 8]);
    bytes.extend_from_slice(&[info; 20]);
    bytes.extend_from_slice(&[peer; 20]);
    bytes
}

#[test]
fn test_decode_handshake() {
    let mut codec = PeerCodec::new();
    let mut bytes = BytesMut::new();
    bytes.put_u8(19);
    bytes.put(BITTORRENT_PROTOCOL.as_bytes());
    bytes.put_int(0, 8);
    let info_hash = vec![1u8; 20];
    let peer_id = vec![2u8; 20];
    bytes.put(info_hash.as_slice());
    bytes.put(peer_id.as_slice());
    if let PeerFrame::Handshake(hs) = codec.decode(&mut bytes).unwrap().unwrap() {
        assert_eq!(hs.pstr, BITTORRENT_PROTOCOL.as_bytes());
        assert_eq!(hs.info_hash, info_hash);
        assert_eq!(hs.peer_id, peer_id);
    } else {
        assert!(false);
    }
}

#[test]
fn test_decode_data() {
    let mut codec = PeerCodec::new();
    let mut bytes = BytesMut::new();
    bytes.put_u32(20);
    bytes.put_u8(5);
    let payload = vec![1u8; 19];
    bytes.put(payload.as_slice());
    if let PeerFrame::Data(d) = codec.decode(&mut bytes).unwrap().unwrap() {
        assert_eq!(d.message_id, 5);
        assert_eq!(d.payload, vec![1u8; 19]);
    } else {
        assert!(false);
    }
}

#[test]
fn protocol_name_is_the_constant() {
    assert_eq!(protocol_bytes(), BITTORRENT_PROTOCOL.as_bytes());
    assert_eq!(protocol_bytes().len(), 19);
    assert_eq!(HANDSHAKE_SIZE, 68);
}

#[test]
fn happy_handshake_consumes_68_bytes() {
    let mut codec = PeerCodec::new();
    let mut buf = BytesMut::from(&handshake_bytes(0x11, 0x22)[..]);
    buf.put_slice(&[0xEE, 0xFF]);
    match codec.decode(&mut buf).unwrap().unwrap() {
        PeerFrame::Handshake(hs) => {
            assert_eq!(hs.info_hash, vec![0x11u8; 20]);
            assert_eq!(hs.peer_id, vec![0x22u8; 20]);
        }
        PeerFrame::Data(_) => panic!("a data frame"),
    }
    assert_eq!(&buf[..], &[0xEE, 0xFF]);
}

#[test]
fn handshake_of_67_bytes_is_incomplete_and_68_is_one_frame() {
    let all = handshake_bytes(3, 4);
    let mut codec = PeerCodec::new();
    let mut buf = BytesMut::from(&all[..67]);
    assert!(codec.decode(&mut buf).unwrap().is_none());
    assert_eq!(buf.len(), 67);
    assert!(Handshake::decode(&mut buf).unwrap().is_none());
    assert_eq!(buf.len(), 67);
    buf.put_u8(all[67]);
    assert!(matches!(codec.decode(&mut buf).unwrap(), Some(PeerFrame::Handshake(_))));
    assert_eq!(buf.len(), 0);
    assert!(codec.decode(&mut buf).unwrap().is_none());
}

#[test]
fn malformed_handshake_is_a_protocol_error() {
    let mut wrong_length = handshake_bytes(1, 2);
    wrong_length[0] = 18;
    let mut buf = BytesMut::from(&wrong_length[..]);
    assert_eq!(Handshake::decode(&mut buf).unwrap_err(), ProtocolError::MalformedHandshake);
    assert_eq!(buf.len(), 68);

    let mut wrong_name = handshake_bytes(1, 2);
    wrong_name[19] = b'L';
    let mut buf = BytesMut::from(&wrong_name[..]);
    assert_eq!(Handshake::decode(&mut buf).unwrap_err(), ProtocolError::MalformedHandshake);
    let mut codec = PeerCodec::new();
    assert!(codec.decode(&mut buf).unwrap().is_none());
    assert_eq!(buf.len(), 68);
}

#[test]
fn keep_alive_then_unchoke() {
    let mut codec = PeerCodec::new();
    let mut buf = BytesMut::from(&[0u8, 0, 0, 0, 0, 0, 0, 1, 1][..]);
    match codec.decode(&mut buf).unwrap().unwrap() {
        PeerFrame::Data(d) => {
            assert_eq!(d.message_id, 0);
            assert!(d.payload.is_empty());
        }
        PeerFrame::Handshake(_) => panic!("a handshake"),
    }
    assert_eq!(buf.len(), 5);
    match codec.decode(&mut buf).unwrap().unwrap() {
        PeerFrame::Data(d) => {
            assert_eq!(d.message_id, 1);
            assert!(d.payload.is_empty());
        }
        PeerFrame::Handshake(_) => panic!("a handshake"),
    }
    assert_eq!(buf.len(), 0);
}

#[test]
fn data_frame_waits_for_its_last_byte() {
    let mut buf = BytesMut::from(&[0u8, 0, 0, 3, 4, 9][..]);
    assert!(Data::decode(&mut buf).unwrap().is_none());
    assert_eq!(buf.len(), 6);
    buf.put_u8(8);
    buf.put_u8(0xAB);
    let d = Data::decode(&mut buf).unwrap().unwrap();
    assert_eq!(d.message_id, 4);
    assert_eq!(d.payload, vec![9, 8]);
    assert_eq!(&buf[..], &[0xAB]);
}

#[test]
fn message_code_above_nine_is_a_protocol_error() {
    let mut buf = BytesMut::from(&[0u8, 0, 0, 1, 10][..]);
    assert_eq!(Data::decode(&mut buf).unwrap_err(), ProtocolError::BadMessageId);
    assert_eq!(buf.len(), 5);
    let mut codec = PeerCodec::new();
    assert_eq!(codec.decode(&mut buf).unwrap_err(), ProtocolError::BadMessageId);
    let mut ok = BytesMut::from(&[0u8, 0, 0, 1, 9][..]);
    assert_eq!(Data::decode(&mut ok).unwrap().unwrap().message_id, 9);
}

#[test]
fn slice_parsers_report_what_they_consumed() {
    let (d, n) = Data::from_bytes(&[0, 0, 0, 2, 7, 0x55, 1, 2, 3]).unwrap().unwrap();
    assert_eq!((d.message_id, d.payload, n), (7, vec![0x55], 6));
    let (d, n) = Data::from_bytes(&[0, 0, 0, 0, 9]).unwrap().unwrap();
    assert_eq!((d.message_id, d.payload.len(), n), (0, 0, 4));
    assert!(Data::from_bytes(&[0, 0, 0]).unwrap().is_none());
    let (h, n) = Handshake::from_bytes(&handshake_bytes(7, 8)).unwrap().unwrap();
    assert_eq!(n, 68);
    assert_eq!(h.pstr, b"BitTorrent protocol");
    assert_eq!(h.info_hash, vec![7u8; 20]);
    assert_eq!(h.peer_id, vec![8u8; 20]);
}

#[test]
fn encodings_are_byte_exact() {
    let h = Handshake { pstr: protocol_bytes(), info_hash: vec![0x11; 20], peer_id: vec![0x22; 20] };
    assert_eq!(h.encode(), handshake_bytes(0x11, 0x22));
    let d = Data { message_id: 6, payload: vec![1, 2, 3] };
    assert_eq!(d.encode(), vec![0, 0, 0, 4, 6, 1, 2, 3]);
    let choke = Data { message_id: 0, payload: Vec::new() };
    assert_eq!(choke.encode(), vec![0, 0, 0, 1, 0]);
    let long = Data { message_id: 7, payload: vec![9; 0x1_02_03] };
    assert_eq!(&long.encode()[..5], &[0, 1, 2, 4, 7]);
}

#[test]
fn round_trip_of_handshake_and_data() {
    let mut codec = PeerCodec::new();
    let mut buf = BytesMut::new();
    let h = Handshake { pstr: protocol_bytes(), info_hash: (0..20).collect(), peer_id: (20..40).collect() };
    codec.encode(PeerFrame::Handshake(h), &mut buf).unwrap();
    assert_eq!(buf.len(), 68);
    for id in 0..=9u8 {
        let d = Data { message_id: id, payload: vec![id; id as usize * 7] };
        codec.encode(PeerFrame::Data(d), &mut buf).unwrap();
    }
    match codec.decode(&mut buf).unwrap().unwrap() {
        PeerFrame::Handshake(h) => {
            assert_eq!(h.pstr, b"BitTorrent protocol");
            assert_eq!(h.info_hash, (0..20).collect::<Vec<u8>>());
            assert_eq!(h.peer_id, (20..40).collect::<Vec<u8>>());
        }
        PeerFrame::Data(_) => panic!("a data frame"),
    }
    for id in 0..=9u8 {
        match codec.decode(&mut buf).unwrap().unwrap() {
            PeerFrame::Data(d) => {
                assert_eq!(d.message_id, id);
                assert_eq!(d.payload, vec![id; id as usize * 7]);
            }
            PeerFrame::Handshake(_) => panic!("a handshake"),
        }
    }
    assert!(buf.is_empty());
}

#[test]
fn two_frames_fed_byte_by_byte_come_out_in_order() {
    let first = Data { message_id: 5, payload: vec![0xC0, 0x00] };
    let second = Data { message_id: 7, payload: vec![3; 200] };
    let mut stream = first.encode();
    stream.extend(second.encode());
    let mut buf = BytesMut::new();
    let mut seen = Vec::new();
    for byte in stream {
        buf.put_u8(byte);
        if let Some(d) = Data::decode(&mut buf).unwrap() {
            seen.push((d.message_id, d.payload));
        }
    }
    assert_eq!(seen, vec![(5, vec![0xC0, 0x00]), (7, vec![3; 200])]);
    assert!(buf.is_empty());
}

fn fed_to_the_codec(stream: &[u8]) -> Vec<PeerFrame> {
    let mut codec = PeerCodec::new();
    let mut buf = BytesMut::new();
    let mut frames = Vec::new();
    for byte in stream {
        buf.put_u8(*byte);
        while let Some(frame) = codec.decode(&mut buf).unwrap() {
            frames.push(frame);
        }
    }
    assert!(buf.is_empty());
    frames
}

#[test]
fn frames_fed_byte_by_byte_to_the_codec_come_out_in_order() {
    let mut stream = handshake_bytes(1, 2);
    stream.extend(Data { message_id: 1, payload: Vec::new() }.encode());
    let frames = fed_to_the_codec(&stream);
    assert_eq!(frames.len(), 2);
    assert!(matches!(&frames[0], PeerFrame::Handshake(h) if h.info_hash == vec![1; 20] && h.peer_id == vec![2; 20]));
    assert!(matches!(&frames[1], PeerFrame::Data(d) if d.message_id == 1 && d.payload.is_empty()));
}

#[test]
fn long_frames_fed_byte_by_byte_to_the_codec_come_out_in_order() {
    let mut stream = Data { message_id: 7, payload: vec![0; 64] }.encode();
    stream.extend(Data { message_id: 5, payload: vec![0xAB; 300] }.encode());
    stream.extend(handshake_bytes(3, 4));
    stream.extend(Data { message_id: 9, payload: vec![1, 2] }.encode());
    let frames = fed_to_the_codec(&stream);
    assert_eq!(frames.len(), 4);
    assert!(matches!(&frames[0], PeerFrame::Data(d) if d.message_id == 7 && d.payload == vec![0; 64]));
    assert!(matches!(&frames[1], PeerFrame::Data(d) if d.message_id == 5 && d.payload == vec![0xAB; 300]));
    assert!(matches!(&frames[2], PeerFrame::Handshake(h) if h.info_hash == vec![3; 20]));
    assert!(matches!(&frames[3], PeerFrame::Data(d) if d.message_id == 9 && d.payload == vec![1, 2]));
}

#[test]
fn long_data_frame_in_parts_is_incomplete_until_it_is_whole() {
    let frame = Data { message_id: 7, payload: vec![0; 64] }.encode();
    let mut codec = PeerCodec::new();
    let mut buf = BytesMut::from(&frame[..68]);
    assert!(codec.decode(&mut buf).unwrap().is_none());
    assert_eq!(buf.len(), 68);
    assert!(Data::decode(&mut buf).unwrap().is_none());
    assert_eq!(Handshake::decode(&mut buf).unwrap_err(), ProtocolError::MalformedHandshake);
    buf.put_u8(frame[68]);
    assert!(matches!(codec.decode(&mut buf).unwrap(), Some(PeerFrame::Data(d)) if d.payload.len() == 64));
    assert!(buf.is_empty());
}

#[test]
fn decode_eof_rejects_leftover_bytes() {
    let mut codec = PeerCodec::new();
    let mut empty = BytesMut::new();
    assert!(codec.decode_eof(&mut empty).unwrap().is_none());
    let mut partial = BytesMut::from(&[0u8, 0, 0, 5, 1][..]);
    assert_eq!(codec.decode_eof(&mut partial).unwrap_err(), ProtocolError::BytesRemaining);
    let mut whole = BytesMut::from(&[0u8, 0, 0, 1, 2][..]);
    assert!(matches!(codec.decode_eof(&mut whole).unwrap(), Some(PeerFrame::Data(_))));
}

#[test]
fn framed_hands_out_frames_as_bytes_arrive() {
    let mut framed = PeerCodec::new().framed();
    assert!(matches!(framed.poll_buffered(), Next::Read));
    let mut bytes = Data { message_id: 4, payload: vec![0, 0, 0, 11] }.encode();
    bytes.extend(Data { message_id: 4, payload: vec![0, 0, 0, 2] }.encode());
    bytes.extend(&[0, 0, 0, 5, 4, 0, 0][..]);
    match framed.poll_read(&bytes) {
        Next::Frame(PeerFrame::Data(d)) => assert_eq!(d.payload, vec![0, 0, 0, 11]),
        _ => panic!("no frame"),
    }
    match framed.poll_buffered() {
        Next::Frame(PeerFrame::Data(d)) => assert_eq!(d.payload, vec![0, 0, 0, 2]),
        _ => panic!("no frame"),
    }
    assert!(matches!(framed.poll_buffered(), Next::Read));
    assert!(matches!(framed.poll_read(&[0]), Next::Read));
    match framed.poll_read(&[5]) {
        Next::Frame(PeerFrame::Data(d)) => assert_eq!(d.payload, vec![0, 0, 0, 5]),
        _ => panic!("no frame"),
    }
    assert!(matches!(framed.poll_read(&[]), Next::End));
    let mut broken = Framed::new(PeerCodec::new());
    assert!(matches!(broken.poll_read(&[0, 0, 0, 1, 77]), Next::End));
}
