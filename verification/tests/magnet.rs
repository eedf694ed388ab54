use magdl::magnet::Magnet;

const LINK: &str = "magnet:?xt=urn:btih:73103935E5CA2B132DA9C5B716A012CEFC67E6BA&dn=Succession.S03E06.1080p.WEB.H264-CAKES&tr=http%3A%2F%2Ftracker.trackerfix.com%3A80%2Fannounce&tr=udp%3A%2F%2F9.rarbg.me%3A2800%2Fannounce&tr=udp%3A%2F%2Ftracker.opentrackr.org%3A1337%2Fannounce";

#[test]
fn a_full_link() {
    let magnet = Magnet::from_link_string(LINK).unwrap();
    assert_eq!(
        magnet.info_hash,
        vec![
            0x73, 0x10, 0x39, 0x35, 0xE5, 0xCA, 0x2B, 0x13, 0x2D, 0xA9, 0xC5, 0xB7, 0x16, 0xA0,
            0x12, 0xCE, 0xFC, 0x67, 0xE6, 0xBA
        ]
    );
    assert_eq!(magnet.display_name, "Succession.S03E06.1080p.WEB.H264-CAKES");
    let urls: Vec<&str> = magnet.tracker_urls.iter().map(|u| u.as_str()).collect();
    assert_eq!(
        urls,
        vec![
            "http://tracker.trackerfix.com/announce",
            "udp://9.rarbg.me:2800/announce",
            "udp://tracker.opentrackr.org:1337/announce"
        ]
    );
    assert_eq!(magnet.tracker_urls[1].host_str(), Some("9.rarbg.me"));
    assert_eq!(magnet.tracker_urls[1].port(), Some(2800));
    assert_eq!(magnet.tracker_urls[0].port(), None);
}

#[test]
fn hash_digits_of_either_case() {
    let magnet =
        Magnet::from_link_string("magnet:?xt=urn:btih:00112233445566778899aAbBcCdDeEfF00010203")
            .unwrap();
    assert_eq!(
        magnet.info_hash,
        vec![
            0x00, 0x11, 0x22, 0x33, 0x44, 0x55, 0x66, 0x77, 0x88, 0x99, 0xAA, 0xBB, 0xCC, 0xDD,
            0xEE, 0xFF, 0x00, 0x01, 0x02, 0x03
        ]
    );
    assert!(magnet.display_name.is_empty());
    assert!(magnet.tracker_urls.is_empty());
}

#[test]
fn later_items_win_and_unknown_keys_pass() {
    let link = "magnet:?dn=first&xl=12345&dn=a%20b%3Dc=d&tr=not%20a%20url&tr=udp://t.example:6969";
    let magnet = Magnet::from_link_string(link).unwrap();
    assert_eq!(magnet.display_name, "a b=c=d");
    assert_eq!(magnet.info_hash, vec![0u8; 20]);
    assert_eq!(magnet.tracker_urls.len(), 1);
    assert_eq!(magnet.tracker_urls[0].port(), Some(6969));
}

#[test]
fn the_scheme_is_passed_over_unread() {
    let magnet = Magnet::from_link_string("12345678dn=x").unwrap();
    assert_eq!(magnet.display_name, "x");
    let decoded = Magnet::from_decoded(b"magnet:?dn=%41&dn=").unwrap();
    assert!(decoded.display_name.is_empty());
}

#[test]
fn malformed_links_are_refused() {
    assert!(Magnet::from_link_string("magnet").is_none());
    assert!(Magnet::from_link_string("magnet:?").is_none());
    assert!(Magnet::from_link_string("magnet:?dn").is_none());
    assert!(Magnet::from_link_string("magnet:?dn=a&").is_none());
    assert!(Magnet::from_link_string("magnet:?dn=a&&tr=x").is_none());
    assert!(Magnet::from_link_string("magnet:?xt=urn:btih:0011").is_none());
    assert!(Magnet::from_link_string(
        "magnet:?xt=urn:btih:0011223344556677889gaabbccddeeff00010203"
    )
    .is_none());
    assert!(Magnet::from_link_string("magnet:?dn=%FF").is_none());
    assert!(Magnet::from_link_string("magnet:\u{e9}dn=x").is_none());
    assert!(Magnet::from_decoded(&[b'm', b'a', b'g', b'n', b'e', b't', b':', 0xC3, 0xA9, b'=']).is_none());
    assert!(Magnet::from_decoded(b"magnet:?dn=\xFF").is_none());
    assert!(Magnet::from_decoded(b"magnet:?dn=\xC3").is_none());
}

#[test]
fn display_name_is_text() {
    let magnet = Magnet::from_link_string("magnet:?dn=caf%C3%A9%20%E2%9C%93").unwrap();
    assert_eq!(magnet.display_name, "caf\u{e9} \u{2713}");
    let other = Magnet::from_decoded("magnet:?xl=\u{e9}&dn=\u{e9}t\u{e9}".as_bytes()).unwrap();
    assert_eq!(other.display_name, "\u{e9}t\u{e9}");
    assert!(Magnet::from_decoded(b"magnet:?xl=\xFF&tr=\xFF").unwrap().tracker_urls.is_empty());
}
