//! Magnet links: the info hash, the display name and the tracker URLs that a
//! link names.
//!
//! A link is percent-decoded by the `urlencoding` crate, the info hash is
//! read by the `hex` crate, and tracker URLs are parsed by the `url` crate.
//! What lies between those calls is decided here: a link is eight bytes of
//! scheme, then `key=value` items separated by `&`.

use crate::identity::ID_SIZE;
use crate::wire;
use std::str::FromStr;
use vstd::prelude::*;
use vstd::slice::slice_subrange;

verus! {

/// `url::Url`, a value that the verifier carries through and never looks
/// into.
#[verifier::external_type_specification]
#[verifier::external_body]
pub struct ExUrl(url::Url);

/// The bytes that `urlencoding::decode` makes of a text, or `None` where it
/// fails because what comes out is not UTF-8.
pub uninterp spec fn percent_decoded(text: Seq<char>) -> Option<Seq<u8>>;

/// The URL that `url::Url::from_str` reads from a text, or `None` where it
/// rejects the text or the text is not UTF-8.
pub uninterp spec fn parsed_url(text: Seq<u8>) -> Option<url::Url>;

/// The value of one hexadecimal digit, in either case.
pub open spec fn hex_digit(c: u8) -> Option<int> {
    if 0x30 <= c <= 0x39 {
        Some(c - 0x30)
    } else if 0x41 <= c <= 0x46 {
        Some(c - 0x41 + 10)
    } else if 0x61 <= c <= 0x66 {
        Some(c - 0x61 + 10)
    } else {
        None
    }
}

/// The bytes that a text of hexadecimal digits spells, two digits to the
/// byte, or `None` where the text has an odd length or holds anything else.
pub open spec fn hex_decoded(text: Seq<u8>) -> Option<Seq<u8>> {
    if text.len() % 2 != 0 || exists|i: int| 0 <= i < text.len() && hex_digit(text[i]) is None {
        None
    } else {
        Some(
            Seq::new(
                text.len() / 2,
                |i: int| (hex_digit(text[2 * i])->0 * 16 + hex_digit(text[2 * i + 1])->0) as u8,
            ),
        )
    }
}

/// `urlencoding::decode`, with the decoded text handed out as its bytes.
#[verifier::external_body]
fn percent_decode(text: &str) -> (r: Option<Vec<u8>>)
    ensures
        match percent_decoded(text@) {
            Some(bytes) => r matches Some(decoded) && decoded@ == bytes,
            None => r is None,
        },
{
    match urlencoding::decode(text) {
        Ok(decoded) => Some(decoded.into_owned().into_bytes()),
        Err(_) => None,
    }
}

/// `String::from_utf8`: the string whose UTF-8 bytes are `bytes`, where they
/// are UTF-8 at all.
#[verifier::external_body]
fn utf8_string(bytes: Vec<u8>) -> (r: Option<String>)
    ensures
        r is Some <==> vstd::utf8::valid_utf8(bytes@),
        r matches Some(text) ==> vstd::utf8::encode_utf8(text@) == bytes@,
{
    String::from_utf8(bytes).ok()
}

/// `hex::decode`: two hexadecimal digits of either case make one byte, the
/// first digit the high half; a text of odd length, or with a byte that is no
/// digit, is rejected.
#[verifier::external_body]
fn hex_decode(text: &[u8]) -> (r: Option<Vec<u8>>)
    ensures
        match hex_decoded(text@) {
            Some(bytes) => r matches Some(decoded) && decoded@ == bytes,
            None => r is None,
        },
{
    hex::decode(text).ok()
}

/// `url::Url::from_str` on the text that `text` spells in UTF-8.
#[verifier::external_body]
fn parse_url(text: &[u8]) -> (r: Option<url::Url>)
    ensures
        r == parsed_url(text@),
{
    match std::str::from_utf8(text) {
        Ok(text) => url::Url::from_str(text).ok(),
        Err(_) => None,
    }
}

/// Bytes of a link before its first item: `magnet:?`.
pub const SCHEME_SIZE: usize = 8;

/// Hexadecimal digits that spell an info hash.
pub const HASH_DIGITS: usize = 40;

/// Where `byte` first stands in `s`, or the length of `s` if it stands
/// nowhere.
pub open spec fn index_of(s: Seq<u8>, byte: u8) -> int
    decreases s.len(),
{
    if s.len() == 0 || s[0] == byte {
        0
    } else {
        1 + index_of(s.skip(1), byte)
    }
}

/// Whether `byte` continues a UTF-8 character rather than beginning one.
pub open spec fn is_continuation(byte: u8) -> bool {
    0x80 <= byte < 0xC0
}

/// The key of the item that names the torrent: `xt`.
pub open spec fn exact_topic_key() -> Seq<u8> {
    seq![0x78u8, 0x74]
}

/// The key of the item that holds the display name: `dn`.
pub open spec fn display_name_key() -> Seq<u8> {
    seq![0x64u8, 0x6e]
}

/// The key of an item that holds a tracker URL: `tr`.
pub open spec fn tracker_key() -> Seq<u8> {
    seq![0x74u8, 0x72]
}

/// What a magnet link says.
#[derive(Debug)]
pub struct Magnet {
    pub tracker_urls: Vec<url::Url>,
    pub info_hash: Vec<u8>,
    pub display_name: String,
}

/// A `Magnet` as plain values.
pub struct MagnetView {
    pub tracker_urls: Seq<url::Url>,
    pub info_hash: Seq<u8>,
    /// The display name, as the bytes that spell it in UTF-8.
    pub display_name: Seq<u8>,
}

impl View for Magnet {
    type V = MagnetView;

    open spec fn view(&self) -> MagnetView {
        MagnetView {
            tracker_urls: self.tracker_urls@,
            info_hash: self.info_hash@,
            display_name: vstd::utf8::encode_utf8(self.display_name@),
        }
    }
}

impl MagnetView {
    /// What a link without items says: no tracker, no name, and an info hash
    /// of twenty zero bytes.
    pub open spec fn blank() -> MagnetView {
        MagnetView {
            tracker_urls: Seq::empty(),
            info_hash: Seq::new(ID_SIZE as nat, |i: int| 0u8),
            display_name: Seq::empty(),
        }
    }

    /// What the link says once one more item has been read, or `None` where
    /// the item is malformed.
    ///
    /// An item is a key and a value around its first `=`. The last forty bytes
    /// of an `xt` value are the info hash in hexadecimal; a `dn` value is the
    /// display name; a `tr` value is a tracker if it is a URL, and is passed
    /// over if it is not. Items with other keys are passed over. An item
    /// without `=`, an `xt` value that does not end in forty hexadecimal
    /// digits, and a `dn` value that is not UTF-8 make the link malformed.
    pub open spec fn with_item(self, item: Seq<u8>) -> Option<MagnetView> {
        let split = index_of(item, 0x3d);
        let key = item.take(split);
        let value = item.skip(split + 1);
        if split >= item.len() {
            None
        } else if key == exact_topic_key() {
            if value.len() < HASH_DIGITS {
                None
            } else {
                match hex_decoded(value.skip(value.len() - HASH_DIGITS)) {
                    Some(info_hash) => Some(MagnetView { info_hash, ..self }),
                    None => None,
                }
            }
        } else if key == display_name_key() {
            if vstd::utf8::valid_utf8(value) {
                Some(MagnetView { display_name: value, ..self })
            } else {
                None
            }
        } else if key == tracker_key() {
            match parsed_url(value) {
                Some(url) => Some(MagnetView { tracker_urls: self.tracker_urls.push(url), ..self }),
                None => Some(self),
            }
        } else {
            Some(self)
        }
    }

    /// What the link says once the items of `text`, separated by `&`, have
    /// been read in order, or `None` where one of them is malformed.
    pub open spec fn with_items(self, text: Seq<u8>) -> Option<MagnetView>
        decreases text.len(),
    {
        let end = index_of(text, 0x26);
        match self.with_item(text.take(end)) {
            None => None,
            Some(next) => if 0 <= end < text.len() {
                next.with_items(text.skip(end + 1))
            } else {
                Some(next)
            },
        }
    }

    /// What a percent-decoded link says, or `None` where it is malformed: the
    /// first eight bytes are passed over as the scheme, and must end where a
    /// character ends; the rest are the items.
    pub open spec fn parse(decoded: Seq<u8>) -> Option<MagnetView> {
        if decoded.len() < SCHEME_SIZE || (decoded.len() > SCHEME_SIZE && is_continuation(
            decoded[SCHEME_SIZE as int],
        )) {
            None
        } else {
            Self::blank().with_items(decoded.skip(SCHEME_SIZE as int))
        }
    }
}

/// `index_of` is the first place where the byte stands.
pub proof fn lemma_index_of(s: Seq<u8>, byte: u8, at: int)
    requires
        0 <= at <= s.len(),
        forall|j: int| 0 <= j < at ==> s[j] != byte,
        at == s.len() || s[at] == byte,
    ensures
        index_of(s, byte) == at,
    decreases at,
{
    if at > 0 {
        let tail = s.skip(1);
        lemma_index_of(tail, byte, at - 1);
    }
}

/// Where `byte` first stands in `bytes` between `from` and `to`, or `to` if it
/// stands nowhere there.
fn find(bytes: &[u8], from: usize, to: usize, byte: u8) -> (at: usize)
    requires
        from <= to <= bytes@.len(),
    ensures
        from <= at <= to,
        at - from == index_of(bytes@.subrange(from as int, to as int), byte),
{
    let mut at = from;
    while at < to && bytes[at] != byte
        invariant
            from <= at <= to <= bytes@.len(),
            forall|j: int| from <= j < at ==> bytes@[j] != byte,
        decreases to - at,
    {
        at += 1;
    }
    proof {
        lemma_index_of(bytes@.subrange(from as int, to as int), byte, at - from);
    }
    at
}

impl Magnet {
    /// Reads a magnet link, or gives `None` where the link cannot be
    /// percent-decoded or is malformed.
    pub fn from_link_string(value: &str) -> (r: Option<Magnet>)
        ensures
            match percent_decoded(value@) {
                None => r is None,
                Some(decoded) => match MagnetView::parse(decoded) {
                    Some(link) => r matches Some(magnet) && magnet@ == link,
                    None => r is None,
                },
            },
    {
        match percent_decode(value) {
            Some(decoded) => Magnet::from_decoded(decoded.as_slice()),
            None => None,
        }
    }

    /// Reads a magnet link that has been percent-decoded, or gives `None`
    /// where the link is malformed.
    pub fn from_decoded(decoded: &[u8]) -> (r: Option<Magnet>)
        ensures
            match MagnetView::parse(decoded@) {
                Some(link) => r matches Some(magnet) && magnet@ == link,
                None => r is None,
            },
    {
        if decoded.len() < SCHEME_SIZE {
            return None;
        }
        if decoded.len() > SCHEME_SIZE && 0x80 <= decoded[SCHEME_SIZE] && decoded[SCHEME_SIZE]
            < 0xC0 {
            return None;
        }
        let exact_topic: Vec<u8> = vec![0x78u8, 0x74];
        let display_name: Vec<u8> = vec![0x64u8, 0x6e];
        let tracker: Vec<u8> = vec![0x74u8, 0x72];
        let mut magnet = Magnet {
            tracker_urls: Vec::new(),
            info_hash: vec![0u8; ID_SIZE],
            display_name: String::new(),
        };
        assert(magnet@.info_hash =~= MagnetView::blank().info_hash);
        let mut pos: usize = SCHEME_SIZE;
        loop
            invariant
                SCHEME_SIZE <= pos <= decoded@.len(),
                exact_topic@ == exact_topic_key(),
                display_name@ == display_name_key(),
                tracker@ == tracker_key(),
                MagnetView::parse(decoded@) == magnet@.with_items(decoded@.skip(pos as int)),
            decreases decoded@.len() - pos,
        {
            let ghost text = decoded@.skip(pos as int);
            let end = find(decoded, pos, decoded.len(), 0x26);
            let ghost item = text.take(end - pos);
            assert(decoded@.subrange(pos as int, end as int) =~= item);
            let split = find(decoded, pos, end, 0x3d);
            if split >= end {
                return None;
            }
            let key = slice_subrange(decoded, pos, split);
            let value = slice_subrange(decoded, split + 1, end);
            assert(key@ =~= item.take(split - pos));
            assert(value@ =~= item.skip(split - pos + 1));
            if wire::same_bytes(key, exact_topic.as_slice()) {
                if value.len() < HASH_DIGITS {
                    return None;
                }
                let digits = slice_subrange(value, value.len() - HASH_DIGITS, value.len());
                match hex_decode(digits) {
                    Some(info_hash) => {
                        magnet.info_hash = info_hash;
                    },
                    None => {
                        return None;
                    },
                }
            } else if wire::same_bytes(key, display_name.as_slice()) {
                match utf8_string(wire::copy_bytes(value)) {
                    Some(name) => {
                        magnet.display_name = name;
                    },
                    None => {
                        return None;
                    },
                }
            } else if wire::same_bytes(key, tracker.as_slice()) {
                match parse_url(value) {
                    Some(url) => {
                        magnet.tracker_urls.push(url);
                    },
                    None => {},
                }
            }
            if end >= decoded.len() {
                return Some(magnet);
            }
            assert(text.skip(end - pos + 1) =~= decoded@.skip(end + 1));
            pos = end + 1;
        }
    }
}

} // verus!
