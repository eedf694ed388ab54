//! The kinds of message that travel inside a peer data frame.

use crate::PeerAddr;
use vstd::prelude::*;

verus! {

/// What a data frame asks or announces, by the code it carries on the wire.
#[derive(Debug, Clone, Copy, PartialEq, Eq, Structural)]
pub enum PeerMessageType {
    Choke,
    Unchoke,
    Interested,
    NotInterested,
    Have,
    Bitfield,
    Request,
    Piece,
    Cancel,
    Port,
}

impl PeerMessageType {
    /// The wire code of each kind, `0` for `Choke` up to `9` for `Port`.
    pub open spec fn code(self) -> u8 {
        match self {
            PeerMessageType::Choke => 0,
            PeerMessageType::Unchoke => 1,
            PeerMessageType::Interested => 2,
            PeerMessageType::NotInterested => 3,
            PeerMessageType::Have => 4,
            PeerMessageType::Bitfield => 5,
            PeerMessageType::Request => 6,
            PeerMessageType::Piece => 7,
            PeerMessageType::Cancel => 8,
            PeerMessageType::Port => 9,
        }
    }

    /// The kind that a wire code stands for; codes above `9` stand for none.
    pub open spec fn of_code(value: u8) -> Option<PeerMessageType> {
        match value {
            0 => Some(PeerMessageType::Choke),
            1 => Some(PeerMessageType::Unchoke),
            2 => Some(PeerMessageType::Interested),
            3 => Some(PeerMessageType::NotInterested),
            4 => Some(PeerMessageType::Have),
            5 => Some(PeerMessageType::Bitfield),
            6 => Some(PeerMessageType::Request),
            7 => Some(PeerMessageType::Piece),
            8 => Some(PeerMessageType::Cancel),
            9 => Some(PeerMessageType::Port),
            _ => None,
        }
    }

    /// The code this kind is written as.
    pub fn raw_value(&self) -> (value: u8)
        ensures
            value == self.code(),
            value <= 9,
    {
        match self {
            PeerMessageType::Choke => 0,
            PeerMessageType::Unchoke => 1,
            PeerMessageType::Interested => 2,
            PeerMessageType::NotInterested => 3,
            PeerMessageType::Have => 4,
            PeerMessageType::Bitfield => 5,
            PeerMessageType::Request => 6,
            PeerMessageType::Piece => 7,
            PeerMessageType::Cancel => 8,
            PeerMessageType::Port => 9,
        }
    }

    /// The kind that `value` stands for, or `None` for a code that the
    /// protocol does not define.
    pub fn from_u8(value: u8) -> (kind: Option<PeerMessageType>)
        ensures
            kind == Self::of_code(value),
            kind is Some <==> value <= 9,
    {
        match value {
            0 => Some(PeerMessageType::Choke),
            1 => Some(PeerMessageType::Unchoke),
            2 => Some(PeerMessageType::Interested),
            3 => Some(PeerMessageType::NotInterested),
            4 => Some(PeerMessageType::Have),
            5 => Some(PeerMessageType::Bitfield),
            6 => Some(PeerMessageType::Request),
            7 => Some(PeerMessageType::Piece),
            8 => Some(PeerMessageType::Cancel),
            9 => Some(PeerMessageType::Port),
            _ => None,
        }
    }

    /// Every kind is found again from its code.
    pub proof fn lemma_of_code_of_kind(kind: PeerMessageType)
        ensures
            Self::of_code(kind.code()) == Some(kind),
    {
    }

    /// Every defined code is the code of the kind it stands for.
    pub proof fn lemma_code_of_kind_of_code(value: u8)
        requires
            value <= 9,
        ensures
            Self::of_code(value) is Some,
            Self::of_code(value)->0.code() == value,
    {
    }
}

/// A message between the coordinator and one peer session. Going in, `addr` is
/// the peer it came from; going out, the peer it is meant for.
#[derive(Debug)]
pub struct PeerMessage {
    pub message_type: PeerMessageType,
    pub payload: Vec<u8>,
    pub addr: PeerAddr,
}

/// A `PeerMessage` as plain values.
pub struct PeerMessageView {
    pub message_type: PeerMessageType,
    pub payload: Seq<u8>,
    pub addr: PeerAddr,
}

impl View for PeerMessage {
    type V = PeerMessageView;

    open spec fn view(&self) -> PeerMessageView {
        PeerMessageView { message_type: self.message_type, payload: self.payload@, addr: self.addr }
    }
}

} // verus!
