//! What can go wrong on a connection.

use vstd::prelude::*;

verus! {

/// A violation of the wire protocol. It ends the connection it was found on.
#[derive(Debug, Clone, Copy, PartialEq, Eq, Structural)]
pub enum ProtocolError {
    /// The first twenty bytes of a handshake are not `19` and the protocol name.
    MalformedHandshake,
    /// A data frame carries a message code above nine.
    BadMessageId,
    /// The stream ended in the middle of a frame.
    BytesRemaining,
    /// The peer answered for another torrent.
    InfoHashMismatch,
    /// A data frame came where the handshake was due.
    MissingHandshake,
    /// A handshake came after the handshake.
    UnexpectedHandshake,
    /// A tracker datagram has not the size of the response that was due.
    ResponseSize,
    /// The peer list of an announce response is not a whole number of entries.
    BadPeerList,
    /// A tracker answered with another transaction id than the request's.
    TransactionMismatch,
    /// A tracker answered the request with an error response.
    TrackerError,
}

/// Why a connection or an exchange ended.
#[derive(Debug, Clone, Copy, PartialEq, Eq, Structural)]
pub enum Error {
    Protocol(ProtocolError),
    /// No answer came in time.
    Timeout,
    /// The socket failed or the other side closed it.
    Transport,
    /// The coordinator dropped its end of the outbound channel.
    ChannelClosed,
}

} // verus!
