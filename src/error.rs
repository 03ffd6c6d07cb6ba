//! Error taxonomy of the networking core.
use vstd::prelude::*;
use vstd::string::StringExecFns;

verus! {

/// Failures surfaced by connection commands and facade operations.
#[derive(Debug, Clone, PartialEq, Eq)]
pub enum P2PError {
    /// A socket bind, connect, read or write failed; holds the I/O error text.
    Network(String),
    /// A value could not be encoded for the wire.
    SerializationEncode(String),
    /// A frame could not be decoded.
    SerializationDecode(String),
    /// The operation referenced a peer id with no live connection.
    PeerNotFound { peer_id: String },
    /// No answer arrived in time (available to callers, unused internally).
    DiscoveryTimeout,
    /// A well-formed frame carried content unexpected in its context.
    InvalidMessage,
    /// The remote side refused the connection.
    ConnectionRefused,
}

/// Result type of the networking core.
pub type P2PResult<T> = Result<T, P2PError>;

/// The human-readable text of an error.
pub open spec fn error_text(e: P2PError) -> Seq<char> {
    match e {
        P2PError::Network(s) => "Network error: "@ + s@,
        P2PError::SerializationEncode(s) => "Serialization encode error: "@ + s@,
        P2PError::SerializationDecode(s) => "Serialization decode error: "@ + s@,
        P2PError::PeerNotFound { peer_id } => "Peer not found: "@ + peer_id@,
        P2PError::DiscoveryTimeout => "Discovery timeout"@,
        P2PError::InvalidMessage => "Invalid message format"@,
        P2PError::ConnectionRefused => "Connection refused by peer"@,
    }
}

impl P2PError {
    /// The human-readable text of this error.
    pub fn describe(&self) -> (r: String)
        ensures
            r@ == error_text(*self),
    {
        match self {
            P2PError::Network(s) => "Network error: ".to_owned().concat(s.as_str()),
            P2PError::SerializationEncode(s) => "Serialization encode error: ".to_owned().concat(s.as_str()),
            P2PError::SerializationDecode(s) => "Serialization decode error: ".to_owned().concat(s.as_str()),
            P2PError::PeerNotFound { peer_id } => "Peer not found: ".to_owned().concat(peer_id.as_str()),
            P2PError::DiscoveryTimeout => "Discovery timeout".to_owned(),
            P2PError::InvalidMessage => "Invalid message format".to_owned(),
            P2PError::ConnectionRefused => "Connection refused by peer".to_owned(),
        }
    }
}

} // verus!
