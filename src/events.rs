//! Notifications carried by the event bus.
use vstd::prelude::*;
use crate::protocol::{Message, PeerInfo};

verus! {

/// An immutable notification about discovery, sessions, messages or transfers.
#[derive(Debug, Clone, PartialEq, Eq)]
pub enum P2PEvent {
    PeerDiscovered(PeerInfo),
    PeerConnected(PeerInfo),
    PeerDisconnected(PeerInfo),
    MessageReceived(Message),
    MessageSent(Message),
    FileTransferStarted { peer_id: String, filename: String, size: u64 },
    FileTransferCompleted { peer_id: String, filename: String },
    FileTransferFailed { peer_id: String, filename: String, error: String },
    Error(String),
}

} // verus!
