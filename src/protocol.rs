//! Data model shared by both transports: peer descriptions, discovery
//! datagrams and session messages.
use vstd::prelude::*;
use crate::clock::{fresh_id, get_current_timestamp};

verus! {

/// Default UDP port on which discovery announcements are received.
pub const DISCOVERY_PORT: u16 = 6968;

/// Default TCP port on which sessions are accepted.
pub const DEFAULT_TCP_PORT: u16 = 6969;

/// Universal broadcast address, the last-resort announcement target.
pub const BROADCAST_ADDR: &'static str = "255.255.255.255";

/// Multicast group (mDNS) used as a cross-platform announcement fallback.
pub const MULTICAST_ADDR: &'static str = "224.0.0.251";

/// Description of a peer: its stable id, display name, reachable address and
/// the Unix time (seconds) at which it was last heard from.
#[derive(Debug, Clone, PartialEq, Eq)]
pub struct PeerInfo {
    pub id: String,
    pub name: String,
    pub ip: String,
    pub port: u16,
    pub last_seen: u64,
}

/// Mathematical model of a [`PeerInfo`].
pub ghost struct PeerInfoView {
    pub id: Seq<char>,
    pub name: Seq<char>,
    pub ip: Seq<char>,
    pub port: u16,
    pub last_seen: u64,
}

impl View for PeerInfo {
    type V = PeerInfoView;

    open spec fn view(&self) -> PeerInfoView {
        PeerInfoView {
            id: self.id@,
            name: self.name@,
            ip: self.ip@,
            port: self.port,
            last_seen: self.last_seen,
        }
    }
}

impl PeerInfo {
    /// A peer description under a freshly generated id, last seen now.
    pub fn new(name: String, ip: String, port: u16) -> (r: PeerInfo)
        ensures
            r.name == name,
            r.ip == ip,
            r.port == port,
            r.id@.len() == 36,
    {
        PeerInfo { id: fresh_id(), name, ip, port, last_seen: get_current_timestamp() }
    }

    /// Marks the peer as heard from now; every other field is kept.
    pub fn update_last_seen(&mut self)
        ensures
            final(self).id == old(self).id,
            final(self).name == old(self).name,
            final(self).ip == old(self).ip,
            final(self).port == old(self).port,
    {
        let now = get_current_timestamp();
        self.mark_seen(now);
    }

    /// Marks the peer as heard from at time `now`; every other field is kept.
    pub fn mark_seen(&mut self, now: u64)
        ensures
            *final(self) == (PeerInfo { last_seen: now, ..*old(self) }),
    {
        self.last_seen = now;
    }

    /// A field-by-field copy, equal to `self`.
    pub fn duplicate(&self) -> (r: PeerInfo)
        ensures
            r == *self,
    {
        PeerInfo {
            id: self.id.clone(),
            name: self.name.clone(),
            ip: self.ip.clone(),
            port: self.port,
            last_seen: self.last_seen,
        }
    }
}

/// A UDP discovery datagram.
#[derive(Debug, Clone, PartialEq, Eq)]
pub enum DiscoveryMessage {
    /// "I am `peer_name` (`peer_id`) and accept sessions on `tcp_port`."
    Announce { peer_name: String, peer_id: String, tcp_port: u16 },
    /// A request for announcements; accepted but never answered directly.
    Request,
}

/// Payload of a session message.
#[derive(Debug, Clone, PartialEq, Eq)]
pub enum MessageContent {
    Text { text: String },
    File { filename: String, data: Vec<u8> },
    /// Control content declaring the sender's identity after the socket
    /// opens; never surfaced as a user-visible message.
    Handshake { peer_id: String, peer_name: String, tcp_port: u16 },
}

/// A session message as carried in one TCP frame.
#[derive(Debug, Clone, PartialEq, Eq)]
pub struct Message {
    pub id: String,
    pub sender_id: String,
    pub sender_name: String,
    pub timestamp: u64,
    pub content: MessageContent,
}

/// Payload size of a content: bytes of UTF-8 text, bytes of file data, nothing
/// for control content.
pub open spec fn content_size(c: MessageContent) -> nat {
    match c {
        MessageContent::Text { text } => vstd::utf8::encode_utf8(text@).len(),
        MessageContent::File { data, .. } => data@.len(),
        MessageContent::Handshake { .. } => 0,
    }
}

impl Message {
    /// A text message from the given sender, under a fresh id, stamped now.
    pub fn new_text(sender_id: String, sender_name: String, text: String) -> (r: Message)
        ensures
            r.sender_id == sender_id,
            r.sender_name == sender_name,
            r.content == (MessageContent::Text { text }),
            r.id@.len() == 36,
    {
        Message {
            id: fresh_id(),
            sender_id,
            sender_name,
            timestamp: get_current_timestamp(),
            content: MessageContent::Text { text },
        }
    }

    /// A file message carrying the whole file, under a fresh id, stamped now.
    pub fn new_file(sender_id: String, sender_name: String, filename: String, data: Vec<u8>) -> (r: Message)
        ensures
            r.sender_id == sender_id,
            r.sender_name == sender_name,
            r.content == (MessageContent::File { filename, data }),
            r.id@.len() == 36,
    {
        Message {
            id: fresh_id(),
            sender_id,
            sender_name,
            timestamp: get_current_timestamp(),
            content: MessageContent::File { filename, data },
        }
    }

    /// The handshake that opens a session: the local peer declares its id,
    /// name and listening port, both as sender and as content.
    pub fn new_handshake(peer_id: String, peer_name: String, tcp_port: u16) -> (r: Message)
        ensures
            r.sender_id == peer_id,
            r.sender_name == peer_name,
            r.content == (MessageContent::Handshake { peer_id, peer_name, tcp_port }),
            r.id@.len() == 36,
    {
        let content = MessageContent::Handshake {
            peer_id: peer_id.clone(),
            peer_name: peer_name.clone(),
            tcp_port,
        };
        Message { id: fresh_id(), sender_id: peer_id, sender_name: peer_name, timestamp: get_current_timestamp(), content }
    }

    /// Whether this message is session control rather than user content.
    pub fn is_handshake(&self) -> (r: bool)
        ensures
            r == (self.content is Handshake),
    {
        match &self.content {
            MessageContent::Handshake { .. } => true,
            _ => false,
        }
    }

    /// Payload size in bytes.
    pub fn size(&self) -> (r: usize)
        ensures
            r == content_size(self.content) as usize,
    {
        match &self.content {
            MessageContent::Text { text } => text.as_str().len(),
            MessageContent::File { data, .. } => data.len(),
            MessageContent::Handshake { .. } => 0,
        }
    }
}

} // verus!
