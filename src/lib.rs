//! Networking core of a local-network peer-to-peer messenger: wire framing,
//! the discovery registry, and the connection table that reconciles
//! provisional and handshake-confirmed peer identities.
pub mod clock;
pub mod connections;
pub mod discovery;
pub mod error;
pub mod events;
pub mod framing;
pub mod keyed;
pub mod messenger;
pub mod protocol;

pub use clock::get_current_timestamp;
pub use events::P2PEvent;
pub use protocol::{DiscoveryMessage, Message, MessageContent, PeerInfo};
