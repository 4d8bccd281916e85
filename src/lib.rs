//! Channel and packet state machine for inter-chain communication: canonical
//! store paths, packet and acknowledgement commitments, typed accessors over a
//! versioned key/value store, the connection and channel handshakes, and the
//! packet lifecycle (send, receive, acknowledge, timeout).
pub mod channel;
pub mod commitment;
pub mod handshake;
pub mod packet;
pub mod path;
pub mod state;
pub mod store;
