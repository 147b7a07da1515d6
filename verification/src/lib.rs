//! Peer-to-peer hole punching: wire format, packet framing, and the decisions that keep a
//! direct channel between two peers open.
//!
//! Sockets and tasks live outside this crate. What arrives from them comes in as plain values, and
//! what is to be done with them goes out as plain values.
pub mod buffer;
pub mod client;
pub mod clock;
pub mod codec;
pub mod error;
pub mod kcp_stream;
pub mod laws;
pub mod maintain;
pub mod network;
pub mod protocol;
pub mod punch;
pub mod tunnel;
