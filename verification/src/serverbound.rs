//! Packet families sent by the client to the server.

pub mod handshake;
pub mod status;
