//! Packet families sent by the server to the client.

pub mod status;
