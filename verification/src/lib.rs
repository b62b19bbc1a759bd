//! Wire protocol for a game server's network layer: length-prefixed,
//! optionally zlib-compressed binary frames, a variable-length integer
//! codec, and a typed deserialization layer that decodes payload bytes
//! into packet values dispatched by numeric id.

pub mod clientbound;
pub mod connection;
pub mod de;
pub mod packets;
pub mod ser;
pub mod serverbound;
pub mod varnum;
