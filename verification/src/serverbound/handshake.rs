//! The serverbound handshake family: the opening packet of every modern
//! connection, plus the legacy ping probe sent by pre-modern clients.

use vstd::prelude::*;
use crate::de::{spec_string_deserialize, ByteReader, Deserialize, Error};
use crate::varnum::{spec_varint_decode, VarNumReader};

verus! {

/// The connection state the client asks to move to after the handshake.
#[derive(Debug, Clone, Copy, PartialEq, Eq, Structural)]
pub enum HandshakeNextState {
    Status,
    Login,
}

impl HandshakeNextState {
    /// The wire tag of each variant.
    pub open spec fn spec_tag(self) -> u32 {
        match self {
            HandshakeNextState::Status => 1,
            HandshakeNextState::Login => 2,
        }
    }

    pub fn tag(self) -> (r: u32)
        ensures
            r == self.spec_tag(),
    {
        match self {
            HandshakeNextState::Status => 1,
            HandshakeNextState::Login => 2,
        }
    }
}

impl View for HandshakeNextState {
    type V = HandshakeNextState;

    open spec fn view(&self) -> HandshakeNextState {
        *self
    }
}

impl Deserialize for HandshakeNextState {
    type Value = HandshakeNextState;

    /// A VarNum tag selects the variant; a tag matching no variant fails
    /// with `BadEnumTag`, and with nothing else.
    open spec fn spec_deserialize(bytes: Seq<u8>) -> Result<(HandshakeNextState, int), Error> {
        match spec_varint_decode(bytes) {
            Err(e) => Err(e),
            Ok((tag, n)) => if tag == 1 {
                Ok((HandshakeNextState::Status, n))
            } else if tag == 2 {
                Ok((HandshakeNextState::Login, n))
            } else {
                Err(Error::BadEnumTag)
            },
        }
    }

    fn deserialize(input: &mut ByteReader) -> (r: Result<HandshakeNextState, Error>) {
        let tag = VarNumReader::deserialize(input)?;
        if tag == 1 {
            Ok(HandshakeNextState::Status)
        } else if tag == 2 {
            Ok(HandshakeNextState::Login)
        } else {
            Err(Error::BadEnumTag)
        }
    }
}

/// The handshake: protocol version (wire-encoded as a VarNum, held as a
/// fixed-width integer), server address, server port, and the requested
/// next state.
#[derive(Debug, Clone, PartialEq, Eq)]
pub struct Handshake {
    pub version: i32,
    pub address: String,
    pub port: u16,
    pub next_state: HandshakeNextState,
}

/// The mathematical shape of a `Handshake`: its address as characters.
pub struct SpecHandshake {
    pub version: i32,
    pub address: Seq<char>,
    pub port: u16,
    pub next_state: HandshakeNextState,
}

impl View for Handshake {
    type V = SpecHandshake;

    open spec fn view(&self) -> SpecHandshake {
        SpecHandshake {
            version: self.version,
            address: self.address@,
            port: self.port,
            next_state: self.next_state,
        }
    }
}

impl Deserialize for Handshake {
    type Value = Handshake;

    /// Fields decode strictly in declaration order; the first failing
    /// field aborts the whole struct with that field's error.
    open spec fn spec_deserialize(bytes: Seq<u8>) -> Result<(SpecHandshake, int), Error> {
        match spec_varint_decode(bytes) {
            Err(e) => Err(e),
            Ok((ver, n1)) => match spec_string_deserialize(bytes.skip(n1)) {
                Err(e) => Err(e),
                Ok((addr, n2)) => match u16::spec_deserialize(bytes.skip(n1 + n2)) {
                    Err(e) => Err(e),
                    Ok((port, n3)) => match HandshakeNextState::spec_deserialize(
                        bytes.skip(n1 + n2 + n3),
                    ) {
                        Err(e) => Err(e),
                        Ok((ns, n4)) => Ok(
                            (
                                SpecHandshake {
                                    version: ver as i32,
                                    address: addr,
                                    port: port,
                                    next_state: ns,
                                },
                                n1 + n2 + n3 + n4,
                            ),
                        ),
                    },
                },
            },
        }
    }

    fn deserialize(input: &mut ByteReader) -> (r: Result<Handshake, Error>) {
        let ghost pre = input@;
        let version_u = VarNumReader::deserialize(input)?;
        let ghost n1 = spec_varint_decode(pre)->Ok_0.1;
        let address = String::deserialize(input)?;
        let ghost n2 = spec_string_deserialize(pre.skip(n1))->Ok_0.1;
        proof {
            assert(pre.skip(n1).skip(n2) =~= pre.skip(n1 + n2));
        }
        let port = u16::deserialize(input)?;
        let ghost n3 = u16::spec_deserialize(pre.skip(n1 + n2))->Ok_0.1;
        proof {
            assert(pre.skip(n1 + n2).skip(n3) =~= pre.skip(n1 + n2 + n3));
        }
        let next_state = HandshakeNextState::deserialize(input)?;
        let ghost n4 = HandshakeNextState::spec_deserialize(pre.skip(n1 + n2 + n3))->Ok_0.1;
        proof {
            assert(pre.skip(n1 + n2 + n3).skip(n4) =~= pre.skip(n1 + n2 + n3 + n4));
        }
        let version = #[verifier::truncate] (version_u as i32);
        Ok(Handshake { version, address, port, next_state })
    }
}

impl crate::packets::Packet for Handshake {
    open spec fn spec_id() -> int {
        0
    }

    fn id() -> (r: i32) {
        0x00
    }
}

/// The legacy ping probe. It has no ordinary id and no structured body:
/// its entire wire form is the sentinel byte that the family decoder
/// recognises before ordinary tag dispatch.
#[derive(Debug, Clone, Copy, PartialEq, Eq, Structural)]
pub struct LegacyPing;

impl View for LegacyPing {
    type V = LegacyPing;

    open spec fn view(&self) -> LegacyPing {
        *self
    }
}

impl Deserialize for LegacyPing {
    type Value = LegacyPing;

    open spec fn spec_deserialize(bytes: Seq<u8>) -> Result<(LegacyPing, int), Error> {
        Ok((LegacyPing, 0))
    }

    fn deserialize(input: &mut ByteReader) -> (r: Result<LegacyPing, Error>) {
        proof {
            assert(old(input)@.skip(0) =~= old(input)@);
        }
        Ok(LegacyPing)
    }
}

impl crate::packets::Packet for LegacyPing {
    open spec fn spec_id() -> int {
        0xfe
    }

    fn id() -> (r: i32) {
        0xfe
    }
}

/// The byte that signals a legacy ping where a packet id (or, at the
/// framing layer, a frame length) would otherwise begin.
pub const LEGACY_PING_SENTINEL: u8 = 0xfe;

/// The family's tagged union. The legacy ping breaks the uniform tag
/// dispatch: a leading sentinel byte is recognised structurally before
/// any VarNum id is attempted.
#[derive(Debug, Clone, PartialEq, Eq)]
pub enum Packet {
    Handshake(Handshake),
    LegacyPing(LegacyPing),
}

/// The mathematical shape of a decoded handshake-family packet.
pub enum SpecPacket {
    Handshake(SpecHandshake),
    LegacyPing(LegacyPing),
}

impl View for Packet {
    type V = SpecPacket;

    open spec fn view(&self) -> SpecPacket {
        match self {
            Packet::Handshake(v) => SpecPacket::Handshake(v@),
            Packet::LegacyPing(v) => SpecPacket::LegacyPing(*v),
        }
    }
}

impl Deserialize for Packet {
    type Value = Packet;

    /// A leading sentinel byte yields the legacy ping, whatever follows;
    /// otherwise a VarNum id is decoded and dispatched. An id matching no
    /// packet in the family fails with `BadPacketId`, and with nothing
    /// else.
    open spec fn spec_deserialize(bytes: Seq<u8>) -> Result<(SpecPacket, int), Error> {
        if bytes.len() == 0 {
            Err(Error::Eof)
        } else if bytes[0] == LEGACY_PING_SENTINEL {
            Ok((SpecPacket::LegacyPing(LegacyPing), 1))
        } else {
            match spec_varint_decode(bytes) {
                Err(e) => Err(e),
                Ok((id, n)) => if id == 0 {
                    match Handshake::spec_deserialize(bytes.skip(n)) {
                        Ok((v, m)) => Ok((SpecPacket::Handshake(v), n + m)),
                        Err(e) => Err(e),
                    }
                } else {
                    Err(Error::BadPacketId)
                },
            }
        }
    }

    fn deserialize(input: &mut ByteReader) -> (r: Result<Packet, Error>) {
        let ghost pre = input@;
        let first_byte = input.read_byte()?;
        if first_byte == LEGACY_PING_SENTINEL {
            return Ok(Packet::LegacyPing(LegacyPing));
        }
        let id_reader = VarNumReader::new().try_read_byte(first_byte);
        proof {
            crate::varnum::lemma_feed_first_byte(pre, id_reader);
        }
        let id = id_reader.read_from(input)?;
        let ghost n = spec_varint_decode(pre)->Ok_0.1;
        proof {
            assert(input@ =~= pre.skip(n));
        }
        if id == 0 {
            let v = Handshake::deserialize(input)?;
            proof {
                let m = Handshake::spec_deserialize(pre.skip(n))->Ok_0.1;
                assert(pre.skip(n).skip(m) =~= pre.skip(n + m));
            }
            Ok(Packet::Handshake(v))
        } else {
            Err(Error::BadPacketId)
        }
    }
}

} // verus!
