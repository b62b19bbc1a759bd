//! The clientbound status family: the status response text and the pong
//! echoing a ping's payload.

use vstd::prelude::*;
use crate::de::{spec_string_deserialize, ByteReader, Deserialize, Error};
use crate::varnum::{spec_varint_decode, VarNumReader};

verus! {

/// The server's status response: a single string field.
#[derive(Debug, Clone, PartialEq, Eq)]
pub struct Response {
    pub resp: String,
}

/// The mathematical shape of a `Response`: its string as characters.
pub struct SpecResponse {
    pub resp: Seq<char>,
}

impl View for Response {
    type V = SpecResponse;

    open spec fn view(&self) -> SpecResponse {
        SpecResponse { resp: self.resp@ }
    }
}

impl Deserialize for Response {
    type Value = Response;

    open spec fn spec_deserialize(bytes: Seq<u8>) -> Result<(SpecResponse, int), Error> {
        match spec_string_deserialize(bytes) {
            Ok((s, n)) => Ok((SpecResponse { resp: s }, n)),
            Err(e) => Err(e),
        }
    }

    fn deserialize(input: &mut ByteReader) -> (r: Result<Response, Error>) {
        let resp = String::deserialize(input)?;
        Ok(Response { resp })
    }
}

impl crate::packets::Packet for Response {
    open spec fn spec_id() -> int {
        0
    }

    fn id() -> (r: i32) {
        0x00
    }
}

/// A pong: the eight little-endian payload bytes of the ping it answers.
#[derive(Debug, Clone, Copy, PartialEq, Eq, Structural)]
pub struct Pong(pub u64);

impl View for Pong {
    type V = Pong;

    open spec fn view(&self) -> Pong {
        *self
    }
}

impl Deserialize for Pong {
    type Value = Pong;

    open spec fn spec_deserialize(bytes: Seq<u8>) -> Result<(Pong, int), Error> {
        match u64::spec_deserialize(bytes) {
            Ok(p) => Ok((Pong(p.0), p.1)),
            Err(e) => Err(e),
        }
    }

    fn deserialize(input: &mut ByteReader) -> (r: Result<Pong, Error>) {
        let v = u64::deserialize(input)?;
        Ok(Pong(v))
    }
}

impl crate::packets::Packet for Pong {
    open spec fn spec_id() -> int {
        1
    }

    fn id() -> (r: i32) {
        0x01
    }
}

/// The family's tagged union: a VarNum id selects the packet type, and
/// the matched type's own decoder reads the body. An id matching no
/// packet in the family fails with `BadPacketId`, and with nothing else.
#[derive(Debug, Clone, PartialEq, Eq)]
pub enum Packet {
    Response(Response),
    Pong(Pong),
}

/// The mathematical shape of a decoded clientbound status packet.
pub enum SpecPacket {
    Response(SpecResponse),
    Pong(Pong),
}

impl View for Packet {
    type V = SpecPacket;

    open spec fn view(&self) -> SpecPacket {
        match self {
            Packet::Response(v) => SpecPacket::Response(v@),
            Packet::Pong(v) => SpecPacket::Pong(*v),
        }
    }
}

impl Deserialize for Packet {
    type Value = Packet;

    open spec fn spec_deserialize(bytes: Seq<u8>) -> Result<(SpecPacket, int), Error> {
        match spec_varint_decode(bytes) {
            Err(e) => Err(e),
            Ok((tag, n)) => if tag == 0 {
                match Response::spec_deserialize(bytes.skip(n)) {
                    Ok((v, m)) => Ok((SpecPacket::Response(v), n + m)),
                    Err(e) => Err(e),
                }
            } else if tag == 1 {
                match Pong::spec_deserialize(bytes.skip(n)) {
                    Ok((v, m)) => Ok((SpecPacket::Pong(v), n + m)),
                    Err(e) => Err(e),
                }
            } else {
                Err(Error::BadPacketId)
            },
        }
    }

    fn deserialize(input: &mut ByteReader) -> (r: Result<Packet, Error>) {
        let ghost pre = input@;
        let tag = VarNumReader::deserialize(input)?;
        let ghost n = spec_varint_decode(pre)->Ok_0.1;
        if tag == 0 {
            let v = Response::deserialize(input)?;
            proof {
                let m = Response::spec_deserialize(pre.skip(n))->Ok_0.1;
                assert(pre.skip(n).skip(m) =~= pre.skip(n + m));
            }
            Ok(Packet::Response(v))
        } else if tag == 1 {
            let v = Pong::deserialize(input)?;
            proof {
                let m = Pong::spec_deserialize(pre.skip(n))->Ok_0.1;
                assert(pre.skip(n).skip(m) =~= pre.skip(n + m));
            }
            Ok(Packet::Pong(v))
        } else {
            Err(Error::BadPacketId)
        }
    }
}

} // verus!
