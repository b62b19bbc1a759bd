//! The serverbound status family: a status request, or a ping carrying a
//! client-chosen payload echoed back by the pong.

use vstd::prelude::*;
use crate::de::{ByteReader, Deserialize, Error};
use crate::varnum::{spec_varint_decode, VarNumReader};

verus! {

/// A request for the server's status; carries no fields.
#[derive(Debug, Clone, Copy, PartialEq, Eq, Structural)]
pub struct Request;

impl View for Request {
    type V = Request;

    open spec fn view(&self) -> Request {
        *self
    }
}

impl Deserialize for Request {
    type Value = Request;

    open spec fn spec_deserialize(bytes: Seq<u8>) -> Result<(Request, int), Error> {
        Ok((Request, 0))
    }

    fn deserialize(input: &mut ByteReader) -> (r: Result<Request, Error>) {
        proof {
            assert(old(input)@.skip(0) =~= old(input)@);
        }
        Ok(Request)
    }
}

impl crate::packets::Packet for Request {
    open spec fn spec_id() -> int {
        0
    }

    fn id() -> (r: i32) {
        0x00
    }
}

/// A ping: eight little-endian bytes of client-chosen payload.
#[derive(Debug, Clone, Copy, PartialEq, Eq, Structural)]
pub struct Ping(pub u64);

impl View for Ping {
    type V = Ping;

    open spec fn view(&self) -> Ping {
        *self
    }
}

impl Deserialize for Ping {
    type Value = Ping;

    open spec fn spec_deserialize(bytes: Seq<u8>) -> Result<(Ping, int), Error> {
        match u64::spec_deserialize(bytes) {
            Ok(p) => Ok((Ping(p.0), p.1)),
            Err(e) => Err(e),
        }
    }

    fn deserialize(input: &mut ByteReader) -> (r: Result<Ping, Error>) {
        let v = u64::deserialize(input)?;
        Ok(Ping(v))
    }
}

impl crate::packets::Packet for Ping {
    open spec fn spec_id() -> int {
        1
    }

    fn id() -> (r: i32) {
        0x01
    }
}

/// The family's tagged union: a VarNum id selects the packet type, and
/// the matched type's own decoder reads the body. An id matching no
/// packet in the family fails with `BadPacketId`, and with nothing else.
#[derive(Debug, Clone, Copy, PartialEq, Eq, Structural)]
pub enum Packet {
    Request(Request),
    Ping(Ping),
}

impl View for Packet {
    type V = Packet;

    open spec fn view(&self) -> Packet {
        *self
    }
}

impl Deserialize for Packet {
    type Value = Packet;

    open spec fn spec_deserialize(bytes: Seq<u8>) -> Result<(Packet, int), Error> {
        match spec_varint_decode(bytes) {
            Err(e) => Err(e),
            Ok((tag, n)) => if tag == 0 {
                match Request::spec_deserialize(bytes.skip(n)) {
                    Ok((v, m)) => Ok((Packet::Request(v), n + m)),
                    Err(e) => Err(e),
                }
            } else if tag == 1 {
                match Ping::spec_deserialize(bytes.skip(n)) {
                    Ok((v, m)) => Ok((Packet::Ping(v), n + m)),
                    Err(e) => Err(e),
                }
            } else {
                Err(Error::BadPacketId)
            },
        }
    }

    fn deserialize(input: &mut ByteReader) -> (r: Result<Packet, Error>) {
        let ghost pre = input@;
        let tag = VarNumReader::deserialize(input)?;
        let ghost n = spec_varint_decode(pre)->Ok_0.1;
        if tag == 0 {
            let v = Request::deserialize(input)?;
            proof {
                assert(pre.skip(n).skip(0) =~= pre.skip(n + 0));
            }
            Ok(Packet::Request(v))
        } else if tag == 1 {
            let v = Ping::deserialize(input)?;
            proof {
                let m = Ping::spec_deserialize(pre.skip(n))->Ok_0.1;
                assert(pre.skip(n).skip(m) =~= pre.skip(n + m));
            }
            Ok(Packet::Ping(v))
        } else {
            Err(Error::BadPacketId)
        }
    }
}

} // verus!
