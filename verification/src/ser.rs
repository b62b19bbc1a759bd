//! Encoders for the wire format, and the round-trip laws tying them to
//! the decoders: what the library writes, its own decoders read back
//! exactly.

use vstd::prelude::*;
use vstd::utf8::{encode_utf8, valid_utf8};
use crate::de::{spec_string_deserialize, Deserialize, Error};
use crate::varnum::{lemma_varint_encode_len, lemma_varint_round_trip, spec_varint_encode};
use crate::serverbound::handshake::{Handshake, HandshakeNextState, SpecHandshake};
use crate::clientbound::status::SpecResponse;

verus! {

/// The two little-endian bytes of a 16-bit value.
pub open spec fn spec_u16_le(v: u16) -> Seq<u8> {
    seq![(v % 0x100) as u8, (v / 0x100) as u8]
}

/// The eight little-endian bytes of a 64-bit value.
pub open spec fn spec_u64_le(v: u64) -> Seq<u8> {
    seq![
        (v % 0x100) as u8,
        ((v / 0x100) % 0x100) as u8,
        ((v / 0x1_0000) % 0x100) as u8,
        ((v / 0x100_0000) % 0x100) as u8,
        ((v / 0x1_0000_0000) % 0x100) as u8,
        ((v / 0x100_0000_0000) % 0x100) as u8,
        ((v / 0x1_0000_0000_0000) % 0x100) as u8,
        (v / 0x100_0000_0000_0000) as u8,
    ]
}

/// A length-prefixed string: the VarNum byte length, then the UTF-8
/// bytes of the characters.
pub open spec fn spec_string_encode(chars: Seq<char>) -> Seq<u8> {
    spec_varint_encode(encode_utf8(chars).len() as u32) + encode_utf8(chars)
}

/// A handshake body, fields in declaration order: version as a VarNum,
/// address as a string, port as two little-endian bytes, next state as a
/// VarNum tag.
pub open spec fn spec_handshake_encode(h: SpecHandshake) -> Seq<u8> {
    spec_varint_encode(h.version as u32) + spec_string_encode(h.address) + spec_u16_le(h.port)
        + spec_varint_encode(h.next_state.spec_tag())
}

/// A whole handshake-family packet: the packet id, then the body.
pub open spec fn spec_handshake_packet_encode(h: SpecHandshake) -> Seq<u8> {
    spec_varint_encode(0) + spec_handshake_encode(h)
}

pub fn encode_varint(n: u32) -> (r: Vec<u8>)
    ensures
        r@ == spec_varint_encode(n),
{
    let mut out: Vec<u8> = Vec::new();
    let mut cur = n;
    proof {
        assert(out@ + spec_varint_encode(cur) =~= spec_varint_encode(n));
    }
    while cur >= 128
        invariant
            out@ + spec_varint_encode(cur) == spec_varint_encode(n),
        decreases cur,
    {
        let ghost before = out@;
        out.push((cur % 128 + 128) as u8);
        proof {
            assert(spec_varint_encode(cur) == seq![(cur % 128 + 128) as u8] + spec_varint_encode(
                cur / 128,
            ));
            assert(out@ + spec_varint_encode(cur / 128) =~= before + spec_varint_encode(cur));
        }
        cur = cur / 128;
    }
    let ghost before = out@;
    out.push(cur as u8);
    proof {
        assert(spec_varint_encode(cur) == seq![cur as u8]);
        assert(out@ =~= before + spec_varint_encode(cur));
    }
    out
}

pub fn encode_u16(v: u16) -> (r: Vec<u8>)
    ensures
        r@ == spec_u16_le(v),
{
    let mut out: Vec<u8> = Vec::new();
    out.push((v % 0x100) as u8);
    out.push((v / 0x100) as u8);
    proof {
        assert(out@ =~= spec_u16_le(v));
    }
    out
}

pub fn encode_u64(v: u64) -> (r: Vec<u8>)
    ensures
        r@ == spec_u64_le(v),
{
    let mut out: Vec<u8> = Vec::new();
    out.push((v % 0x100) as u8);
    out.push(((v / 0x100) % 0x100) as u8);
    out.push(((v / 0x1_0000) % 0x100) as u8);
    out.push(((v / 0x100_0000) % 0x100) as u8);
    out.push(((v / 0x1_0000_0000) % 0x100) as u8);
    out.push(((v / 0x100_0000_0000) % 0x100) as u8);
    out.push(((v / 0x1_0000_0000_0000) % 0x100) as u8);
    out.push((v / 0x100_0000_0000_0000) as u8);
    proof {
        assert(out@ =~= spec_u64_le(v));
    }
    out
}

/// Encode a length-prefixed string. `None` exactly when the string's
/// UTF-8 byte length cannot be carried by a 32-bit VarNum.
pub fn encode_string(s: &str) -> (r: Option<Vec<u8>>)
    ensures
        match r {
            Some(v) => encode_utf8(s@).len() <= u32::MAX && v@ == spec_string_encode(s@),
            None => encode_utf8(s@).len() > u32::MAX,
        },
{
    let bytes = s.as_bytes();
    if bytes.len() > 0xffff_ffffusize {
        return None;
    }
    let mut out = encode_varint(bytes.len() as u32);
    let mut tail = vstd::slice::slice_to_vec(bytes);
    out.append(&mut tail);
    proof {
        assert(out@ == spec_string_encode(s@));
    }
    Some(out)
}

/// Encode a whole handshake-family packet: id, then the four fields.
/// `None` exactly when the address is too long for its length prefix.
pub fn encode_handshake(h: &Handshake) -> (r: Option<Vec<u8>>)
    ensures
        match r {
            Some(v) => encode_utf8(h.address@).len() <= u32::MAX && v@
                == spec_handshake_packet_encode(h@),
            None => encode_utf8(h.address@).len() > u32::MAX,
        },
{
    let mut out = encode_varint(0);
    let mut version = encode_varint(#[verifier::truncate] (h.version as u32));
    out.append(&mut version);
    let mut address = match encode_string(h.address.as_str()) {
        Some(v) => v,
        None => {
            return None;
        },
    };
    out.append(&mut address);
    let mut port = encode_u16(h.port);
    out.append(&mut port);
    let mut next_state = encode_varint(h.next_state.tag());
    out.append(&mut next_state);
    proof {
        assert(out@ =~= spec_handshake_packet_encode(h@));
    }
    Some(out)
}

/// Encode a serverbound status packet: the id, then the body.
pub fn encode_status_packet(p: &crate::serverbound::status::Packet) -> (r: Vec<u8>)
    ensures
        r@ == spec_status_packet_encode(*p),
{
    match p {
        crate::serverbound::status::Packet::Request(_) => encode_varint(0),
        crate::serverbound::status::Packet::Ping(ping) => {
            let mut out = encode_varint(1);
            let mut body = encode_u64(ping.0);
            out.append(&mut body);
            out
        },
    }
}

/// A serverbound status packet on the wire: id, then the body.
pub open spec fn spec_status_packet_encode(p: crate::serverbound::status::Packet) -> Seq<u8> {
    match p {
        crate::serverbound::status::Packet::Request(_) => spec_varint_encode(0),
        crate::serverbound::status::Packet::Ping(ping) => spec_varint_encode(1) + spec_u64_le(
            ping.0,
        ),
    }
}

/// A clientbound status packet on the wire: id, then the body.
pub open spec fn spec_status_clientbound_encode(
    p: crate::clientbound::status::SpecPacket,
) -> Seq<u8> {
    match p {
        crate::clientbound::status::SpecPacket::Response(resp) => spec_varint_encode(0)
            + spec_string_encode(resp.resp),
        crate::clientbound::status::SpecPacket::Pong(pong) => spec_varint_encode(1) + spec_u64_le(
            pong.0,
        ),
    }
}

/// Encode a clientbound status packet. `None` exactly when a response's
/// string is too long for its length prefix.
pub fn encode_status_clientbound(p: &crate::clientbound::status::Packet) -> (r: Option<Vec<u8>>)
    ensures
        match r {
            Some(v) => v@ == spec_status_clientbound_encode(p@),
            None => p@ matches crate::clientbound::status::SpecPacket::Response(resp)
                && encode_utf8(resp.resp).len() > u32::MAX,
        },
{
    match p {
        crate::clientbound::status::Packet::Response(response) => {
            let mut out = encode_varint(0);
            let mut body = match encode_string(response.resp.as_str()) {
                Some(v) => v,
                None => {
                    return None;
                },
            };
            out.append(&mut body);
            Some(out)
        },
        crate::clientbound::status::Packet::Pong(pong) => {
            let mut out = encode_varint(1);
            let mut body = encode_u64(pong.0);
            out.append(&mut body);
            Some(out)
        },
    }
}

/// Round trip: a 16-bit value's two little-endian bytes, whatever
/// follows them, decode back to exactly that value.
pub proof fn lemma_u16_round_trip(v: u16, rest: Seq<u8>)
    ensures
        u16::spec_deserialize(spec_u16_le(v) + rest) == Ok::<(u16, int), Error>((v, 2)),
{
    let b = spec_u16_le(v) + rest;
    assert(b[0] == (v % 0x100) as u8 && b[1] == (v / 0x100) as u8);
    vstd::arithmetic::div_mod::lemma_fundamental_div_mod(v as int, 0x100);
    assert(b[0] + b[1] * 0x100 == v);
}

/// Round trip: a 64-bit value's eight little-endian bytes, whatever
/// follows them, decode back to exactly that value.
pub proof fn lemma_u64_round_trip(v: u64, rest: Seq<u8>)
    ensures
        u64::spec_deserialize(spec_u64_le(v) + rest) == Ok::<(u64, int), Error>((v, 8)),
{
    let b = spec_u64_le(v) + rest;
    let x = v as int;
    vstd::arithmetic::div_mod::lemma_fundamental_div_mod(x, 0x100);
    vstd::arithmetic::div_mod::lemma_fundamental_div_mod(x / 0x100, 0x100);
    vstd::arithmetic::div_mod::lemma_fundamental_div_mod(x / 0x1_0000, 0x100);
    vstd::arithmetic::div_mod::lemma_fundamental_div_mod(x / 0x100_0000, 0x100);
    vstd::arithmetic::div_mod::lemma_fundamental_div_mod(x / 0x1_0000_0000, 0x100);
    vstd::arithmetic::div_mod::lemma_fundamental_div_mod(x / 0x100_0000_0000, 0x100);
    vstd::arithmetic::div_mod::lemma_fundamental_div_mod(x / 0x1_0000_0000_0000, 0x100);
    vstd::arithmetic::div_mod::lemma_div_denominator(x, 0x100, 0x100);
    vstd::arithmetic::div_mod::lemma_div_denominator(x, 0x1_0000, 0x100);
    vstd::arithmetic::div_mod::lemma_div_denominator(x, 0x100_0000, 0x100);
    vstd::arithmetic::div_mod::lemma_div_denominator(x, 0x1_0000_0000, 0x100);
    vstd::arithmetic::div_mod::lemma_div_denominator(x, 0x100_0000_0000, 0x100);
    vstd::arithmetic::div_mod::lemma_div_denominator(x, 0x1_0000_0000_0000, 0x100);
    assert(b[0] + b[1] * 0x100 + b[2] * 0x1_0000 + b[3] * 0x100_0000 + b[4] * 0x1_0000_0000 + b[5]
        * 0x100_0000_0000 + b[6] * 0x1_0000_0000_0000 + b[7] * 0x100_0000_0000_0000 == v);
}

/// Round trip: an encoded string, whatever follows it, decodes back to
/// exactly its characters and consumes exactly its encoding.
pub proof fn lemma_string_round_trip(chars: Seq<char>, rest: Seq<u8>)
    requires
        encode_utf8(chars).len() <= u32::MAX,
    ensures
        spec_string_deserialize(spec_string_encode(chars) + rest) == Ok::<(Seq<char>, int), Error>(
            (chars, spec_string_encode(chars).len() as int),
        ),
{
    broadcast use vstd::utf8::encode_utf8_valid_utf8;
    broadcast use vstd::utf8::encode_utf8_decode_utf8;

    let bytes = encode_utf8(chars);
    let len32 = bytes.len() as u32;
    let prefix = spec_varint_encode(len32);
    lemma_varint_encode_len(len32);
    lemma_varint_round_trip(len32, bytes + rest);
    let whole = spec_string_encode(chars) + rest;
    assert(whole =~= prefix + (bytes + rest));
    let n = prefix.len() as int;
    assert(whole.skip(n) =~= bytes + rest);
    assert((bytes + rest).take(len32 as int) =~= bytes);
    assert(valid_utf8(bytes));
    assert(vstd::utf8::decode_utf8(bytes) == chars);
}

/// Round trip: an encoded next-state tag, whatever follows it, decodes
/// back to exactly that variant.
pub proof fn lemma_next_state_round_trip(ns: HandshakeNextState, rest: Seq<u8>)
    ensures
        HandshakeNextState::spec_deserialize(spec_varint_encode(ns.spec_tag()) + rest) == Ok::<
            (HandshakeNextState, int),
            Error,
        >((ns, spec_varint_encode(ns.spec_tag()).len() as int)),
{
    lemma_varint_round_trip(ns.spec_tag(), rest);
}

/// Reinterpreting a 32-bit integer as unsigned and back changes nothing.
proof fn lemma_i32_cast_round_trip(v: i32)
    ensures
        ((v as u32) as i32) == v,
{
    assert((v as u32) as i32 == v) by (bit_vector);
}

/// Round trip: an encoded handshake body, whatever follows it, decodes
/// back to exactly its four fields (the property asks that the version,
/// address, port and next state all survive an encode-then-decode).
#[verifier::rlimit(60)]
pub proof fn lemma_handshake_round_trip(h: SpecHandshake, rest: Seq<u8>)
    requires
        encode_utf8(h.address).len() <= u32::MAX,
    ensures
        Handshake::spec_deserialize(spec_handshake_encode(h) + rest) == Ok::<
            (SpecHandshake, int),
            Error,
        >((h, spec_handshake_encode(h).len() as int)),
{
    let e1 = spec_varint_encode(h.version as u32);
    let e2 = spec_string_encode(h.address);
    let e3 = spec_u16_le(h.port);
    let e4 = spec_varint_encode(h.next_state.spec_tag());
    let whole = spec_handshake_encode(h) + rest;
    assert(whole =~= e1 + (e2 + (e3 + (e4 + rest))));
    lemma_varint_round_trip(h.version as u32, e2 + (e3 + (e4 + rest)));
    let n1 = e1.len() as int;
    assert(whole.skip(n1) =~= e2 + (e3 + (e4 + rest)));
    lemma_string_round_trip(h.address, e3 + (e4 + rest));
    assert(e2 + (e3 + (e4 + rest)) =~= spec_string_encode(h.address) + (e3 + (e4 + rest)));
    let n2 = e2.len() as int;
    assert(whole.skip(n1 + n2) =~= e3 + (e4 + rest));
    lemma_u16_round_trip(h.port, e4 + rest);
    assert(whole.skip(n1 + n2 + 2) =~= e4 + rest);
    lemma_next_state_round_trip(h.next_state, rest);
    lemma_i32_cast_round_trip(h.version);
    assert(spec_handshake_encode(h).len() == n1 + n2 + 2 + e4.len());
}

/// Round trip for a whole handshake-family packet: id, then the body.
pub proof fn lemma_handshake_packet_round_trip(h: SpecHandshake, rest: Seq<u8>)
    requires
        encode_utf8(h.address).len() <= u32::MAX,
    ensures
        crate::serverbound::handshake::Packet::spec_deserialize(
            spec_handshake_packet_encode(h) + rest,
        ) == Ok::<(crate::serverbound::handshake::SpecPacket, int), Error>(
            (
                crate::serverbound::handshake::SpecPacket::Handshake(h),
                spec_handshake_packet_encode(h).len() as int,
            ),
        ),
{
    let e0 = spec_varint_encode(0);
    let body = spec_handshake_encode(h);
    let whole = spec_handshake_packet_encode(h) + rest;
    assert(e0 == seq![0u8]);
    assert(whole =~= e0 + (body + rest));
    assert(whole[0] == 0u8);
    lemma_varint_round_trip(0, body + rest);
    assert(whole.skip(1) =~= body + rest);
    lemma_handshake_round_trip(h, rest);
}

/// Round trip for a serverbound status packet: id, then the body.
pub proof fn lemma_status_packet_round_trip(p: crate::serverbound::status::Packet, rest: Seq<u8>)
    ensures
        crate::serverbound::status::Packet::spec_deserialize(spec_status_packet_encode(p) + rest)
            == Ok::<(crate::serverbound::status::Packet, int), Error>(
            (p, spec_status_packet_encode(p).len() as int),
        ),
{
    let whole = spec_status_packet_encode(p) + rest;
    match p {
        crate::serverbound::status::Packet::Request(req) => {
            lemma_varint_round_trip(0, rest);
            assert(whole =~= spec_varint_encode(0) + rest);
            assert(whole.skip(1) =~= rest);
            assert(rest.skip(0) =~= rest);
        },
        crate::serverbound::status::Packet::Ping(ping) => {
            let e1 = spec_varint_encode(1);
            let body = spec_u64_le(ping.0);
            assert(whole =~= e1 + (body + rest));
            lemma_varint_round_trip(1, body + rest);
            assert(whole.skip(1) =~= body + rest);
            lemma_u64_round_trip(ping.0, rest);
        },
    }
}

/// Round trip for a clientbound status packet: id, then the body.
pub proof fn lemma_status_clientbound_round_trip(
    p: crate::clientbound::status::SpecPacket,
    rest: Seq<u8>,
)
    requires
        p matches crate::clientbound::status::SpecPacket::Response(resp) ==> encode_utf8(
            resp.resp,
        ).len() <= u32::MAX,
    ensures
        crate::clientbound::status::Packet::spec_deserialize(
            spec_status_clientbound_encode(p) + rest,
        ) == Ok::<(crate::clientbound::status::SpecPacket, int), Error>(
            (p, spec_status_clientbound_encode(p).len() as int),
        ),
{
    let whole = spec_status_clientbound_encode(p) + rest;
    match p {
        crate::clientbound::status::SpecPacket::Response(resp) => {
            let e1 = spec_varint_encode(0);
            let body = spec_string_encode(resp.resp);
            assert(whole =~= e1 + (body + rest));
            lemma_varint_round_trip(0, body + rest);
            assert(whole.skip(1) =~= body + rest);
            lemma_string_round_trip(resp.resp, rest);
            assert(SpecResponse { resp: resp.resp } == resp);
        },
        crate::clientbound::status::SpecPacket::Pong(pong) => {
            let e1 = spec_varint_encode(1);
            let body = spec_u64_le(pong.0);
            assert(whole =~= e1 + (body + rest));
            lemma_varint_round_trip(1, body + rest);
            assert(whole.skip(1) =~= body + rest);
            lemma_u64_round_trip(pong.0, rest);
        },
    }
}

} // verus!
