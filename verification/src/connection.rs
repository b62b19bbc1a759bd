//! Transport framing and per-connection state.
//!
//! A connection reads one frame at a time: a VarNum frame length, then —
//! when compression is active — a VarNum decompressed-data length whose
//! wire width counts against the frame length, then the payload, either
//! literal or a zlib blob. The frame is capped to exactly its declared
//! length, so a malformed payload can never read into the next frame, and
//! a single leading sentinel byte is recognised as the legacy ping before
//! any length decoding is attempted.

use vstd::prelude::*;
use crate::de::{ByteReader, Error};
use crate::varnum::{lemma_feed_first_byte, spec_varint_decode, VarNumReader};
use crate::serverbound::handshake::LEGACY_PING_SENTINEL;

verus! {

/// Everything that can go wrong while reading a frame. A corrupt or
/// truncated zlib stream, and an inflated size that does not match the
/// declared data length, are kept distinct from the decode errors.
#[derive(Debug, Clone, Copy, PartialEq, Eq, Structural)]
pub enum FrameError {
    /// The buffered stream ended before the frame did.
    Eof,
    /// A length prefix is not a well-formed VarNum.
    BadVarNum,
    /// The compressed payload is corrupt, truncated, or inflates to a
    /// size other than the declared data length.
    BadDeflate,
}

/// The frame-level rendering of a decode error raised by a length VarNum.
pub open spec fn spec_frame_err(e: Error) -> FrameError {
    if e == Error::Eof {
        FrameError::Eof
    } else {
        FrameError::BadVarNum
    }
}

fn frame_err(e: Error) -> (r: FrameError)
    ensures
        r == spec_frame_err(e),
{
    match e {
        Error::Eof => FrameError::Eof,
        _ => FrameError::BadVarNum,
    }
}

/// What inflating one zlib stream from the front of the bytes produces,
/// or nothing when the stream is truncated or corrupt. A pure function of
/// the bytes alone; bytes after the end of the stream do not count.
pub uninterp spec fn zlib_inflate(bytes: Seq<u8>) -> Option<Seq<u8>>;

/// Relies on flate2's bufread::ZlibDecoder, read through
/// std::io::Read::read_to_end: it inflates exactly one zlib stream from
/// the front of the bytes, ignores whatever follows that stream, and
/// fails on a truncated or corrupt stream.
#[verifier::external_body]
fn inflate_bytes(bytes: &[u8]) -> (r: Option<Vec<u8>>)
    ensures
        r matches Some(v) ==> zlib_inflate(bytes@) == Some(v@),
        r is None ==> zlib_inflate(bytes@) is None,
{
    let mut out = Vec::new();
    let mut dec = flate2::bufread::ZlibDecoder::new(bytes);
    match std::io::Read::read_to_end(&mut dec, &mut out) {
        Ok(_) => Some(out),
        Err(_) => None,
    }
}

/// What the payload of a frame body (the bytes after the outer length
/// prefix, exactly the frame's declared length of them) is.
///
/// With compression off the body is the literal payload. With compression
/// on, the body opens with the decompressed-data length: zero declares
/// the rest literal, and a nonzero value declares the rest a zlib blob
/// that must inflate to exactly that many bytes.
pub open spec fn spec_frame_payload(compression: bool, body: Seq<u8>) -> Result<
    Seq<u8>,
    FrameError,
> {
    if !compression {
        Ok(body)
    } else {
        match spec_varint_decode(body) {
            Err(e) => Err(spec_frame_err(e)),
            Ok((data_len, n)) => {
                let rest = body.skip(n);
                if data_len == 0 {
                    Ok(rest)
                } else {
                    match zlib_inflate(rest) {
                        Some(out) => if out.len() == data_len {
                            Ok(out)
                        } else {
                            Err(FrameError::BadDeflate)
                        },
                        None => Err(FrameError::BadDeflate),
                    }
                }
            },
        }
    }
}

/// What reading one frame body of declared length `len` from the front
/// of `bytes` yields: a frame longer than the bytes actually available
/// is truncated and fails with `Eof`, never with a partial payload.
pub open spec fn spec_read_body(compression: bool, bytes: Seq<u8>, len: int) -> Result<
    Seq<u8>,
    FrameError,
> {
    if bytes.len() < len {
        Err(FrameError::Eof)
    } else {
        spec_frame_payload(compression, bytes.take(len))
    }
}

/// What reading one whole frame (length prefix included) from the front
/// of `bytes` yields: the payload and the count of bytes consumed.
pub open spec fn spec_read_packet(compression: bool, bytes: Seq<u8>) -> Result<
    (Seq<u8>, int),
    FrameError,
> {
    match spec_varint_decode(bytes) {
        Err(e) => Err(spec_frame_err(e)),
        Ok((len, n)) => match spec_read_body(compression, bytes.skip(n), len as int) {
            Ok(payload) => Ok((payload, n + len)),
            Err(e) => Err(e),
        },
    }
}

/// One frame, or the legacy ping probe an old client sends in its place.
#[derive(Debug, Clone, PartialEq, Eq)]
pub enum PacketOrLegacyPing {
    /// The frame's payload, owned and fully decompressed.
    Packet(Vec<u8>),
    /// A legacy ping; it carries no structured payload.
    LegacyPing,
}

/// The mathematical shape of `PacketOrLegacyPing`.
pub enum SpecPacketOrLegacyPing {
    Packet(Seq<u8>),
    LegacyPing,
}

impl View for PacketOrLegacyPing {
    type V = SpecPacketOrLegacyPing;

    open spec fn view(&self) -> SpecPacketOrLegacyPing {
        match self {
            PacketOrLegacyPing::Packet(v) => SpecPacketOrLegacyPing::Packet(v@),
            PacketOrLegacyPing::LegacyPing => SpecPacketOrLegacyPing::LegacyPing,
        }
    }
}

/// What reading either a frame or a legacy ping from the front of
/// `bytes` yields. A stream beginning with the sentinel byte is a legacy
/// ping, regardless of what follows; any other stream is an ordinary
/// VarNum-length frame.
pub open spec fn spec_read_packet_or_legacy_ping(compression: bool, bytes: Seq<u8>) -> Result<
    (SpecPacketOrLegacyPing, int),
    FrameError,
> {
    if bytes.len() == 0 {
        Err(FrameError::Eof)
    } else if bytes[0] == LEGACY_PING_SENTINEL {
        Ok((SpecPacketOrLegacyPing::LegacyPing, 1))
    } else {
        match spec_read_packet(compression, bytes) {
            Ok((payload, n)) => Ok((SpecPacketOrLegacyPing::Packet(payload), n)),
            Err(e) => Err(e),
        }
    }
}

/// The state a connection holds for its lifetime: whether the very first
/// read may be a legacy ping, and the negotiated compression threshold
/// (`None` means compression is disabled; with `Some(n)`, `n` governs
/// whether a sender compresses a given packet, while inbound frames
/// self-describe compression via the data-length field).
pub struct Connection {
    pub expect_legacy_ping: bool,
    pub compression_threshold: Option<u32>,
}

impl Connection {
    /// Inbound frames carry a data-length field exactly when a threshold
    /// has been negotiated.
    pub open spec fn compression_enabled(self) -> bool {
        self.compression_threshold is Some
    }

    /// A fresh connection: the first packet may be a legacy ping, and
    /// compression is off until negotiated.
    pub fn new() -> (r: Self)
        ensures
            r.expect_legacy_ping,
            r.compression_threshold is None,
    {
        Self { expect_legacy_ping: true, compression_threshold: None }
    }

    /// Record the outcome of compression negotiation.
    pub fn set_compression_threshold(&mut self, threshold: Option<u32>)
        ensures
            final(self).compression_threshold == threshold,
            final(self).expect_legacy_ping == old(self).expect_legacy_ping,
    {
        self.compression_threshold = threshold;
    }

    /// Read one frame body whose declared length is already known,
    /// materialising the payload into an owned buffer.
    pub fn read_packet_with_length(&self, input: &mut ByteReader, packet_length: usize) -> (r:
        Result<Vec<u8>, FrameError>)
        ensures
            final(input)@.len() <= old(input)@.len(),
            match spec_read_body(
                self.compression_enabled(),
                old(input)@,
                packet_length as int,
            ) {
                Ok(payload) => {
                    &&& r matches Ok(v)
                    &&& v@ == payload
                    &&& final(input)@ == old(input)@.skip(packet_length as int)
                },
                Err(e) => {
                    &&& r == Err::<Vec<u8>, FrameError>(e)
                    &&& old(input)@.len() >= packet_length ==> final(input)@ == old(
                        input,
                    )@.skip(packet_length as int)
                    &&& old(input)@.len() < packet_length ==> final(input)@ == old(input)@
                },
            },
    {
        let body = match input.read_bytes(packet_length) {
            Ok(b) => b,
            Err(_) => {
                return Err(FrameError::Eof);
            },
        };
        if self.compression_threshold.is_none() {
            return Ok(vstd::slice::slice_to_vec(body));
        }
        let mut br = ByteReader::new(body);
        let data_length = match VarNumReader::new().read_from(&mut br) {
            Ok(v) => v,
            Err(e) => {
                return Err(frame_err(e));
            },
        };
        let rest_len = br.remaining_len();
        let rest = match br.read_bytes(rest_len) {
            Ok(b) => b,
            Err(_) => {
                return Err(FrameError::Eof);
            },
        };
        proof {
            let n = spec_varint_decode(body@)->Ok_0.1;
            assert(rest@ =~= body@.skip(n));
        }
        if data_length == 0 {
            return Ok(vstd::slice::slice_to_vec(rest));
        }
        match inflate_bytes(rest) {
            Some(out) => {
                if out.len() == data_length as usize {
                    Ok(out)
                } else {
                    Err(FrameError::BadDeflate)
                }
            },
            None => Err(FrameError::BadDeflate),
        }
    }

    /// Read one whole frame: its VarNum length, then its body.
    pub fn read_packet(&self, input: &mut ByteReader) -> (r: Result<Vec<u8>, FrameError>)
        ensures
            final(input)@.len() <= old(input)@.len(),
            match spec_read_packet(self.compression_enabled(), old(input)@) {
                Ok((payload, n)) => {
                    &&& r matches Ok(v)
                    &&& v@ == payload
                    &&& final(input)@ == old(input)@.skip(n)
                },
                Err(e) => {
                    &&& r == Err::<Vec<u8>, FrameError>(e)
                    &&& ({
                        // even a malformed payload consumes exactly its
                        // frame: the next frame stays aligned
                        let d = spec_varint_decode(old(input)@);
                        let whole = old(input)@;
                        d matches Ok(p) ==> (whole.skip(p.1).len() >= p.0 ==> final(input)@
                            == whole.skip(p.1 + p.0))
                    })
                },
            },
    {
        let ghost pre = input@;
        let packet_length = match VarNumReader::new().read_from(input) {
            Ok(v) => v,
            Err(e) => {
                return Err(frame_err(e));
            },
        };
        let ghost n = spec_varint_decode(pre)->Ok_0.1;
        let r = self.read_packet_with_length(input, packet_length as usize);
        proof {
            if pre.skip(n).len() >= packet_length {
                assert(pre.skip(n).skip(packet_length as int) =~= pre.skip(n + packet_length));
            }
        }
        r
    }

    /// Read one frame, unless the stream opens with the legacy sentinel
    /// byte: then a legacy ping is reported and only that byte consumed.
    pub fn read_packet_or_legacy_ping(&self, input: &mut ByteReader) -> (r: Result<
        PacketOrLegacyPing,
        FrameError,
    >)
        ensures
            final(input)@.len() <= old(input)@.len(),
            match spec_read_packet_or_legacy_ping(self.compression_enabled(), old(input)@) {
                Ok((v, n)) => {
                    &&& r matches Ok(p)
                    &&& p@ == v
                    &&& final(input)@ == old(input)@.skip(n)
                },
                Err(e) => r == Err::<PacketOrLegacyPing, FrameError>(e),
            },
    {
        let ghost pre = input@;
        let first_byte = match input.read_byte() {
            Ok(b) => b,
            Err(_) => {
                return Err(FrameError::Eof);
            },
        };
        if first_byte == LEGACY_PING_SENTINEL {
            return Ok(PacketOrLegacyPing::LegacyPing);
        }
        let length_reader = VarNumReader::new().try_read_byte(first_byte);
        proof {
            lemma_feed_first_byte(pre, length_reader);
        }
        let packet_length = match length_reader.read_from(input) {
            Ok(v) => v,
            Err(e) => {
                return Err(frame_err(e));
            },
        };
        let ghost n = spec_varint_decode(pre)->Ok_0.1;
        proof {
            assert(input@ =~= pre.skip(n));
        }
        let body = self.read_packet_with_length(input, packet_length as usize)?;
        proof {
            assert(pre.skip(n).skip(packet_length as int) =~= pre.skip(n + packet_length));
        }
        Ok(PacketOrLegacyPing::Packet(body))
    }
}

} // verus!
