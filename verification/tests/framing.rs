use std::io::Write;

use mckerel_protocol::connection::{Connection, FrameError, PacketOrLegacyPing};
use mckerel_protocol::de::{ByteReader, Deserialize};
use mckerel_protocol::ser::{encode_handshake, encode_varint};
use mckerel_protocol::serverbound::handshake;

fn frame(body: &[u8]) -> Vec<u8> {
    let mut out = encode_varint(body.len() as u32);
    out.extend_from_slice(body);
    out
}

fn zlib_compress(data: &[u8]) -> Vec<u8> {
    let mut encoder =
        flate2::write::ZlibEncoder::new(Vec::new(), flate2::Compression::default());
    encoder.write_all(data).unwrap();
    encoder.finish().unwrap()
}

#[test]
fn new_connection_expects_legacy_ping_and_no_compression() {
    let conn = Connection::new();
    assert!(conn.expect_legacy_ping);
    assert_eq!(conn.compression_threshold, None);
}

#[test]
fn uncompressed_frame_yields_literal_payload() {
    let conn = Connection::new();
    let mut stream = frame(&[1, 2, 3]);
    stream.extend_from_slice(&[0xaa, 0xbb]); // the next frame's bytes
    let mut input = ByteReader::new(&stream);
    assert_eq!(conn.read_packet(&mut input), Ok(vec![1, 2, 3]));
    assert_eq!(input.remaining_len(), 2);
}

#[test]
fn truncated_frame_is_eof_not_partial_payload() {
    // The declared length exceeds what is buffered: the read fails with
    // Eof and never returns a short payload.
    let conn = Connection::new();
    let mut stream = encode_varint(10);
    stream.extend_from_slice(&[1, 2, 3]);
    let mut input = ByteReader::new(&stream);
    assert_eq!(conn.read_packet(&mut input), Err(FrameError::Eof));
}

#[test]
fn empty_stream_is_eof() {
    let conn = Connection::new();
    let stream: [u8; 0] = [];
    let mut input = ByteReader::new(&stream);
    assert_eq!(conn.read_packet(&mut input), Err(FrameError::Eof));
    let mut input = ByteReader::new(&stream);
    assert_eq!(
        conn.read_packet_or_legacy_ping(&mut input),
        Err(FrameError::Eof)
    );
}

#[test]
fn malformed_length_prefix_is_bad_varnum() {
    let conn = Connection::new();
    let stream = [0x80u8, 0x80, 0x80, 0x80, 0x80, 0x80];
    let mut input = ByteReader::new(&stream);
    assert_eq!(conn.read_packet(&mut input), Err(FrameError::BadVarNum));
}

#[test]
fn leading_sentinel_byte_is_a_legacy_ping() {
    // 0xfe where a frame length would begin yields a legacy ping,
    // regardless of what follows.
    let conn = Connection::new();
    let stream = [0xfeu8, 0x01, 0x00, 0x55];
    let mut input = ByteReader::new(&stream);
    assert_eq!(
        conn.read_packet_or_legacy_ping(&mut input),
        Ok(PacketOrLegacyPing::LegacyPing)
    );
    assert_eq!(input.remaining_len(), 3);
}

#[test]
fn non_sentinel_first_byte_is_an_ordinary_frame() {
    let conn = Connection::new();
    let mut stream = frame(&[7, 8]);
    stream.push(0xfe); // later bytes may hold the sentinel value freely
    let mut input = ByteReader::new(&stream);
    assert_eq!(
        conn.read_packet_or_legacy_ping(&mut input),
        Ok(PacketOrLegacyPing::Packet(vec![7, 8]))
    );
    assert_eq!(input.remaining_len(), 1);
}

#[test]
fn zero_data_length_means_literal_even_with_compression_on() {
    let mut conn = Connection::new();
    conn.set_compression_threshold(Some(256));
    let mut body = encode_varint(0);
    body.extend_from_slice(&[9, 8, 7]);
    let stream = frame(&body);
    let mut input = ByteReader::new(&stream);
    assert_eq!(conn.read_packet(&mut input), Ok(vec![9, 8, 7]));
}

#[test]
fn nonzero_data_length_inflates_the_payload() {
    let mut conn = Connection::new();
    conn.set_compression_threshold(Some(4));
    let data = b"hello world hello world hello world";
    let mut body = encode_varint(data.len() as u32);
    body.extend_from_slice(&zlib_compress(data));
    let stream = frame(&body);
    let mut input = ByteReader::new(&stream);
    assert_eq!(conn.read_packet(&mut input), Ok(data.to_vec()));
    assert!(input.done());
}

#[test]
fn inflated_size_must_match_declared_data_length() {
    let mut conn = Connection::new();
    conn.set_compression_threshold(Some(4));
    let data = b"hello world hello world";
    let mut body = encode_varint(data.len() as u32 + 1);
    body.extend_from_slice(&zlib_compress(data));
    let stream = frame(&body);
    let mut input = ByteReader::new(&stream);
    assert_eq!(conn.read_packet(&mut input), Err(FrameError::BadDeflate));
}

#[test]
fn corrupt_zlib_stream_fails_the_read() {
    let mut conn = Connection::new();
    conn.set_compression_threshold(Some(4));
    let mut body = encode_varint(5);
    body.extend_from_slice(&[0x00, 0x01, 0x02, 0x03]);
    let stream = frame(&body);
    let mut input = ByteReader::new(&stream);
    assert_eq!(conn.read_packet(&mut input), Err(FrameError::BadDeflate));
}

#[test]
fn compressed_frame_followed_by_another_frame() {
    // The frame is capped to its declared length: inflating it does not
    // read into the next frame.
    let mut conn = Connection::new();
    conn.set_compression_threshold(Some(4));
    let data = b"abcdefgh abcdefgh";
    let mut body = encode_varint(data.len() as u32);
    body.extend_from_slice(&zlib_compress(data));
    let mut stream = frame(&body);
    let second = frame(&{
        let mut b = encode_varint(0);
        b.extend_from_slice(&[1, 2]);
        b
    });
    stream.extend_from_slice(&second);
    let mut input = ByteReader::new(&stream);
    assert_eq!(conn.read_packet(&mut input), Ok(data.to_vec()));
    assert_eq!(conn.read_packet(&mut input), Ok(vec![1, 2]));
    assert!(input.done());
}

#[test]
fn whole_handshake_flows_from_frame_to_packet() {
    let original = handshake::Handshake {
        version: 47,
        address: String::from("localhost"),
        port: 25565,
        next_state: handshake::HandshakeNextState::Status,
    };
    let packet_bytes = encode_handshake(&original).unwrap();
    let stream = frame(&packet_bytes);
    let conn = Connection::new();
    let mut input = ByteReader::new(&stream);
    let payload = match conn.read_packet_or_legacy_ping(&mut input) {
        Ok(PacketOrLegacyPing::Packet(payload)) => payload,
        other => panic!("expected a frame, got {:?}", other),
    };
    let mut content = ByteReader::new(&payload);
    match handshake::Packet::deserialize(&mut content) {
        Ok(handshake::Packet::Handshake(decoded)) => {
            assert_eq!(decoded.version, original.version);
            assert_eq!(decoded.address, original.address);
            assert_eq!(decoded.port, original.port);
            assert_eq!(decoded.next_state, original.next_state);
        }
        other => panic!("expected a handshake, got {:?}", other),
    }
}
