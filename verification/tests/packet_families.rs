use mckerel_protocol::clientbound;
use mckerel_protocol::de::{ByteReader, Deserialize, Error};
use mckerel_protocol::packets::Packet as PacketTrait;
use mckerel_protocol::ser::{
    encode_handshake, encode_status_clientbound, encode_status_packet, encode_varint,
};
use mckerel_protocol::serverbound::handshake;
use mckerel_protocol::serverbound::handshake::{Handshake, HandshakeNextState, LegacyPing};
use mckerel_protocol::serverbound::status;
use mckerel_protocol::serverbound::status::{Ping, Request};

#[test]
fn packet_ids_are_protocol_assigned() {
    assert_eq!(<Handshake as PacketTrait>::id(), 0x00);
    assert_eq!(<LegacyPing as PacketTrait>::id(), 0xfe);
    assert_eq!(<Request as PacketTrait>::id(), 0x00);
    assert_eq!(<Ping as PacketTrait>::id(), 0x01);
    assert_eq!(<clientbound::status::Response as PacketTrait>::id(), 0x00);
    assert_eq!(<clientbound::status::Pong as PacketTrait>::id(), 0x01);
}

#[test]
fn status_request_decodes_with_trailing_bytes() {
    let bytes = [0x00, 0x00, 0x00];
    let mut input = ByteReader::new(&bytes);
    assert_eq!(
        status::Packet::deserialize(&mut input),
        Ok(status::Packet::Request(Request))
    );
}

#[test]
fn status_ping_decodes_eight_byte_payload() {
    let bytes = [0x01, 42, 0, 0, 0, 0, 0, 0, 0];
    let mut input = ByteReader::new(&bytes);
    assert_eq!(
        status::Packet::deserialize(&mut input),
        Ok(status::Packet::Ping(Ping(42)))
    );
}

#[test]
fn status_unknown_tag_is_bad_packet_id() {
    let bytes = [0x09, 0x01, 0x02];
    let mut input = ByteReader::new(&bytes);
    assert_eq!(
        status::Packet::deserialize(&mut input),
        Err(Error::BadPacketId)
    );
}

#[test]
fn status_ping_truncated_payload_is_eof() {
    let bytes = [0x01, 42, 0, 0];
    let mut input = ByteReader::new(&bytes);
    assert_eq!(status::Packet::deserialize(&mut input), Err(Error::Eof));
}

#[test]
fn status_packets_round_trip() {
    for packet in [
        status::Packet::Request(Request),
        status::Packet::Ping(Ping(0xabcd_ef01_2345_6789)),
    ] {
        let bytes = encode_status_packet(&packet);
        let mut input = ByteReader::new(&bytes);
        assert_eq!(status::Packet::deserialize(&mut input), Ok(packet));
        assert!(input.done());
    }
}

#[test]
fn clientbound_status_round_trips() {
    let response = clientbound::status::Packet::Response(clientbound::status::Response {
        resp: String::from("{\"description\":\"hi\"}"),
    });
    let bytes = encode_status_clientbound(&response).unwrap();
    let mut input = ByteReader::new(&bytes);
    assert_eq!(
        clientbound::status::Packet::deserialize(&mut input),
        Ok(response)
    );

    let pong = clientbound::status::Packet::Pong(clientbound::status::Pong(77));
    let bytes = encode_status_clientbound(&pong).unwrap();
    let mut input = ByteReader::new(&bytes);
    assert_eq!(clientbound::status::Packet::deserialize(&mut input), Ok(pong));
}

#[test]
fn clientbound_unknown_tag_is_bad_packet_id() {
    let bytes = [0x07];
    let mut input = ByteReader::new(&bytes);
    assert_eq!(
        clientbound::status::Packet::deserialize(&mut input),
        Err(Error::BadPacketId)
    );
}

#[test]
fn handshake_round_trips_all_four_fields() {
    let original = Handshake {
        version: 47,
        address: String::from("localhost"),
        port: 25565,
        next_state: HandshakeNextState::Status,
    };
    let bytes = encode_handshake(&original).unwrap();
    let mut input = ByteReader::new(&bytes);
    match handshake::Packet::deserialize(&mut input) {
        Ok(handshake::Packet::Handshake(decoded)) => {
            assert_eq!(decoded.version, 47);
            assert_eq!(decoded.address, "localhost");
            assert_eq!(decoded.port, 25565);
            assert_eq!(decoded.next_state, HandshakeNextState::Status);
        }
        other => panic!("expected a handshake, got {:?}", other),
    }
    assert!(input.done());
}

#[test]
fn handshake_decodes_hand_built_wire_bytes() {
    let mut bytes = vec![0x00, 47, 9];
    bytes.extend_from_slice(b"localhost");
    bytes.extend_from_slice(&[0xdd, 0x63]); // 25565 little-endian
    bytes.push(0x02);
    let mut input = ByteReader::new(&bytes);
    match handshake::Packet::deserialize(&mut input) {
        Ok(handshake::Packet::Handshake(decoded)) => {
            assert_eq!(decoded.version, 47);
            assert_eq!(decoded.address, "localhost");
            assert_eq!(decoded.port, 25565);
            assert_eq!(decoded.next_state, HandshakeNextState::Login);
        }
        other => panic!("expected a handshake, got {:?}", other),
    }
}

#[test]
fn handshake_unknown_next_state_is_bad_enum_tag() {
    let mut bytes = encode_varint(0);
    bytes.extend_from_slice(&encode_varint(47));
    bytes.push(9);
    bytes.extend_from_slice(b"localhost");
    bytes.extend_from_slice(&[0xdd, 0x63]);
    bytes.push(0x03); // no variant carries tag 3
    let mut input = ByteReader::new(&bytes);
    assert_eq!(
        handshake::Packet::deserialize(&mut input),
        Err(Error::BadEnumTag)
    );
}

#[test]
fn handshake_unknown_packet_id_is_bad_packet_id() {
    let bytes = [0x05, 0x01, 0x02, 0x03];
    let mut input = ByteReader::new(&bytes);
    assert_eq!(
        handshake::Packet::deserialize(&mut input),
        Err(Error::BadPacketId)
    );
}

#[test]
fn handshake_family_detects_legacy_ping_sentinel() {
    // A leading 0xfe yields the legacy ping whatever follows, and only
    // that byte is consumed.
    let bytes = [0xfe, 0x01, 0x99, 0xaa];
    let mut input = ByteReader::new(&bytes);
    assert_eq!(
        handshake::Packet::deserialize(&mut input),
        Ok(handshake::Packet::LegacyPing(LegacyPing))
    );
    assert_eq!(input.remaining_len(), 3);
}

#[test]
fn handshake_family_empty_input_is_eof() {
    let bytes: [u8; 0] = [];
    let mut input = ByteReader::new(&bytes);
    assert_eq!(handshake::Packet::deserialize(&mut input), Err(Error::Eof));
}
