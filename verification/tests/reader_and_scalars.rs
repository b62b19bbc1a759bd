use mckerel_protocol::de::{ByteReader, Deserialize, Error};
use mckerel_protocol::ser::{encode_string, encode_u16, encode_u64};

#[test]
fn reader_reads_bytes_in_order() {
    let data = [1u8, 2, 3];
    let mut input = ByteReader::new(&data);
    assert!(!input.done());
    assert_eq!(input.read_byte(), Ok(1));
    assert_eq!(input.read_byte(), Ok(2));
    assert_eq!(input.read_byte(), Ok(3));
    assert!(input.done());
    assert_eq!(input.read_byte(), Err(Error::Eof));
}

#[test]
fn reader_never_over_reads() {
    // Asking for more bytes than remain fails and leaves the cursor
    // exactly where it was.
    let data = [1u8, 2, 3];
    let mut input = ByteReader::new(&data);
    assert_eq!(input.read_byte(), Ok(1));
    assert_eq!(input.remaining_len(), 2);
    assert_eq!(input.read_bytes(3), Err(Error::Eof));
    assert_eq!(input.remaining_len(), 2);
    assert_eq!(input.read_bytes(2), Ok(&[2u8, 3][..]));
    assert_eq!(input.remaining_len(), 0);
    assert_eq!(input.read_bytes(1), Err(Error::Eof));
}

#[test]
fn reader_read_bytes_of_zero_is_always_ok() {
    let data: [u8; 0] = [];
    let mut input = ByteReader::new(&data);
    assert_eq!(input.read_bytes(0), Ok(&[][..]));
    assert!(input.done());
}

#[test]
fn fixed_width_integers_decode_little_endian() {
    let mut input = ByteReader::new(&[0x39, 0x30]);
    assert_eq!(u16::deserialize(&mut input), Ok(0x3039));

    let mut input = ByteReader::new(&[0xff, 0xff]);
    assert_eq!(i16::deserialize(&mut input), Ok(-1));

    let mut input = ByteReader::new(&[0x78, 0x56, 0x34, 0x12]);
    assert_eq!(u32::deserialize(&mut input), Ok(0x12345678));

    let mut input = ByteReader::new(&[0xff, 0xff, 0xff, 0xff]);
    assert_eq!(i32::deserialize(&mut input), Ok(-1));

    let mut input = ByteReader::new(&[42, 0, 0, 0, 0, 0, 0, 0]);
    assert_eq!(u64::deserialize(&mut input), Ok(42));

    let mut input = ByteReader::new(&[0xff; 8]);
    assert_eq!(i64::deserialize(&mut input), Ok(-1));

    let mut input = ByteReader::new(&[0x2a]);
    assert_eq!(u8::deserialize(&mut input), Ok(42));

    let mut input = ByteReader::new(&[0xff]);
    assert_eq!(i8::deserialize(&mut input), Ok(-1));
}

#[test]
fn fixed_width_integers_fail_on_short_input() {
    let mut input = ByteReader::new(&[1, 2, 3, 4, 5, 6, 7]);
    assert_eq!(u64::deserialize(&mut input), Err(Error::Eof));
    let mut input = ByteReader::new(&[1]);
    assert_eq!(u16::deserialize(&mut input), Err(Error::Eof));
}

#[test]
fn integer_encoders_round_trip() {
    let bytes = encode_u16(25565);
    let mut input = ByteReader::new(&bytes);
    assert_eq!(u16::deserialize(&mut input), Ok(25565));

    let bytes = encode_u64(0xdead_beef_cafe_f00d);
    let mut input = ByteReader::new(&bytes);
    assert_eq!(u64::deserialize(&mut input), Ok(0xdead_beef_cafe_f00d));
}

#[test]
fn strings_decode_with_length_prefix() {
    let mut bytes = vec![5u8];
    bytes.extend_from_slice(b"hello");
    let mut input = ByteReader::new(&bytes);
    assert_eq!(String::deserialize(&mut input), Ok(String::from("hello")));
    assert!(input.done());
}

#[test]
fn empty_string_decodes() {
    let bytes = [0u8];
    let mut input = ByteReader::new(&bytes);
    assert_eq!(String::deserialize(&mut input), Ok(String::new()));
}

#[test]
fn string_decode_fails_on_short_body() {
    let mut bytes = vec![5u8];
    bytes.extend_from_slice(b"he");
    let mut input = ByteReader::new(&bytes);
    assert_eq!(String::deserialize(&mut input), Err(Error::Eof));
}

#[test]
fn string_decode_rejects_bad_utf8() {
    let bytes = [2u8, 0xff, 0xfe];
    let mut input = ByteReader::new(&bytes);
    assert_eq!(String::deserialize(&mut input), Err(Error::BadUtf8));
}

#[test]
fn string_encoder_round_trips_non_ascii() {
    // Two-byte UTF-8 sequences: the length prefix counts bytes, not
    // characters, and decoding restores the characters exactly.
    let text = "h\u{e9}llo \u{2603}";
    let encoded = encode_string(text).unwrap();
    assert_eq!(encoded[0] as usize, text.len());
    assert!(text.len() > text.chars().count());
    let mut input = ByteReader::new(&encoded);
    assert_eq!(String::deserialize(&mut input), Ok(String::from(text)));
}
