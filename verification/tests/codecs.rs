use mc_networking::data_types::encoder::{string, varint, varlong, PacketDecoder, PacketEncoder};
use mc_networking::packets::encoder::string::{decode_string_sync, encode_string};
use mc_networking::DecodingError;

#[test]
fn varint_known_encodings() {
    assert_eq!(varint::encode(0), vec![0x00]);
    assert_eq!(varint::encode(1), vec![0x01]);
    assert_eq!(varint::encode(127), vec![0x7f]);
    assert_eq!(varint::encode(128), vec![0x80, 0x01]);
    assert_eq!(varint::encode(255), vec![0xff, 0x01]);
    assert_eq!(varint::encode(25565), vec![0xdd, 0xc7, 0x01]);
    assert_eq!(varint::encode(2147483647), vec![0xff, 0xff, 0xff, 0xff, 0x07]);
    assert_eq!(varint::encode(-1), vec![0xff, 0xff, 0xff, 0xff, 0x0f]);
    assert_eq!(varint::encode(-2147483648), vec![0x80, 0x80, 0x80, 0x80, 0x08]);
}

#[test]
fn varlong_known_encodings() {
    assert_eq!(varlong::encode(0), vec![0x00]);
    assert_eq!(varlong::encode(2147483647), vec![0xff, 0xff, 0xff, 0xff, 0x07]);
    assert_eq!(
        varlong::encode(-1),
        vec![0xff, 0xff, 0xff, 0xff, 0xff, 0xff, 0xff, 0xff, 0xff, 0x01]
    );
}

#[test]
fn varint_roundtrip_through_decoder() {
    for v in [0, 1, -1, 300, 25565, i32::MAX, i32::MIN, -300] {
        let mut d = PacketDecoder::from_bytes(varint::encode(v));
        assert_eq!(d.read_varint().unwrap(), v);
        assert_eq!(d.remaining(), 0);
    }
}

#[test]
fn varint_too_long_is_an_error() {
    let mut d = PacketDecoder::from_bytes(vec![0x80, 0x80, 0x80, 0x80, 0x80, 0x01]);
    match d.read_varint() {
        Err(DecodingError::ParseError { data_type, message }) => {
            assert_eq!(data_type, "varint or varlong");
            assert_eq!(message, "too many bytes");
        }
        _ => panic!("expected a parse error"),
    }
}

#[test]
fn varint_running_out_is_not_enough_bytes() {
    let mut d = PacketDecoder::from_bytes(vec![0x80, 0x80]);
    assert!(matches!(d.read_varint(), Err(DecodingError::NotEnoughBytes)));
    let mut buf = vec![0x80];
    assert!(matches!(varint::decode_buf(&mut buf), Err(DecodingError::NotEnoughBytes)));
    assert!(buf.is_empty());
}

#[test]
fn varint_decode_buf_consumes_what_it_reads() {
    let mut buf = vec![0xdd, 0xc7, 0x01, 0x05];
    assert_eq!(varint::decode_buf(&mut buf).unwrap(), 25565);
    assert_eq!(buf, vec![0x05]);
}

#[test]
fn fixed_width_values_are_big_endian() {
    let mut e = PacketEncoder::new();
    e.write_u16(0x1234);
    e.write_i32(-2);
    e.write_u64(1);
    e.write_bool(true);
    e.write_i8(-1);
    let bytes = e.consume();
    assert_eq!(
        bytes,
        vec![0x12, 0x34, 0xff, 0xff, 0xff, 0xfe, 0, 0, 0, 0, 0, 0, 0, 1, 1, 0xff]
    );
    let mut d = PacketDecoder::from_bytes(bytes);
    assert_eq!(d.read_u16().unwrap(), 0x1234);
    assert_eq!(d.read_i32().unwrap(), -2);
    assert_eq!(d.read_u64().unwrap(), 1);
    assert!(d.read_bool().unwrap());
    assert_eq!(d.read_i8().unwrap(), -1);
    assert!(matches!(d.read_u8(), Err(DecodingError::NotEnoughBytes)));
}

#[test]
fn floats_travel_as_their_bits() {
    let mut e = PacketEncoder::new();
    e.write_f32_bits(1.5f32.to_bits());
    e.write_f64_bits((-0.25f64).to_bits());
    let mut d = PacketDecoder::from_bytes(e.consume());
    assert_eq!(f32::from_bits(d.read_f32_bits().unwrap()), 1.5);
    assert_eq!(f64::from_bits(d.read_f64_bits().unwrap()), -0.25);
}

#[test]
fn uuid_is_sixteen_bytes() {
    let mut e = PacketEncoder::new();
    e.write_uuid(0x0102030405060708090a0b0c0d0e0f10);
    let bytes = e.consume();
    assert_eq!(bytes, (1u8..=16).collect::<Vec<u8>>());
    let mut d = PacketDecoder::from_bytes(bytes);
    assert_eq!(d.read_uuid().unwrap(), 0x0102030405060708090a0b0c0d0e0f10);
}

#[test]
fn string_roundtrip() {
    let bytes = string::encode("héllo");
    assert_eq!(bytes[0], 6);
    let mut d = PacketDecoder::from_bytes(bytes);
    assert_eq!(d.read_string().unwrap(), "héllo");
}

#[test]
fn string_with_bad_utf8_is_replaced() {
    let mut d = PacketDecoder::from_bytes(vec![2, 0xff, b'a']);
    assert_eq!(d.read_string().unwrap(), "\u{fffd}a");
}

#[test]
fn string_shorter_than_announced_takes_what_is_there() {
    let mut d = PacketDecoder::from_bytes(vec![5, b'a', b'b']);
    assert_eq!(d.read_string().unwrap(), "ab");
    assert_eq!(d.remaining(), 0);
}

#[test]
fn full_string_must_be_complete() {
    let bytes = encode_string("minecraft");
    assert_eq!(bytes[0], 9);
    let mut d = PacketDecoder::from_bytes(bytes);
    assert_eq!(decode_string_sync(&mut d).unwrap(), "minecraft");
    let mut short = PacketDecoder::from_bytes(vec![5, b'a']);
    assert!(matches!(decode_string_sync(&mut short), Err(DecodingError::NotEnoughBytes)));
}

#[test]
fn length_prefixed_bytes() {
    let mut d = PacketDecoder::from_bytes(vec![3, 9, 8, 7, 6]);
    assert_eq!(d.read_len_bytes().unwrap(), vec![9, 8, 7]);
    assert_eq!(d.read_to_end().unwrap(), vec![6]);
}

#[test]
fn a_record_of_fields_reads_back_in_order() {
    let mut e = PacketEncoder::new();
    e.write_u8(200);
    e.write_bool(true);
    e.write_i16(-2);
    e.write_u16(65535);
    e.write_i32(-123456);
    e.write_i64(i64::MIN);
    e.write_varint(-7);
    e.write_varlong(1 << 40);
    e.write_string("a→b");
    e.write_uuid(u128::MAX - 5);
    let mut d = PacketDecoder::from_bytes(e.consume());
    assert_eq!(d.read_u8().unwrap(), 200);
    assert!(d.read_bool().unwrap());
    assert_eq!(d.read_i16().unwrap(), -2);
    assert_eq!(d.read_u16().unwrap(), 65535);
    assert_eq!(d.read_i32().unwrap(), -123456);
    assert_eq!(d.read_i64().unwrap(), i64::MIN);
    assert_eq!(d.read_varint().unwrap(), -7);
    assert_eq!(d.read_varlong().unwrap(), 1 << 40);
    assert_eq!(d.read_string().unwrap(), "a→b");
    assert_eq!(d.read_uuid().unwrap(), u128::MAX - 5);
    assert_eq!(d.remaining(), 0);
    assert!(!d.has_panicked());
}

#[test]
fn a_negative_length_marks_the_decoder() {
    let mut d = PacketDecoder::from_bytes(vec![0xff, 0xff, 0xff, 0xff, 0x0f, b'a']);
    assert!(d.read_string().is_err());
    assert!(d.has_panicked());
    let mut d = PacketDecoder::from_bytes(vec![0xfe, 0xff, 0xff, 0xff, 0x0f]);
    assert!(d.read_len_bytes().is_err());
    assert!(d.has_panicked());
}
