use mc_networking::data_types::Identifier;
use mc_networking::packets::client_bound::{C1EKeepAlive, ClientBoundPacket};
use mc_networking::packets::encoder::varint as stream_varint;
use mc_networking::packets::{PacketCompression, RawPacket};
use mc_networking::DecodingError;

#[test]
fn uncompressed_frame_layout() {
    let p = RawPacket::new(0x01, vec![0xaa, 0xbb]);
    let mut dst = Vec::new();
    p.encode(PacketCompression::default(), &mut dst);
    assert_eq!(dst, vec![3, 0x01, 0xaa, 0xbb]);
}

#[test]
fn frame_roundtrip_without_compression() {
    let p = RawPacket::new(0x2e, vec![1, 2, 3, 4, 5]);
    let mut dst = Vec::new();
    p.encode(PacketCompression::new(-1), &mut dst);
    dst.push(0x42);
    let back = RawPacket::decode(&mut dst, PacketCompression::new(-1)).unwrap();
    assert_eq!(back.packet_id, 0x2e);
    assert_eq!(back.data, vec![1, 2, 3, 4, 5]);
    assert_eq!(dst, vec![0x42]);
}

#[test]
fn small_packet_with_compression_is_sent_plain() {
    let p = RawPacket::new(0x05, vec![7; 3]);
    let mut dst = Vec::new();
    let c = PacketCompression::new(256);
    p.encode(c, &mut dst);
    assert_eq!(dst, vec![5, 0, 0x05, 7, 7, 7]);
    let back = RawPacket::decode(&mut dst, c).unwrap();
    assert_eq!(back.packet_id, 0x05);
    assert_eq!(back.data, vec![7, 7, 7]);
    assert!(dst.is_empty());
}

#[test]
fn large_packet_is_compressed_and_comes_back() {
    let data: Vec<u8> = (0..1000u32).map(|i| (i % 7) as u8).collect();
    let p = RawPacket::new(0x21, data.clone());
    let c = PacketCompression::new(64);
    assert!(p.will_compress(c));
    let mut dst = Vec::new();
    p.encode(c, &mut dst);
    assert!(dst.len() < data.len());
    let back = RawPacket::decode(&mut dst, c).unwrap();
    assert_eq!(back.packet_id, 0x21);
    assert_eq!(back.data, data);
    assert!(dst.is_empty());
}

#[test]
fn partial_frame_needs_more_bytes() {
    let mut bytes = vec![5, 0x01, 0xaa];
    assert!(matches!(
        RawPacket::decode(&mut bytes, PacketCompression::default()),
        Err(DecodingError::NotEnoughBytes)
    ));
    // the length prefix is taken
    assert_eq!(bytes, vec![0x01, 0xaa]);
    let mut bytes = vec![0x80];
    assert!(matches!(
        RawPacket::decode(&mut bytes, PacketCompression::default()),
        Err(DecodingError::NotEnoughBytes)
    ));
    assert!(bytes.is_empty());
}

#[test]
fn compression_settings() {
    assert!(!PacketCompression::default().is_enabled());
    assert!(!PacketCompression::new(0).is_enabled());
    assert!(PacketCompression::new(1).is_enabled());
    assert_eq!(PacketCompression::new(50).threshold(), 50);
}

#[test]
fn stream_varint_helpers() {
    assert_eq!(stream_varint::encode(300), vec![0xac, 0x02]);
    assert_eq!(stream_varint::decode(&[0xac, 0x02]).unwrap(), 300);
    assert!(matches!(stream_varint::decode(&[0xac]), Err(DecodingError::NotEnoughBytes)));
}

#[test]
fn compression_and_identifiers_deref() {
    let c = mc_networking::packets::PacketCompression::new(256);
    assert_eq!(*c, 256);
    let id = Identifier::from("stone");
    assert_eq!(&*id, "minecraft:stone");
    assert!(id.starts_with("minecraft:"));
}

#[test]
fn packets_encode_into_given_storage() {
    let mut storage = Vec::with_capacity(64);
    let p = C1EKeepAlive { id: 258 }.to_rawpacket_in(&mut storage);
    assert!(storage.is_empty());
    assert_eq!(p.packet_id, C1EKeepAlive { id: 0 }.to_rawpacket().packet_id);
    assert_eq!(p.data, vec![0, 0, 0, 0, 0, 0, 1, 2]);
}
