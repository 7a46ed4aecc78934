use mc_networking::client::crypto::LoginKey;
use mc_networking::client::protocol::{Action, Connection, LoginStartResult};
use mc_networking::client::stream::{PacketReader, PacketWriter};
use mc_networking::packets::{PacketCompression, RawPacket};
use mc_networking::DecodingError;
use openssl::rsa::{Padding, Rsa};

#[test]
fn plain_frames_round_trip() {
    let mut writer = PacketWriter::new();
    let bytes = writer.write(&RawPacket::new(0x26, vec![1, 2, 3])).unwrap();
    assert_eq!(bytes, vec![4, 0x26, 1, 2, 3]);
    let mut reader = PacketReader::new();
    assert!(reader.receive(&bytes));
    let p = reader.next_packet(PacketCompression::default()).unwrap().unwrap();
    assert_eq!(p.packet_id, 0x26);
    assert_eq!(p.data, vec![1, 2, 3]);
    assert!(matches!(reader.next_packet(PacketCompression::default()), Some(Err(DecodingError::NotEnoughBytes))));
}

#[test]
fn a_partial_frame_loses_its_length() {
    // reading a frame that is not all there consumes its length prefix
    let mut reader = PacketReader::new();
    assert!(reader.receive(&[4, 0x26]));
    assert!(matches!(reader.next_packet(PacketCompression::default()), Some(Err(DecodingError::NotEnoughBytes))));
    assert!(reader.receive(&[1, 2, 3]));
    // 0x26 is now taken for the length of the next frame
    assert!(matches!(reader.next_packet(PacketCompression::default()), Some(Err(DecodingError::NotEnoughBytes))));
}

#[test]
fn compressed_frames_round_trip() {
    let mut writer = PacketWriter::new();
    writer.set_compression(PacketCompression::new(4));
    let data: Vec<u8> = vec![5u8; 200];
    let bytes = writer.write(&RawPacket::new(0x20, data.clone())).unwrap();
    assert!(bytes.len() < data.len());
    let mut reader = PacketReader::new();
    assert!(reader.receive(&bytes));
    let p = reader.next_packet(PacketCompression::new(4)).unwrap().unwrap();
    assert_eq!(p.packet_id, 0x20);
    assert_eq!(p.data, data);
}

#[test]
fn encrypted_frames_round_trip() {
    let key = [7u8; 16];
    let mut writer = PacketWriter::new();
    assert!(writer.enable_encryption(&key));
    let first = writer.write(&RawPacket::new(1, vec![9, 9, 9])).unwrap();
    let second = writer.write(&RawPacket::new(2, vec![])).unwrap();
    assert_ne!(first, vec![4, 1, 9, 9, 9]);
    let mut reader = PacketReader::new();
    assert!(reader.enable_encryption(&key));
    assert!(reader.receive(&first));
    assert!(reader.receive(&second));
    let p = reader.next_packet(PacketCompression::default()).unwrap().unwrap();
    assert_eq!((p.packet_id, p.data), (1, vec![9, 9, 9]));
    let p = reader.next_packet(PacketCompression::default()).unwrap().unwrap();
    assert_eq!((p.packet_id, p.data), (2, vec![]));
}

#[test]
fn login_key_decrypts_what_its_public_half_encrypts() {
    let key = LoginKey::generate().unwrap();
    let public = Rsa::public_key_from_der(&key.public_key()).unwrap();
    assert_eq!(public.size(), 128);
    let secret = [3u8; 16];
    let token = [1u8, 2, 3, 4];
    let mut enc_secret = vec![0u8; 128];
    let n = public.public_encrypt(&secret, &mut enc_secret, Padding::PKCS1).unwrap();
    enc_secret.truncate(n);
    let mut enc_token = vec![0u8; 128];
    let n = public.public_encrypt(&token, &mut enc_token, Padding::PKCS1).unwrap();
    enc_token.truncate(n);
    let (k, t) = key.decrypt_login(&enc_secret, &enc_token).unwrap();
    assert_eq!(k, secret.to_vec());
    assert_eq!(t, token.to_vec());
    // a secret of the wrong length, or bytes that do not decrypt
    assert!(key.decrypt_login(&enc_token, &enc_token).is_none());
    assert!(key.decrypt_login(&[1, 2, 3], &enc_token).is_none());
}

#[test]
fn started_connections_send_a_four_byte_token() {
    let mut c = Connection::start(vec![1, 2]);
    assert_eq!(c.state(), mc_networking::client::ClientState::Handshaking);
    let mut handshake = vec![0xf6, 0x05, 1, b'h', 0x63, 0xdd, 2];
    c.on_packet(RawPacket::new(0, std::mem::take(&mut handshake))).unwrap();
    c.on_packet(RawPacket::new(0, vec![1, b'A', 0])).unwrap();
    let actions = c.on_login_start_result(LoginStartResult::Accept {
        uuid: 1,
        username: "A".to_string(),
        encrypt: true,
        compress: false,
    });
    match actions.as_slice() {
        [Action::Send(p)] => {
            assert_eq!(p.packet_id, 1);
            assert_eq!(&p.data[..5], &[0, 2, 1, 2, 4]);
            assert_eq!(p.data.len(), 9);
        }
        _ => panic!("expected the encryption request"),
    }
}
