use mc_networking::data_types::encoder::PacketEncoder;
use mc_networking::data_types::{Identifier, Position};
use mc_networking::packets::client_bound::{
    C23Login, C23RegistryCodec,
    C01Pong, C02LoginSuccess, C03SetCompression, C1FPalettedContainer, C1FSection, C2FPlayerAbilities,
    C38RemoveEntities, C3DBlockChange, C3DUpdateSectionBlocks, C47EntityEquipmentSlot, C48SetCenterChunk,
    ClientBoundPacket, C04LoginPluginRequest, C06SetBlockDestroyStage, C34PlayerInfo, C34RemovePlayer,
};
use mc_networking::packets::server_bound::{
    S00Handshake, S01Ping, S06ActionId, S06ClientCommand, S07ClientInformation, S0CPluginMessage, S0FInteract,
    S0FInteractKind, S1CDiggingFace, S1CPlayerAction, S1CStatus, S1DActionId, S1DPlayerCommand,
    ServerBoundPacket,
};
use mc_networking::packets::RawPacket;
use mc_networking::DecodingError;

fn parse_error(e: DecodingError) -> (String, String) {
    match e {
        DecodingError::ParseError { data_type, message } => (data_type, message),
        other => panic!("expected a parse error, got {:?}", other),
    }
}

#[test]
fn handshake_decoding() {
    let mut data = vec![0xf6, 0x05, 9];
    data.extend_from_slice(b"localhost");
    data.extend_from_slice(&[0x63, 0xdd, 2]);
    let h = S00Handshake::decode(RawPacket::new(0, data)).unwrap();
    assert_eq!(h.protocol_version, 758);
    assert_eq!(h.server_addr, "localhost");
    assert_eq!(h.server_port, 25565);
    assert_eq!(h.next_state, 2);
}

#[test]
fn wrong_packet_id_is_refused() {
    let e = S01Ping::decode(RawPacket::new(0x1c, vec![0; 8])).err().unwrap();
    assert_eq!(parse_error(e), ("packet 0x1".to_string(), "invalid packet id".to_string()));
    let e = S1CPlayerAction::decode(RawPacket::new(0x01, vec![])).err().unwrap();
    assert_eq!(parse_error(e).0, "packet 0x1c");
}

#[test]
fn leftover_bytes_are_refused() {
    let e = S01Ping::decode(RawPacket::new(0x01, vec![0; 10])).err().unwrap();
    assert_eq!(
        parse_error(e),
        (
            "packet 0x1".to_string(),
            "not all bytes have been read after decoding (2 remaining)".to_string()
        )
    );
}

#[test]
fn ping_payload() {
    let p = S01Ping::decode(RawPacket::new(0x01, vec![0, 0, 0, 0, 0, 0, 1, 2])).unwrap();
    assert_eq!(p.payload, 0x102);
    assert!(matches!(
        S01Ping::decode(RawPacket::new(0x01, vec![0, 0])),
        Err(DecodingError::NotEnoughBytes)
    ));
}

#[test]
fn client_command_actions() {
    let c = S06ClientCommand::decode(RawPacket::new(0x06, vec![1])).unwrap();
    assert_eq!(c.action_id, S06ActionId::RequestStats);
    let e = S06ClientCommand::decode(RawPacket::new(0x06, vec![7])).err().unwrap();
    assert_eq!(
        parse_error(e),
        ("packet 0x06".to_string(), "invalid action id (expected 0 or 1; received 7)".to_string())
    );
    let e = S06ClientCommand::decode(RawPacket::new(0x06, vec![0xff, 0xff, 0xff, 0xff, 0x0f])).err().unwrap();
    assert_eq!(parse_error(e).1, "invalid action id (expected 0 or 1; received -1)");
}

#[test]
fn client_information() {
    let mut data = vec![5];
    data.extend_from_slice(b"en_GB");
    data.extend_from_slice(&[12, 0, 1, 0x7f, 1, 0, 1]);
    let info = S07ClientInformation::decode(RawPacket::new(0x07, data)).unwrap();
    assert_eq!(info.locale, "en_GB");
    assert_eq!(info.view_distance, 12);
    assert_eq!(info.chat_mode, 0);
    assert!(info.chat_colors);
    assert_eq!(info.displayed_skin_parts, 0x7f);
    assert_eq!(info.main_hand, 1);
    assert!(!info.enable_text_filtering);
    assert!(info.allow_server_listings);
}

#[test]
fn plugin_message_channel() {
    let mut data = vec![5];
    data.extend_from_slice(b"brand");
    data.extend_from_slice(b"vanilla");
    let m = S0CPluginMessage::decode(RawPacket::new(0x0c, data)).unwrap();
    assert_eq!(m.channel.as_str(), "minecraft:brand");
    assert_eq!(m.data, b"vanilla".to_vec());
}

#[test]
fn interact_kinds() {
    let i = S0FInteract::decode(RawPacket::new(0x0f, vec![3, 1, 1])).unwrap();
    assert_eq!(i.entity_id, 3);
    assert!(i.kind.is_attack());
    assert!(i.sneaking);
    let mut data = vec![3, 2];
    data.extend_from_slice(&1.0f32.to_bits().to_be_bytes());
    data.extend_from_slice(&2.0f32.to_bits().to_be_bytes());
    data.extend_from_slice(&0.5f32.to_bits().to_be_bytes());
    data.extend_from_slice(&[1, 0]);
    let i = S0FInteract::decode(RawPacket::new(0x0f, data)).unwrap();
    match i.kind {
        S0FInteractKind::InteractAt { target_x, target_y, target_z, hand } => {
            assert_eq!(f32::from_bits(target_x), 1.0);
            assert_eq!(f32::from_bits(target_y), 2.0);
            assert_eq!(f32::from_bits(target_z), 0.5);
            assert_eq!(hand, 1);
        }
        _ => panic!("expected interact at"),
    }
    assert!(i.kind.is_interact_at());
    let e = S0FInteract::decode(RawPacket::new(0x0f, vec![3, 9, 0])).err().unwrap();
    assert_eq!(parse_error(e).1, "not all bytes have been read after decoding (1 remaining)");
    let e = S0FInteract::decode(RawPacket::new(0x0f, vec![3, 9])).err().unwrap();
    assert_eq!(parse_error(e).1, "invalid kind id (expected 0, 1 or 2; received 9)");
}

#[test]
fn player_action() {
    let pos = Position { x: 10, y: 64, z: -3 };
    let mut data = vec![2];
    data.extend_from_slice(&pos.encode().to_be_bytes());
    data.extend_from_slice(&[1, 7]);
    let a = S1CPlayerAction::decode(RawPacket::new(0x1c, data)).unwrap();
    assert_eq!(a.status, S1CStatus::FinishedDigging);
    assert_eq!(a.position, pos);
    assert_eq!(a.face, S1CDiggingFace::Top);
    assert_eq!(a.sequence, 7);
    let e = S1CPlayerAction::decode(RawPacket::new(0x1c, vec![9])).err().unwrap();
    assert_eq!(parse_error(e).1, "invalid player digging status (expected 0 through 6, received 9");
}

#[test]
fn player_command_is_three_varints() {
    let p = S1DPlayerCommand::decode(RawPacket::new(0x1d, vec![5, 1, 0])).unwrap();
    assert_eq!(p.entity_id, 5);
    assert_eq!(p.action_id, S1DActionId::StopSneaking);
    assert_eq!(p.jump_boost, 0);
    let p = S1DPlayerCommand::decode(RawPacket::new(0x1d, vec![5, 5, 100])).unwrap();
    assert_eq!(p.action_id, S1DActionId::StartJumpWithHorse);
    assert_eq!(p.jump_boost, 100);
    let e = S1DPlayerCommand::decode(RawPacket::new(0x1d, vec![5, 20])).err().unwrap();
    assert_eq!(parse_error(e).1, "invalid action id (expected 0 through 8, received 20)");
}

#[test]
fn enum_conversions() {
    assert_eq!(S1CStatus::from_i32(6), Some(S1CStatus::SwapItemInHand));
    assert_eq!(S1CStatus::from_i32(7), None);
    assert_eq!(S1CDiggingFace::from_i8(-1), None);
    assert_eq!(S1DActionId::from_i32(8), Some(S1DActionId::StartFlyingWithElytra));
    assert_eq!(S06ActionId::from_i32(0), Some(S06ActionId::PerformRespawn));
}

#[test]
fn simple_client_packets() {
    let p = C01Pong { payload: 258 }.to_rawpacket();
    assert_eq!(p.packet_id, 1);
    assert_eq!(p.data, vec![0, 0, 0, 0, 0, 0, 1, 2]);
    let p = C03SetCompression { threshold: 256 }.to_rawpacket();
    assert_eq!((p.packet_id, p.data), (3, vec![0x80, 0x02]));
    let p = C48SetCenterChunk { chunk_x: -1, chunk_z: 2 }.to_rawpacket();
    assert_eq!(p.packet_id, 0x40);
    assert_eq!(p.data, vec![0xff, 0xff, 0xff, 0xff, 0x0f, 2]);
    let p = C02LoginSuccess { uuid: 1, username: "Bob".to_string() }.to_rawpacket();
    let mut want = vec![0u8; 15];
    want.extend_from_slice(&[1, 3, b'B', b'o', b'b', 0]);
    assert_eq!(p.data, want);
}

#[test]
fn login_plugin_request_and_destroy_stage() {
    let p = C04LoginPluginRequest {
        message_id: 1,
        channel: Identifier::from("a:b"),
        data: vec![9],
    }
    .to_rawpacket();
    assert_eq!(p.data, vec![1, 3, b'a', b':', b'b', 9]);
    let p = C06SetBlockDestroyStage { entity_id: 2, position: Position { x: 0, y: 1, z: 0 }, destroy_stage: -1 }
        .to_rawpacket();
    assert_eq!(p.packet_id, 7);
    assert_eq!(p.data, vec![2, 0, 0, 0, 0, 0, 0, 0, 1, 0xff]);
}

#[test]
fn remove_entities() {
    let p = C38RemoveEntities { entities: vec![1, 300] }.to_rawpacket();
    assert_eq!(p.data, vec![2, 1, 0xac, 0x02]);
}

#[test]
fn player_abilities_flags() {
    assert_eq!(C2FPlayerAbilities::new(true, false, true, false, 0, 0).flags, 0x05);
    assert_eq!(C2FPlayerAbilities::new(false, true, false, true, 0, 0).flags, 0x0a);
    let p = C2FPlayerAbilities::new(true, true, true, true, 0.05f32.to_bits(), 0.1f32.to_bits());
    assert_eq!(p.flags, 0x0f);
    let raw = p.to_rawpacket();
    assert_eq!(raw.data[0], 0x0f);
    assert_eq!(&raw.data[1..5], &0.05f32.to_bits().to_be_bytes());
}

#[test]
fn section_update_packing() {
    let p = C3DUpdateSectionBlocks {
        section_x: 1,
        section_y: 2,
        section_z: 3,
        inverted_trust_edges: false,
        blocks: vec![C3DBlockChange { x: 1, y: 2, z: 3, block_id: 5 }],
    }
    .to_rawpacket();
    let packed: u64 = (1u64 << 42) | (3u64 << 20) | 2;
    let mut want = packed.to_be_bytes().to_vec();
    want.extend_from_slice(&[0, 1]);
    let block: i64 = (5 << 12) | (1 << 8) | (3 << 4) | 2;
    want.extend_from_slice(&mc_networking::data_types::encoder::varlong::encode(block));
    assert_eq!(p.data, want);
}

#[test]
fn paletted_container_and_section() {
    let mut e = PacketEncoder::new();
    C1FPalettedContainer::Single(9).encode(&mut e);
    assert_eq!(e.consume(), vec![0, 9, 0]);
    let mut e = PacketEncoder::new();
    C1FPalettedContainer::Indirect { bits_per_entry: 4, palette: vec![1, 2, 3], data_array: vec![1] }.encode(&mut e);
    // the palette's length is written, its entries are not
    assert_eq!(e.consume(), vec![4, 3, 1, 0, 0, 0, 0, 0, 0, 0, 1]);
    let mut e = PacketEncoder::new();
    C1FPalettedContainer::Indirect { bits_per_entry: 4, palette: vec![0, 1], data_array: vec![] }.encode(&mut e);
    assert_eq!(e.consume(), vec![4, 2, 0]);
    let mut e = PacketEncoder::new();
    C1FSection {
        block_count: 16,
        block_states: C1FPalettedContainer::Single(1),
        biomes: C1FPalettedContainer::Direct { bits_per_entry: 6, data_array: vec![] },
    }
    .encode(&mut e);
    assert_eq!(e.consume(), vec![0, 16, 0, 1, 0, 6, 0]);
}

#[test]
fn player_info_removal() {
    let p = C34PlayerInfo::RemovePlayers { players: vec![C34RemovePlayer { uuid: 7 }] }.to_rawpacket();
    let mut want = vec![4, 1];
    want.extend_from_slice(&7u128.to_be_bytes());
    assert_eq!(p.data, want);
    assert_eq!(C47EntityEquipmentSlot::Head.number(), 5);
}

#[test]
fn login_packet_bytes() {
    let login = C23Login {
        entity_id: 7,
        is_hardcore: false,
        gamemode: 2,
        previous_gamemode: -1,
        dimension_names: vec![Identifier::from("heav:voidy")],
        registry_codec: C23RegistryCodec { dimension_types: vec![], biomes: vec![] },
        dimension_type: Identifier::from("heav:voidy"),
        dimension_name: Identifier::from("heav:voidy"),
        hashed_seed: 0,
        max_players: 2,
        view_distance: 12,
        simulation_distance: 12,
        reduced_debug_info: false,
        enable_respawn_screen: true,
        is_debug: false,
        is_flat: true,
        death_location: None,
    };
    let p = login.to_rawpacket();
    assert_eq!(p.packet_id, 0x23);
    let mut want = vec![0, 0, 0, 7, 0, 2, 0xff, 1, 10];
    want.extend_from_slice(b"heav:voidy");
    // the registries: an empty NBT compound with an empty name
    want.extend_from_slice(&[0x0a, 0, 0, 0]);
    want.push(10);
    want.extend_from_slice(b"heav:voidy");
    want.push(10);
    want.extend_from_slice(b"heav:voidy");
    want.extend_from_slice(&[0; 8]);
    want.extend_from_slice(&[2, 12, 12, 0, 1, 0, 1, 0]);
    assert_eq!(p.data, want);
}
