//! What the server's packets mean on the wire: the bytes a packet is
//! encoded as give its fields back, read one after the other in the
//! protocol's order.
use crate::data_types::encoder::fixed::{be_bytes, lemma_be_bytes_len, lemma_pow256_values};
use crate::data_types::encoder::roundtrip::{
    bool_roundtrip, fixed_roundtrip, i16_roundtrip, i32_roundtrip, i64_roundtrip, string_roundtrip, u8_roundtrip,
    uuid_roundtrip, varint_roundtrip,
};
use crate::data_types::encoder::{
    read_bool_at, read_i16_at, read_len_bytes_at, read_i32_at, read_i64_at, read_i8_at, read_u128_at, read_u32_at, read_u64_at,
    read_u8_at, read_varint_at, string, varint, Parsed,
};
use vstd::utf8::encode_utf8;
use crate::packets::client_bound::{
    C00SpawnEntity, C01Pong, C01SpawnExperienceOrb, C03EntityAnimation, C06SetBlockDestroyStage, C09BlockChange,
    C1AUnloadChunk, C1BGameEvent, C1EKeepAlive, C3CSetHeadRotation, C47SetHeldItem, C4ASetDefaultSpawnPosition,
    C60SetTabListHeaderAndFooter, COCChatPreview, C01EncryptionRequest, C02LoginSuccess, C04LoginPluginRequest,
    C15PluginMessage,
    C02SpawnPlayer, C1FPalettedContainer, C1FSection, longs, C26UpdateEntityPosition, C27UpdateEntityPositionAndRotation, C28UpdateEntityRotation,
    C2FPlayerAbilities, C36SynchronizePlayerPosition, C48SetCenterChunk, C4FSetEntityVelocity, C63TeleportEntity,
    ClientBoundPacket,
};
use crate::packets::wire_laws::{bool_byte, len_bytes, len_bytes_read_back, u32_reads_back, u64_reads_back};
use vstd::prelude::*;

verus! {

/// Update Entity Position reads back, in the protocol's order: the entity
/// id, the three deltas x, y, z, and the on-ground flag.
pub proof fn update_entity_position_reads_back(p: C26UpdateEntityPosition, bytes: Seq<u8>)
    requires
        p.encoded_as(bytes),
    ensures
        read_varint_at(bytes, (0) as nat) == (Parsed::Value { value: p.entity_id, pos: (0 + varint::spec_encode(p.entity_id).len()) as nat }),
        read_i16_at(bytes, (0 + varint::spec_encode(p.entity_id).len()) as nat) == (Parsed::Value { value: p.delta_x, pos: (0 + varint::spec_encode(p.entity_id).len() + 2) as nat }),
        read_i16_at(bytes, (0 + varint::spec_encode(p.entity_id).len() + 2) as nat) == (Parsed::Value { value: p.delta_y, pos: (0 + varint::spec_encode(p.entity_id).len() + 2 + 2) as nat }),
        read_i16_at(bytes, (0 + varint::spec_encode(p.entity_id).len() + 2 + 2) as nat) == (Parsed::Value { value: p.delta_z, pos: (0 + varint::spec_encode(p.entity_id).len() + 2 + 2 + 2) as nat }),
        read_bool_at(bytes, (0 + varint::spec_encode(p.entity_id).len() + 2 + 2 + 2) as nat) == (Parsed::Value { value: p.on_ground, pos: (0 + varint::spec_encode(p.entity_id).len() + 2 + 2 + 2 + 1) as nat }),
        bytes.len() == 0 + varint::spec_encode(p.entity_id).len() + 2 + 2 + 2 + 1,
{
    lemma_be_bytes_len((p.delta_x as u16) as nat, 2);
    lemma_be_bytes_len((p.delta_y as u16) as nat, 2);
    lemma_be_bytes_len((p.delta_z as u16) as nat, 2);
    lemma_be_bytes_len(if p.on_ground { 1 } else { 0 }, 1);
    let e0 = varint::spec_encode(p.entity_id);
    let e1 = be_bytes((p.delta_x as u16) as nat, 2);
    let e2 = be_bytes((p.delta_y as u16) as nat, 2);
    let e3 = be_bytes((p.delta_z as u16) as nat, 2);
    let e4 = bool_byte(p.on_ground);
    assert(bytes =~= e0 + e1 + e2 + e3 + e4);
    varint_roundtrip(p.entity_id, Seq::<u8>::empty(), e1 + e2 + e3 + e4);
    assert(Seq::<u8>::empty() + e0 + (e1 + e2 + e3 + e4) =~= bytes);
    i16_roundtrip(p.delta_x, e0, e2 + e3 + e4);
    assert(e0 + e1 + (e2 + e3 + e4) =~= bytes);
    i16_roundtrip(p.delta_y, e0 + e1, e3 + e4);
    assert(e0 + e1 + e2 + (e3 + e4) =~= bytes);
    i16_roundtrip(p.delta_z, e0 + e1 + e2, e4);
    assert(e0 + e1 + e2 + e3 + (e4) =~= bytes);
    bool_roundtrip(p.on_ground, e0 + e1 + e2 + e3, Seq::<u8>::empty());
    assert(e0 + e1 + e2 + e3 + e4 + (Seq::<u8>::empty()) =~= bytes);
}

/// Update Entity Position and Rotation reads back, in the protocol's order:
/// the entity id, the deltas x, y, z, the yaw, the pitch, and the
/// on-ground flag.
pub proof fn update_entity_position_and_rotation_reads_back(p: C27UpdateEntityPositionAndRotation, bytes: Seq<u8>)
    requires
        p.encoded_as(bytes),
    ensures
        read_varint_at(bytes, (0) as nat) == (Parsed::Value { value: p.entity_id, pos: (0 + varint::spec_encode(p.entity_id).len()) as nat }),
        read_i16_at(bytes, (0 + varint::spec_encode(p.entity_id).len()) as nat) == (Parsed::Value { value: p.delta_x, pos: (0 + varint::spec_encode(p.entity_id).len() + 2) as nat }),
        read_i16_at(bytes, (0 + varint::spec_encode(p.entity_id).len() + 2) as nat) == (Parsed::Value { value: p.delta_y, pos: (0 + varint::spec_encode(p.entity_id).len() + 2 + 2) as nat }),
        read_i16_at(bytes, (0 + varint::spec_encode(p.entity_id).len() + 2 + 2) as nat) == (Parsed::Value { value: p.delta_z, pos: (0 + varint::spec_encode(p.entity_id).len() + 2 + 2 + 2) as nat }),
        read_u8_at(bytes, (0 + varint::spec_encode(p.entity_id).len() + 2 + 2 + 2) as nat) == (Parsed::Value { value: p.yaw, pos: (0 + varint::spec_encode(p.entity_id).len() + 2 + 2 + 2 + 1) as nat }),
        read_u8_at(bytes, (0 + varint::spec_encode(p.entity_id).len() + 2 + 2 + 2 + 1) as nat) == (Parsed::Value { value: p.pitch, pos: (0 + varint::spec_encode(p.entity_id).len() + 2 + 2 + 2 + 1 + 1) as nat }),
        read_bool_at(bytes, (0 + varint::spec_encode(p.entity_id).len() + 2 + 2 + 2 + 1 + 1) as nat) == (Parsed::Value { value: p.on_ground, pos: (0 + varint::spec_encode(p.entity_id).len() + 2 + 2 + 2 + 1 + 1 + 1) as nat }),
        bytes.len() == 0 + varint::spec_encode(p.entity_id).len() + 2 + 2 + 2 + 1 + 1 + 1,
{
    lemma_be_bytes_len((p.delta_x as u16) as nat, 2);
    lemma_be_bytes_len((p.delta_y as u16) as nat, 2);
    lemma_be_bytes_len((p.delta_z as u16) as nat, 2);
    lemma_be_bytes_len(p.yaw as nat, 1);
    lemma_be_bytes_len(p.pitch as nat, 1);
    lemma_be_bytes_len(if p.on_ground { 1 } else { 0 }, 1);
    let e0 = varint::spec_encode(p.entity_id);
    let e1 = be_bytes((p.delta_x as u16) as nat, 2);
    let e2 = be_bytes((p.delta_y as u16) as nat, 2);
    let e3 = be_bytes((p.delta_z as u16) as nat, 2);
    let e4 = be_bytes(p.yaw as nat, 1);
    let e5 = be_bytes(p.pitch as nat, 1);
    let e6 = bool_byte(p.on_ground);
    assert(bytes =~= e0 + e1 + e2 + e3 + e4 + e5 + e6);
    varint_roundtrip(p.entity_id, Seq::<u8>::empty(), e1 + e2 + e3 + e4 + e5 + e6);
    assert(Seq::<u8>::empty() + e0 + (e1 + e2 + e3 + e4 + e5 + e6) =~= bytes);
    i16_roundtrip(p.delta_x, e0, e2 + e3 + e4 + e5 + e6);
    assert(e0 + e1 + (e2 + e3 + e4 + e5 + e6) =~= bytes);
    i16_roundtrip(p.delta_y, e0 + e1, e3 + e4 + e5 + e6);
    assert(e0 + e1 + e2 + (e3 + e4 + e5 + e6) =~= bytes);
    i16_roundtrip(p.delta_z, e0 + e1 + e2, e4 + e5 + e6);
    assert(e0 + e1 + e2 + e3 + (e4 + e5 + e6) =~= bytes);
    u8_roundtrip(p.yaw, e0 + e1 + e2 + e3, e5 + e6);
    assert(e0 + e1 + e2 + e3 + e4 + (e5 + e6) =~= bytes);
    u8_roundtrip(p.pitch, e0 + e1 + e2 + e3 + e4, e6);
    assert(e0 + e1 + e2 + e3 + e4 + e5 + (e6) =~= bytes);
    bool_roundtrip(p.on_ground, e0 + e1 + e2 + e3 + e4 + e5, Seq::<u8>::empty());
    assert(e0 + e1 + e2 + e3 + e4 + e5 + e6 + (Seq::<u8>::empty()) =~= bytes);
}

/// Update Entity Rotation reads back: the entity id, the yaw, the pitch,
/// and the on-ground flag.
pub proof fn update_entity_rotation_reads_back(p: C28UpdateEntityRotation, bytes: Seq<u8>)
    requires
        p.encoded_as(bytes),
    ensures
        read_varint_at(bytes, (0) as nat) == (Parsed::Value { value: p.entity_id, pos: (0 + varint::spec_encode(p.entity_id).len()) as nat }),
        read_u8_at(bytes, (0 + varint::spec_encode(p.entity_id).len()) as nat) == (Parsed::Value { value: p.yaw, pos: (0 + varint::spec_encode(p.entity_id).len() + 1) as nat }),
        read_u8_at(bytes, (0 + varint::spec_encode(p.entity_id).len() + 1) as nat) == (Parsed::Value { value: p.pitch, pos: (0 + varint::spec_encode(p.entity_id).len() + 1 + 1) as nat }),
        read_bool_at(bytes, (0 + varint::spec_encode(p.entity_id).len() + 1 + 1) as nat) == (Parsed::Value { value: p.on_ground, pos: (0 + varint::spec_encode(p.entity_id).len() + 1 + 1 + 1) as nat }),
        bytes.len() == 0 + varint::spec_encode(p.entity_id).len() + 1 + 1 + 1,
{
    lemma_be_bytes_len(p.yaw as nat, 1);
    lemma_be_bytes_len(p.pitch as nat, 1);
    lemma_be_bytes_len(if p.on_ground { 1 } else { 0 }, 1);
    let e0 = varint::spec_encode(p.entity_id);
    let e1 = be_bytes(p.yaw as nat, 1);
    let e2 = be_bytes(p.pitch as nat, 1);
    let e3 = bool_byte(p.on_ground);
    assert(bytes =~= e0 + e1 + e2 + e3);
    varint_roundtrip(p.entity_id, Seq::<u8>::empty(), e1 + e2 + e3);
    assert(Seq::<u8>::empty() + e0 + (e1 + e2 + e3) =~= bytes);
    u8_roundtrip(p.yaw, e0, e2 + e3);
    assert(e0 + e1 + (e2 + e3) =~= bytes);
    u8_roundtrip(p.pitch, e0 + e1, e3);
    assert(e0 + e1 + e2 + (e3) =~= bytes);
    bool_roundtrip(p.on_ground, e0 + e1 + e2, Seq::<u8>::empty());
    assert(e0 + e1 + e2 + e3 + (Seq::<u8>::empty()) =~= bytes);
}

/// Set Entity Velocity reads back: the entity id and the velocity along x,
/// y and z.
pub proof fn set_entity_velocity_reads_back(p: C4FSetEntityVelocity, bytes: Seq<u8>)
    requires
        p.encoded_as(bytes),
    ensures
        read_varint_at(bytes, (0) as nat) == (Parsed::Value { value: p.entity_id, pos: (0 + varint::spec_encode(p.entity_id).len()) as nat }),
        read_i16_at(bytes, (0 + varint::spec_encode(p.entity_id).len()) as nat) == (Parsed::Value { value: p.vel_x, pos: (0 + varint::spec_encode(p.entity_id).len() + 2) as nat }),
        read_i16_at(bytes, (0 + varint::spec_encode(p.entity_id).len() + 2) as nat) == (Parsed::Value { value: p.vel_y, pos: (0 + varint::spec_encode(p.entity_id).len() + 2 + 2) as nat }),
        read_i16_at(bytes, (0 + varint::spec_encode(p.entity_id).len() + 2 + 2) as nat) == (Parsed::Value { value: p.vel_z, pos: (0 + varint::spec_encode(p.entity_id).len() + 2 + 2 + 2) as nat }),
        bytes.len() == 0 + varint::spec_encode(p.entity_id).len() + 2 + 2 + 2,
{
    lemma_be_bytes_len((p.vel_x as u16) as nat, 2);
    lemma_be_bytes_len((p.vel_y as u16) as nat, 2);
    lemma_be_bytes_len((p.vel_z as u16) as nat, 2);
    let e0 = varint::spec_encode(p.entity_id);
    let e1 = be_bytes((p.vel_x as u16) as nat, 2);
    let e2 = be_bytes((p.vel_y as u16) as nat, 2);
    let e3 = be_bytes((p.vel_z as u16) as nat, 2);
    assert(bytes =~= e0 + e1 + e2 + e3);
    varint_roundtrip(p.entity_id, Seq::<u8>::empty(), e1 + e2 + e3);
    assert(Seq::<u8>::empty() + e0 + (e1 + e2 + e3) =~= bytes);
    i16_roundtrip(p.vel_x, e0, e2 + e3);
    assert(e0 + e1 + (e2 + e3) =~= bytes);
    i16_roundtrip(p.vel_y, e0 + e1, e3);
    assert(e0 + e1 + e2 + (e3) =~= bytes);
    i16_roundtrip(p.vel_z, e0 + e1 + e2, Seq::<u8>::empty());
    assert(e0 + e1 + e2 + e3 + (Seq::<u8>::empty()) =~= bytes);
}

/// Teleport Entity reads back: the entity id, x, y, z, the yaw, the pitch,
/// and the on-ground flag.
pub proof fn teleport_entity_reads_back(p: C63TeleportEntity, bytes: Seq<u8>)
    requires
        p.encoded_as(bytes),
    ensures
        read_varint_at(bytes, (0) as nat) == (Parsed::Value { value: p.entity_id, pos: (0 + varint::spec_encode(p.entity_id).len()) as nat }),
        read_u64_at(bytes, (0 + varint::spec_encode(p.entity_id).len()) as nat) == (Parsed::Value { value: p.x, pos: (0 + varint::spec_encode(p.entity_id).len() + 8) as nat }),
        read_u64_at(bytes, (0 + varint::spec_encode(p.entity_id).len() + 8) as nat) == (Parsed::Value { value: p.y, pos: (0 + varint::spec_encode(p.entity_id).len() + 8 + 8) as nat }),
        read_u64_at(bytes, (0 + varint::spec_encode(p.entity_id).len() + 8 + 8) as nat) == (Parsed::Value { value: p.z, pos: (0 + varint::spec_encode(p.entity_id).len() + 8 + 8 + 8) as nat }),
        read_u8_at(bytes, (0 + varint::spec_encode(p.entity_id).len() + 8 + 8 + 8) as nat) == (Parsed::Value { value: p.yaw, pos: (0 + varint::spec_encode(p.entity_id).len() + 8 + 8 + 8 + 1) as nat }),
        read_u8_at(bytes, (0 + varint::spec_encode(p.entity_id).len() + 8 + 8 + 8 + 1) as nat) == (Parsed::Value { value: p.pitch, pos: (0 + varint::spec_encode(p.entity_id).len() + 8 + 8 + 8 + 1 + 1) as nat }),
        read_bool_at(bytes, (0 + varint::spec_encode(p.entity_id).len() + 8 + 8 + 8 + 1 + 1) as nat) == (Parsed::Value { value: p.on_ground, pos: (0 + varint::spec_encode(p.entity_id).len() + 8 + 8 + 8 + 1 + 1 + 1) as nat }),
        bytes.len() == 0 + varint::spec_encode(p.entity_id).len() + 8 + 8 + 8 + 1 + 1 + 1,
{
    lemma_be_bytes_len(p.x as nat, 8);
    lemma_be_bytes_len(p.y as nat, 8);
    lemma_be_bytes_len(p.z as nat, 8);
    lemma_be_bytes_len(p.yaw as nat, 1);
    lemma_be_bytes_len(p.pitch as nat, 1);
    lemma_be_bytes_len(if p.on_ground { 1 } else { 0 }, 1);
    let e0 = varint::spec_encode(p.entity_id);
    let e1 = be_bytes(p.x as nat, 8);
    let e2 = be_bytes(p.y as nat, 8);
    let e3 = be_bytes(p.z as nat, 8);
    let e4 = be_bytes(p.yaw as nat, 1);
    let e5 = be_bytes(p.pitch as nat, 1);
    let e6 = bool_byte(p.on_ground);
    assert(bytes =~= e0 + e1 + e2 + e3 + e4 + e5 + e6);
    varint_roundtrip(p.entity_id, Seq::<u8>::empty(), e1 + e2 + e3 + e4 + e5 + e6);
    assert(Seq::<u8>::empty() + e0 + (e1 + e2 + e3 + e4 + e5 + e6) =~= bytes);
    u64_reads_back(p.x, e0, e2 + e3 + e4 + e5 + e6);
    assert(e0 + e1 + (e2 + e3 + e4 + e5 + e6) =~= bytes);
    u64_reads_back(p.y, e0 + e1, e3 + e4 + e5 + e6);
    assert(e0 + e1 + e2 + (e3 + e4 + e5 + e6) =~= bytes);
    u64_reads_back(p.z, e0 + e1 + e2, e4 + e5 + e6);
    assert(e0 + e1 + e2 + e3 + (e4 + e5 + e6) =~= bytes);
    u8_roundtrip(p.yaw, e0 + e1 + e2 + e3, e5 + e6);
    assert(e0 + e1 + e2 + e3 + e4 + (e5 + e6) =~= bytes);
    u8_roundtrip(p.pitch, e0 + e1 + e2 + e3 + e4, e6);
    assert(e0 + e1 + e2 + e3 + e4 + e5 + (e6) =~= bytes);
    bool_roundtrip(p.on_ground, e0 + e1 + e2 + e3 + e4 + e5, Seq::<u8>::empty());
    assert(e0 + e1 + e2 + e3 + e4 + e5 + e6 + (Seq::<u8>::empty()) =~= bytes);
}

/// Spawn Player reads back: the entity id, the UUID, x, y, z, the yaw and
/// the pitch.
pub proof fn spawn_player_reads_back(p: C02SpawnPlayer, bytes: Seq<u8>)
    requires
        p.encoded_as(bytes),
    ensures
        read_varint_at(bytes, (0) as nat) == (Parsed::Value { value: p.entity_id, pos: (0 + varint::spec_encode(p.entity_id).len()) as nat }),
        read_u128_at(bytes, (0 + varint::spec_encode(p.entity_id).len()) as nat) == (Parsed::Value { value: p.uuid, pos: (0 + varint::spec_encode(p.entity_id).len() + 16) as nat }),
        read_u64_at(bytes, (0 + varint::spec_encode(p.entity_id).len() + 16) as nat) == (Parsed::Value { value: p.x, pos: (0 + varint::spec_encode(p.entity_id).len() + 16 + 8) as nat }),
        read_u64_at(bytes, (0 + varint::spec_encode(p.entity_id).len() + 16 + 8) as nat) == (Parsed::Value { value: p.y, pos: (0 + varint::spec_encode(p.entity_id).len() + 16 + 8 + 8) as nat }),
        read_u64_at(bytes, (0 + varint::spec_encode(p.entity_id).len() + 16 + 8 + 8) as nat) == (Parsed::Value { value: p.z, pos: (0 + varint::spec_encode(p.entity_id).len() + 16 + 8 + 8 + 8) as nat }),
        read_u8_at(bytes, (0 + varint::spec_encode(p.entity_id).len() + 16 + 8 + 8 + 8) as nat) == (Parsed::Value { value: p.yaw, pos: (0 + varint::spec_encode(p.entity_id).len() + 16 + 8 + 8 + 8 + 1) as nat }),
        read_u8_at(bytes, (0 + varint::spec_encode(p.entity_id).len() + 16 + 8 + 8 + 8 + 1) as nat) == (Parsed::Value { value: p.pitch, pos: (0 + varint::spec_encode(p.entity_id).len() + 16 + 8 + 8 + 8 + 1 + 1) as nat }),
        bytes.len() == 0 + varint::spec_encode(p.entity_id).len() + 16 + 8 + 8 + 8 + 1 + 1,
{
    lemma_be_bytes_len(p.uuid as nat, 16);
    lemma_be_bytes_len(p.x as nat, 8);
    lemma_be_bytes_len(p.y as nat, 8);
    lemma_be_bytes_len(p.z as nat, 8);
    lemma_be_bytes_len(p.yaw as nat, 1);
    lemma_be_bytes_len(p.pitch as nat, 1);
    let e0 = varint::spec_encode(p.entity_id);
    let e1 = be_bytes(p.uuid as nat, 16);
    let e2 = be_bytes(p.x as nat, 8);
    let e3 = be_bytes(p.y as nat, 8);
    let e4 = be_bytes(p.z as nat, 8);
    let e5 = be_bytes(p.yaw as nat, 1);
    let e6 = be_bytes(p.pitch as nat, 1);
    assert(bytes =~= e0 + e1 + e2 + e3 + e4 + e5 + e6);
    varint_roundtrip(p.entity_id, Seq::<u8>::empty(), e1 + e2 + e3 + e4 + e5 + e6);
    assert(Seq::<u8>::empty() + e0 + (e1 + e2 + e3 + e4 + e5 + e6) =~= bytes);
    uuid_roundtrip(p.uuid, e0, e2 + e3 + e4 + e5 + e6);
    assert(e0 + e1 + (e2 + e3 + e4 + e5 + e6) =~= bytes);
    u64_reads_back(p.x, e0 + e1, e3 + e4 + e5 + e6);
    assert(e0 + e1 + e2 + (e3 + e4 + e5 + e6) =~= bytes);
    u64_reads_back(p.y, e0 + e1 + e2, e4 + e5 + e6);
    assert(e0 + e1 + e2 + e3 + (e4 + e5 + e6) =~= bytes);
    u64_reads_back(p.z, e0 + e1 + e2 + e3, e5 + e6);
    assert(e0 + e1 + e2 + e3 + e4 + (e5 + e6) =~= bytes);
    u8_roundtrip(p.yaw, e0 + e1 + e2 + e3 + e4, e6);
    assert(e0 + e1 + e2 + e3 + e4 + e5 + (e6) =~= bytes);
    u8_roundtrip(p.pitch, e0 + e1 + e2 + e3 + e4 + e5, Seq::<u8>::empty());
    assert(e0 + e1 + e2 + e3 + e4 + e5 + e6 + (Seq::<u8>::empty()) =~= bytes);
}

/// Player Abilities reads back: the flags, the flying speed, and the field
/// of view modifier.
pub proof fn player_abilities_reads_back(p: C2FPlayerAbilities, bytes: Seq<u8>)
    requires
        p.encoded_as(bytes),
    ensures
        read_u8_at(bytes, (0) as nat) == (Parsed::Value { value: p.flags, pos: (0 + 1) as nat }),
        read_u32_at(bytes, (0 + 1) as nat) == (Parsed::Value { value: p.flying_speed, pos: (0 + 1 + 4) as nat }),
        read_u32_at(bytes, (0 + 1 + 4) as nat) == (Parsed::Value { value: p.fov_modifier, pos: (0 + 1 + 4 + 4) as nat }),
        bytes.len() == 0 + 1 + 4 + 4,
{
    lemma_be_bytes_len(p.flags as nat, 1);
    lemma_be_bytes_len(p.flying_speed as nat, 4);
    lemma_be_bytes_len(p.fov_modifier as nat, 4);
    let e0 = be_bytes(p.flags as nat, 1);
    let e1 = be_bytes(p.flying_speed as nat, 4);
    let e2 = be_bytes(p.fov_modifier as nat, 4);
    assert(bytes =~= e0 + e1 + e2);
    u8_roundtrip(p.flags, Seq::<u8>::empty(), e1 + e2);
    assert(Seq::<u8>::empty() + e0 + (e1 + e2) =~= bytes);
    u32_reads_back(p.flying_speed, e0, e2);
    assert(e0 + e1 + (e2) =~= bytes);
    u32_reads_back(p.fov_modifier, e0 + e1, Seq::<u8>::empty());
    assert(e0 + e1 + e2 + (Seq::<u8>::empty()) =~= bytes);
}

/// Synchronize Player Position reads back: x, y, z, the yaw, the pitch, the
/// flags, the teleport id, and the dismount flag.
pub proof fn synchronize_player_position_reads_back(p: C36SynchronizePlayerPosition, bytes: Seq<u8>)
    requires
        p.encoded_as(bytes),
    ensures
        read_u64_at(bytes, (0) as nat) == (Parsed::Value { value: p.x, pos: (0 + 8) as nat }),
        read_u64_at(bytes, (0 + 8) as nat) == (Parsed::Value { value: p.y, pos: (0 + 8 + 8) as nat }),
        read_u64_at(bytes, (0 + 8 + 8) as nat) == (Parsed::Value { value: p.z, pos: (0 + 8 + 8 + 8) as nat }),
        read_u32_at(bytes, (0 + 8 + 8 + 8) as nat) == (Parsed::Value { value: p.yaw, pos: (0 + 8 + 8 + 8 + 4) as nat }),
        read_u32_at(bytes, (0 + 8 + 8 + 8 + 4) as nat) == (Parsed::Value { value: p.pitch, pos: (0 + 8 + 8 + 8 + 4 + 4) as nat }),
        read_u8_at(bytes, (0 + 8 + 8 + 8 + 4 + 4) as nat) == (Parsed::Value { value: p.flags, pos: (0 + 8 + 8 + 8 + 4 + 4 + 1) as nat }),
        read_varint_at(bytes, (0 + 8 + 8 + 8 + 4 + 4 + 1) as nat) == (Parsed::Value { value: p.teleport_id, pos: (0 + 8 + 8 + 8 + 4 + 4 + 1 + varint::spec_encode(p.teleport_id).len()) as nat }),
        read_bool_at(bytes, (0 + 8 + 8 + 8 + 4 + 4 + 1 + varint::spec_encode(p.teleport_id).len()) as nat) == (Parsed::Value { value: p.dismount_vehicle, pos: (0 + 8 + 8 + 8 + 4 + 4 + 1 + varint::spec_encode(p.teleport_id).len() + 1) as nat }),
        bytes.len() == 0 + 8 + 8 + 8 + 4 + 4 + 1 + varint::spec_encode(p.teleport_id).len() + 1,
{
    lemma_be_bytes_len(p.x as nat, 8);
    lemma_be_bytes_len(p.y as nat, 8);
    lemma_be_bytes_len(p.z as nat, 8);
    lemma_be_bytes_len(p.yaw as nat, 4);
    lemma_be_bytes_len(p.pitch as nat, 4);
    lemma_be_bytes_len(p.flags as nat, 1);
    lemma_be_bytes_len(if p.dismount_vehicle { 1 } else { 0 }, 1);
    let e0 = be_bytes(p.x as nat, 8);
    let e1 = be_bytes(p.y as nat, 8);
    let e2 = be_bytes(p.z as nat, 8);
    let e3 = be_bytes(p.yaw as nat, 4);
    let e4 = be_bytes(p.pitch as nat, 4);
    let e5 = be_bytes(p.flags as nat, 1);
    let e6 = varint::spec_encode(p.teleport_id);
    let e7 = bool_byte(p.dismount_vehicle);
    assert(bytes =~= e0 + e1 + e2 + e3 + e4 + e5 + e6 + e7);
    u64_reads_back(p.x, Seq::<u8>::empty(), e1 + e2 + e3 + e4 + e5 + e6 + e7);
    assert(Seq::<u8>::empty() + e0 + (e1 + e2 + e3 + e4 + e5 + e6 + e7) =~= bytes);
    u64_reads_back(p.y, e0, e2 + e3 + e4 + e5 + e6 + e7);
    assert(e0 + e1 + (e2 + e3 + e4 + e5 + e6 + e7) =~= bytes);
    u64_reads_back(p.z, e0 + e1, e3 + e4 + e5 + e6 + e7);
    assert(e0 + e1 + e2 + (e3 + e4 + e5 + e6 + e7) =~= bytes);
    u32_reads_back(p.yaw, e0 + e1 + e2, e4 + e5 + e6 + e7);
    assert(e0 + e1 + e2 + e3 + (e4 + e5 + e6 + e7) =~= bytes);
    u32_reads_back(p.pitch, e0 + e1 + e2 + e3, e5 + e6 + e7);
    assert(e0 + e1 + e2 + e3 + e4 + (e5 + e6 + e7) =~= bytes);
    u8_roundtrip(p.flags, e0 + e1 + e2 + e3 + e4, e6 + e7);
    assert(e0 + e1 + e2 + e3 + e4 + e5 + (e6 + e7) =~= bytes);
    varint_roundtrip(p.teleport_id, e0 + e1 + e2 + e3 + e4 + e5, e7);
    assert(e0 + e1 + e2 + e3 + e4 + e5 + e6 + (e7) =~= bytes);
    bool_roundtrip(p.dismount_vehicle, e0 + e1 + e2 + e3 + e4 + e5 + e6, Seq::<u8>::empty());
    assert(e0 + e1 + e2 + e3 + e4 + e5 + e6 + e7 + (Seq::<u8>::empty()) =~= bytes);
}

/// Set Center Chunk reads back: the chunk's x, then its z.
pub proof fn set_center_chunk_reads_back(p: C48SetCenterChunk, bytes: Seq<u8>)
    requires
        p.encoded_as(bytes),
    ensures
        read_varint_at(bytes, (0) as nat) == (Parsed::Value { value: p.chunk_x, pos: (0 + varint::spec_encode(p.chunk_x).len()) as nat }),
        read_varint_at(bytes, (0 + varint::spec_encode(p.chunk_x).len()) as nat) == (Parsed::Value { value: p.chunk_z, pos: (0 + varint::spec_encode(p.chunk_x).len() + varint::spec_encode(p.chunk_z).len()) as nat }),
        bytes.len() == 0 + varint::spec_encode(p.chunk_x).len() + varint::spec_encode(p.chunk_z).len(),
{
    let e0 = varint::spec_encode(p.chunk_x);
    let e1 = varint::spec_encode(p.chunk_z);
    assert(bytes =~= e0 + e1);
    varint_roundtrip(p.chunk_x, Seq::<u8>::empty(), e1);
    assert(Seq::<u8>::empty() + e0 + (e1) =~= bytes);
    varint_roundtrip(p.chunk_z, e0, Seq::<u8>::empty());
    assert(e0 + e1 + (Seq::<u8>::empty()) =~= bytes);
}

/// A paletted container starts with its bits per entry in one byte (0 for a
/// single value); a single value follows as a VarInt, then a zero data
/// length; otherwise the palette's length (for an indirect container) and
/// the data array's length come as VarInts, and then the data array.
pub proof fn paletted_container_reads_back(c: C1FPalettedContainer)
    ensures
        ({
            let b = c.spec_bytes();
            match c {
                C1FPalettedContainer::Single(v) => {
                    let n = varint::spec_encode(v).len();
                    &&& read_u8_at(b, 0) == (Parsed::Value { value: 0u8, pos: 1 })
                    &&& read_varint_at(b, 1) == (Parsed::Value { value: v, pos: 1 + n })
                    &&& read_varint_at(b, 1 + n) == (Parsed::Value { value: 0i32, pos: 2 + n })
                    &&& b.len() == 2 + n
                },
                C1FPalettedContainer::Indirect { bits_per_entry, palette, data_array } => {
                    let n1 = varint::spec_encode(palette@.len() as i32).len();
                    let n2 = varint::spec_encode(data_array@.len() as i32).len();
                    &&& read_u8_at(b, 0) == (Parsed::Value { value: bits_per_entry, pos: 1 })
                    &&& read_varint_at(b, 1) == (Parsed::Value { value: palette@.len() as i32, pos: 1 + n1 })
                    &&& read_varint_at(b, 1 + n1) == (Parsed::Value {
                        value: data_array@.len() as i32,
                        pos: 1 + n1 + n2,
                    })
                    &&& b.skip((1 + n1 + n2) as int) == longs(data_array@)
                },
                C1FPalettedContainer::Direct { bits_per_entry, data_array } => {
                    let n = varint::spec_encode(data_array@.len() as i32).len();
                    &&& read_u8_at(b, 0) == (Parsed::Value { value: bits_per_entry, pos: 1 })
                    &&& read_varint_at(b, 1) == (Parsed::Value { value: data_array@.len() as i32, pos: 1 + n })
                    &&& b.skip((1 + n) as int) == longs(data_array@)
                },
            }
        }),
{
    let b = c.spec_bytes();
    match c {
        C1FPalettedContainer::Single(v) => {
            let e0 = be_bytes(0, 1);
            let e1 = varint::spec_encode(v);
            let e2 = varint::spec_encode(0);
            lemma_be_bytes_len(0, 1);
            u8_roundtrip(0, Seq::empty(), e1 + e2);
            assert(Seq::<u8>::empty() + e0 + (e1 + e2) =~= b);
            varint_roundtrip(v, e0, e2);
            varint_roundtrip(0, e0 + e1, Seq::empty());
            assert(e0 + e1 + e2 + Seq::<u8>::empty() =~= b);
            assert(e2 == seq![0u8]) by {
                crate::data_types::encoder::fixed::lemma_be_bytes_one(0);
                assert(crate::data_types::encoder::var_num::var_bytes(0) =~= seq![0u8]);
            }
        },
        C1FPalettedContainer::Indirect { bits_per_entry, palette, data_array } => {
            let e0 = be_bytes(bits_per_entry as nat, 1);
            let e1 = varint::spec_encode(palette@.len() as i32);
            let e2 = varint::spec_encode(data_array@.len() as i32);
            let e3 = longs(data_array@);
            lemma_be_bytes_len(bits_per_entry as nat, 1);
            u8_roundtrip(bits_per_entry, Seq::empty(), e1 + e2 + e3);
            assert(Seq::<u8>::empty() + e0 + (e1 + e2 + e3) =~= b);
            varint_roundtrip(palette@.len() as i32, e0, e2 + e3);
            assert(e0 + e1 + (e2 + e3) =~= b);
            varint_roundtrip(data_array@.len() as i32, e0 + e1, e3);
            assert(e0 + e1 + e2 + e3 =~= b);
            assert(b.skip((e0 + e1 + e2).len() as int) =~= e3);
        },
        C1FPalettedContainer::Direct { bits_per_entry, data_array } => {
            let e0 = be_bytes(bits_per_entry as nat, 1);
            let e1 = varint::spec_encode(data_array@.len() as i32);
            let e2 = longs(data_array@);
            lemma_be_bytes_len(bits_per_entry as nat, 1);
            u8_roundtrip(bits_per_entry, Seq::empty(), e1 + e2);
            assert(Seq::<u8>::empty() + e0 + (e1 + e2) =~= b);
            varint_roundtrip(data_array@.len() as i32, e0, e2);
            assert(e0 + e1 + e2 =~= b);
            assert(b.skip((e0 + e1).len() as int) =~= e2);
        },
    }
}

/// A chunk section is its count of non-air blocks in two bytes, then the
/// container of block states, then the container of biomes.
pub proof fn chunk_section_reads_back(c: C1FSection)
    ensures
        ({
            let b = c.spec_bytes();
            let s = c.block_states.spec_bytes();
            &&& read_i16_at(b, 0) == (Parsed::Value { value: c.block_count, pos: 2 })
            &&& b.subrange(2, (2 + s.len()) as int) == s
            &&& b.skip((2 + s.len()) as int) == c.biomes.spec_bytes()
        }),
{
    let e0 = be_bytes((c.block_count as u16) as nat, 2);
    let e1 = c.block_states.spec_bytes();
    let e2 = c.biomes.spec_bytes();
    lemma_be_bytes_len((c.block_count as u16) as nat, 2);
    i16_roundtrip(c.block_count, Seq::empty(), e1 + e2);
    assert(Seq::<u8>::empty() + e0 + (e1 + e2) =~= c.spec_bytes());
    assert(c.spec_bytes().subrange(2, (2 + e1.len()) as int) =~= e1);
    assert(c.spec_bytes().skip((2 + e1.len()) as int) =~= e2);
}


/// An `i8` in one byte reads back.
proof fn i8_reads_back(v: i8, before: Seq<u8>, after: Seq<u8>)
    ensures
        read_i8_at(before + be_bytes((v as u8) as nat, 1) + after, before.len()) == (Parsed::Value {
            value: v,
            pos: before.len() + 1,
        }),
{
    lemma_pow256_values();
    fixed_roundtrip((v as u8) as nat, 1, before, after);
    assert(((v as u8) as i8) == v) by (bit_vector);
}

/// Unload Chunk reads back: the chunk's x, then its z, four bytes each.
pub proof fn unload_chunk_reads_back(p: C1AUnloadChunk, bytes: Seq<u8>)
    requires
        p.encoded_as(bytes),
    ensures
        read_i32_at(bytes, (0) as nat) == (Parsed::Value { value: p.chunk_x, pos: (0 + 4) as nat }),
        read_i32_at(bytes, (0 + 4) as nat) == (Parsed::Value { value: p.chunk_z, pos: (0 + 4 + 4) as nat }),
        bytes.len() == 0 + 4 + 4,
{
    lemma_be_bytes_len((p.chunk_x as u32) as nat, 4);
    lemma_be_bytes_len((p.chunk_z as u32) as nat, 4);
    let e0 = be_bytes((p.chunk_x as u32) as nat, 4);
    let e1 = be_bytes((p.chunk_z as u32) as nat, 4);
    assert(bytes =~= e0 + e1);
    i32_roundtrip(p.chunk_x, Seq::<u8>::empty(), e1);
    assert(Seq::<u8>::empty() + e0 + (e1) =~= bytes);
    i32_roundtrip(p.chunk_z, e0, Seq::<u8>::empty());
    assert(e0 + e1 + (Seq::<u8>::empty()) =~= bytes);
}

/// Game Event reads back: the event in one byte, then its value in four.
pub proof fn game_event_reads_back(p: C1BGameEvent, bytes: Seq<u8>)
    requires
        p.encoded_as(bytes),
    ensures
        read_u8_at(bytes, (0) as nat) == (Parsed::Value { value: p.event, pos: (0 + 1) as nat }),
        read_u32_at(bytes, (0 + 1) as nat) == (Parsed::Value { value: p.value, pos: (0 + 1 + 4) as nat }),
        bytes.len() == 0 + 1 + 4,
{
    lemma_be_bytes_len(p.event as nat, 1);
    lemma_be_bytes_len(p.value as nat, 4);
    let e0 = be_bytes(p.event as nat, 1);
    let e1 = be_bytes(p.value as nat, 4);
    assert(bytes =~= e0 + e1);
    u8_roundtrip(p.event, Seq::<u8>::empty(), e1);
    assert(Seq::<u8>::empty() + e0 + (e1) =~= bytes);
    u32_reads_back(p.value, e0, Seq::<u8>::empty());
    assert(e0 + e1 + (Seq::<u8>::empty()) =~= bytes);
}

/// Entity Animation reads back: the entity id, then the animation.
pub proof fn entity_animation_reads_back(p: C03EntityAnimation, bytes: Seq<u8>)
    requires
        p.encoded_as(bytes),
    ensures
        read_varint_at(bytes, (0) as nat) == (Parsed::Value { value: p.entity_id, pos: (0 + varint::spec_encode(p.entity_id).len()) as nat }),
        read_u8_at(bytes, (0 + varint::spec_encode(p.entity_id).len()) as nat) == (Parsed::Value { value: p.animation, pos: (0 + varint::spec_encode(p.entity_id).len() + 1) as nat }),
        bytes.len() == 0 + varint::spec_encode(p.entity_id).len() + 1,
{
    lemma_be_bytes_len(p.animation as nat, 1);
    let e0 = varint::spec_encode(p.entity_id);
    let e1 = be_bytes(p.animation as nat, 1);
    assert(bytes =~= e0 + e1);
    varint_roundtrip(p.entity_id, Seq::<u8>::empty(), e1);
    assert(Seq::<u8>::empty() + e0 + (e1) =~= bytes);
    u8_roundtrip(p.animation, e0, Seq::<u8>::empty());
    assert(e0 + e1 + (Seq::<u8>::empty()) =~= bytes);
}

/// Set Head Rotation reads back: the entity id, then the head's yaw.
pub proof fn set_head_rotation_reads_back(p: C3CSetHeadRotation, bytes: Seq<u8>)
    requires
        p.encoded_as(bytes),
    ensures
        read_varint_at(bytes, (0) as nat) == (Parsed::Value { value: p.entity_id, pos: (0 + varint::spec_encode(p.entity_id).len()) as nat }),
        read_u8_at(bytes, (0 + varint::spec_encode(p.entity_id).len()) as nat) == (Parsed::Value { value: p.head_yaw, pos: (0 + varint::spec_encode(p.entity_id).len() + 1) as nat }),
        bytes.len() == 0 + varint::spec_encode(p.entity_id).len() + 1,
{
    lemma_be_bytes_len(p.head_yaw as nat, 1);
    let e0 = varint::spec_encode(p.entity_id);
    let e1 = be_bytes(p.head_yaw as nat, 1);
    assert(bytes =~= e0 + e1);
    varint_roundtrip(p.entity_id, Seq::<u8>::empty(), e1);
    assert(Seq::<u8>::empty() + e0 + (e1) =~= bytes);
    u8_roundtrip(p.head_yaw, e0, Seq::<u8>::empty());
    assert(e0 + e1 + (Seq::<u8>::empty()) =~= bytes);
}

/// Set Block Destroy Stage reads back: the breaking entity, the packed
/// position, then the stage.
pub proof fn set_block_destroy_stage_reads_back(p: C06SetBlockDestroyStage, bytes: Seq<u8>)
    requires
        p.encoded_as(bytes),
    ensures
        read_varint_at(bytes, (0) as nat) == (Parsed::Value { value: p.entity_id, pos: (0 + varint::spec_encode(p.entity_id).len()) as nat }),
        read_u64_at(bytes, (0 + varint::spec_encode(p.entity_id).len()) as nat) == (Parsed::Value { value: p.position.spec_encode(), pos: (0 + varint::spec_encode(p.entity_id).len() + 8) as nat }),
        read_i8_at(bytes, (0 + varint::spec_encode(p.entity_id).len() + 8) as nat) == (Parsed::Value { value: p.destroy_stage, pos: (0 + varint::spec_encode(p.entity_id).len() + 8 + 1) as nat }),
        bytes.len() == 0 + varint::spec_encode(p.entity_id).len() + 8 + 1,
{
    lemma_be_bytes_len(p.position.spec_encode() as nat, 8);
    lemma_be_bytes_len((p.destroy_stage as u8) as nat, 1);
    let e0 = varint::spec_encode(p.entity_id);
    let e1 = be_bytes(p.position.spec_encode() as nat, 8);
    let e2 = be_bytes((p.destroy_stage as u8) as nat, 1);
    assert(bytes =~= e0 + e1 + e2);
    varint_roundtrip(p.entity_id, Seq::<u8>::empty(), e1 + e2);
    assert(Seq::<u8>::empty() + e0 + (e1 + e2) =~= bytes);
    u64_reads_back(p.position.spec_encode(), e0, e2);
    assert(e0 + e1 + (e2) =~= bytes);
    i8_reads_back(p.destroy_stage, e0 + e1, Seq::<u8>::empty());
    assert(e0 + e1 + e2 + (Seq::<u8>::empty()) =~= bytes);
}

/// Block Change reads back: the packed position, then the new block's id.
pub proof fn block_change_reads_back(p: C09BlockChange, bytes: Seq<u8>)
    requires
        p.encoded_as(bytes),
    ensures
        read_u64_at(bytes, (0) as nat) == (Parsed::Value { value: p.position.spec_encode(), pos: (0 + 8) as nat }),
        read_varint_at(bytes, (0 + 8) as nat) == (Parsed::Value { value: p.block_id, pos: (0 + 8 + varint::spec_encode(p.block_id).len()) as nat }),
        bytes.len() == 0 + 8 + varint::spec_encode(p.block_id).len(),
{
    lemma_be_bytes_len(p.position.spec_encode() as nat, 8);
    let e0 = be_bytes(p.position.spec_encode() as nat, 8);
    let e1 = varint::spec_encode(p.block_id);
    assert(bytes =~= e0 + e1);
    u64_reads_back(p.position.spec_encode(), Seq::<u8>::empty(), e1);
    assert(Seq::<u8>::empty() + e0 + (e1) =~= bytes);
    varint_roundtrip(p.block_id, e0, Seq::<u8>::empty());
    assert(e0 + e1 + (Seq::<u8>::empty()) =~= bytes);
}

/// Set Default Spawn Position reads back: the packed location, then the
/// angle.
pub proof fn set_default_spawn_position_reads_back(p: C4ASetDefaultSpawnPosition, bytes: Seq<u8>)
    requires
        p.encoded_as(bytes),
    ensures
        read_u64_at(bytes, (0) as nat) == (Parsed::Value { value: p.location.spec_encode(), pos: (0 + 8) as nat }),
        read_u32_at(bytes, (0 + 8) as nat) == (Parsed::Value { value: p.angle, pos: (0 + 8 + 4) as nat }),
        bytes.len() == 0 + 8 + 4,
{
    lemma_be_bytes_len(p.location.spec_encode() as nat, 8);
    lemma_be_bytes_len(p.angle as nat, 4);
    let e0 = be_bytes(p.location.spec_encode() as nat, 8);
    let e1 = be_bytes(p.angle as nat, 4);
    assert(bytes =~= e0 + e1);
    u64_reads_back(p.location.spec_encode(), Seq::<u8>::empty(), e1);
    assert(Seq::<u8>::empty() + e0 + (e1) =~= bytes);
    u32_reads_back(p.angle, e0, Seq::<u8>::empty());
    assert(e0 + e1 + (Seq::<u8>::empty()) =~= bytes);
}

/// Spawn Experience Orb reads back: the entity id, x, y, z, then the
/// count.
pub proof fn spawn_experience_orb_reads_back(p: C01SpawnExperienceOrb, bytes: Seq<u8>)
    requires
        p.encoded_as(bytes),
    ensures
        read_varint_at(bytes, (0) as nat) == (Parsed::Value { value: p.entity_id, pos: (0 + varint::spec_encode(p.entity_id).len()) as nat }),
        read_u64_at(bytes, (0 + varint::spec_encode(p.entity_id).len()) as nat) == (Parsed::Value { value: p.x, pos: (0 + varint::spec_encode(p.entity_id).len() + 8) as nat }),
        read_u64_at(bytes, (0 + varint::spec_encode(p.entity_id).len() + 8) as nat) == (Parsed::Value { value: p.y, pos: (0 + varint::spec_encode(p.entity_id).len() + 8 + 8) as nat }),
        read_u64_at(bytes, (0 + varint::spec_encode(p.entity_id).len() + 8 + 8) as nat) == (Parsed::Value { value: p.z, pos: (0 + varint::spec_encode(p.entity_id).len() + 8 + 8 + 8) as nat }),
        read_i16_at(bytes, (0 + varint::spec_encode(p.entity_id).len() + 8 + 8 + 8) as nat) == (Parsed::Value { value: p.count, pos: (0 + varint::spec_encode(p.entity_id).len() + 8 + 8 + 8 + 2) as nat }),
        bytes.len() == 0 + varint::spec_encode(p.entity_id).len() + 8 + 8 + 8 + 2,
{
    lemma_be_bytes_len(p.x as nat, 8);
    lemma_be_bytes_len(p.y as nat, 8);
    lemma_be_bytes_len(p.z as nat, 8);
    lemma_be_bytes_len((p.count as u16) as nat, 2);
    let e0 = varint::spec_encode(p.entity_id);
    let e1 = be_bytes(p.x as nat, 8);
    let e2 = be_bytes(p.y as nat, 8);
    let e3 = be_bytes(p.z as nat, 8);
    let e4 = be_bytes((p.count as u16) as nat, 2);
    assert(bytes =~= e0 + e1 + e2 + e3 + e4);
    varint_roundtrip(p.entity_id, Seq::<u8>::empty(), e1 + e2 + e3 + e4);
    assert(Seq::<u8>::empty() + e0 + (e1 + e2 + e3 + e4) =~= bytes);
    u64_reads_back(p.x, e0, e2 + e3 + e4);
    assert(e0 + e1 + (e2 + e3 + e4) =~= bytes);
    u64_reads_back(p.y, e0 + e1, e3 + e4);
    assert(e0 + e1 + e2 + (e3 + e4) =~= bytes);
    u64_reads_back(p.z, e0 + e1 + e2, e4);
    assert(e0 + e1 + e2 + e3 + (e4) =~= bytes);
    i16_roundtrip(p.count, e0 + e1 + e2 + e3, Seq::<u8>::empty());
    assert(e0 + e1 + e2 + e3 + e4 + (Seq::<u8>::empty()) =~= bytes);
}

/// Spawn Entity reads back: the entity id, the object's UUID, x, y, z, the
/// pitch, the yaw, the head yaw, the data, and the velocity along x, y
/// and z.
pub proof fn spawn_entity_reads_back(p: C00SpawnEntity, bytes: Seq<u8>)
    requires
        p.encoded_as(bytes),
    ensures
        read_varint_at(bytes, (0) as nat) == (Parsed::Value { value: p.entity_id, pos: (0 + varint::spec_encode(p.entity_id).len()) as nat }),
        read_u128_at(bytes, (0 + varint::spec_encode(p.entity_id).len()) as nat) == (Parsed::Value { value: p.object_uuid, pos: (0 + varint::spec_encode(p.entity_id).len() + 16) as nat }),
        read_u64_at(bytes, (0 + varint::spec_encode(p.entity_id).len() + 16) as nat) == (Parsed::Value { value: p.x, pos: (0 + varint::spec_encode(p.entity_id).len() + 16 + 8) as nat }),
        read_u64_at(bytes, (0 + varint::spec_encode(p.entity_id).len() + 16 + 8) as nat) == (Parsed::Value { value: p.y, pos: (0 + varint::spec_encode(p.entity_id).len() + 16 + 8 + 8) as nat }),
        read_u64_at(bytes, (0 + varint::spec_encode(p.entity_id).len() + 16 + 8 + 8) as nat) == (Parsed::Value { value: p.z, pos: (0 + varint::spec_encode(p.entity_id).len() + 16 + 8 + 8 + 8) as nat }),
        read_u8_at(bytes, (0 + varint::spec_encode(p.entity_id).len() + 16 + 8 + 8 + 8) as nat) == (Parsed::Value { value: p.pitch, pos: (0 + varint::spec_encode(p.entity_id).len() + 16 + 8 + 8 + 8 + 1) as nat }),
        read_u8_at(bytes, (0 + varint::spec_encode(p.entity_id).len() + 16 + 8 + 8 + 8 + 1) as nat) == (Parsed::Value { value: p.yaw, pos: (0 + varint::spec_encode(p.entity_id).len() + 16 + 8 + 8 + 8 + 1 + 1) as nat }),
        read_u8_at(bytes, (0 + varint::spec_encode(p.entity_id).len() + 16 + 8 + 8 + 8 + 1 + 1) as nat) == (Parsed::Value { value: p.head_yaw, pos: (0 + varint::spec_encode(p.entity_id).len() + 16 + 8 + 8 + 8 + 1 + 1 + 1) as nat }),
        read_i32_at(bytes, (0 + varint::spec_encode(p.entity_id).len() + 16 + 8 + 8 + 8 + 1 + 1 + 1) as nat) == (Parsed::Value { value: p.data, pos: (0 + varint::spec_encode(p.entity_id).len() + 16 + 8 + 8 + 8 + 1 + 1 + 1 + 4) as nat }),
        read_i16_at(bytes, (0 + varint::spec_encode(p.entity_id).len() + 16 + 8 + 8 + 8 + 1 + 1 + 1 + 4) as nat) == (Parsed::Value { value: p.velocity_x, pos: (0 + varint::spec_encode(p.entity_id).len() + 16 + 8 + 8 + 8 + 1 + 1 + 1 + 4 + 2) as nat }),
        read_i16_at(bytes, (0 + varint::spec_encode(p.entity_id).len() + 16 + 8 + 8 + 8 + 1 + 1 + 1 + 4 + 2) as nat) == (Parsed::Value { value: p.velocity_y, pos: (0 + varint::spec_encode(p.entity_id).len() + 16 + 8 + 8 + 8 + 1 + 1 + 1 + 4 + 2 + 2) as nat }),
        read_i16_at(bytes, (0 + varint::spec_encode(p.entity_id).len() + 16 + 8 + 8 + 8 + 1 + 1 + 1 + 4 + 2 + 2) as nat) == (Parsed::Value { value: p.velocity_z, pos: (0 + varint::spec_encode(p.entity_id).len() + 16 + 8 + 8 + 8 + 1 + 1 + 1 + 4 + 2 + 2 + 2) as nat }),
        bytes.len() == 0 + varint::spec_encode(p.entity_id).len() + 16 + 8 + 8 + 8 + 1 + 1 + 1 + 4 + 2 + 2 + 2,
{
    lemma_be_bytes_len(p.object_uuid as nat, 16);
    lemma_be_bytes_len(p.x as nat, 8);
    lemma_be_bytes_len(p.y as nat, 8);
    lemma_be_bytes_len(p.z as nat, 8);
    lemma_be_bytes_len(p.pitch as nat, 1);
    lemma_be_bytes_len(p.yaw as nat, 1);
    lemma_be_bytes_len(p.head_yaw as nat, 1);
    lemma_be_bytes_len((p.data as u32) as nat, 4);
    lemma_be_bytes_len((p.velocity_x as u16) as nat, 2);
    lemma_be_bytes_len((p.velocity_y as u16) as nat, 2);
    lemma_be_bytes_len((p.velocity_z as u16) as nat, 2);
    let e0 = varint::spec_encode(p.entity_id);
    let e1 = be_bytes(p.object_uuid as nat, 16);
    let e2 = be_bytes(p.x as nat, 8);
    let e3 = be_bytes(p.y as nat, 8);
    let e4 = be_bytes(p.z as nat, 8);
    let e5 = be_bytes(p.pitch as nat, 1);
    let e6 = be_bytes(p.yaw as nat, 1);
    let e7 = be_bytes(p.head_yaw as nat, 1);
    let e8 = be_bytes((p.data as u32) as nat, 4);
    let e9 = be_bytes((p.velocity_x as u16) as nat, 2);
    let e10 = be_bytes((p.velocity_y as u16) as nat, 2);
    let e11 = be_bytes((p.velocity_z as u16) as nat, 2);
    assert(bytes =~= e0 + e1 + e2 + e3 + e4 + e5 + e6 + e7 + e8 + e9 + e10 + e11);
    varint_roundtrip(p.entity_id, Seq::<u8>::empty(), e1 + e2 + e3 + e4 + e5 + e6 + e7 + e8 + e9 + e10 + e11);
    assert(Seq::<u8>::empty() + e0 + (e1 + e2 + e3 + e4 + e5 + e6 + e7 + e8 + e9 + e10 + e11) =~= bytes);
    uuid_roundtrip(p.object_uuid, e0, e2 + e3 + e4 + e5 + e6 + e7 + e8 + e9 + e10 + e11);
    assert(e0 + e1 + (e2 + e3 + e4 + e5 + e6 + e7 + e8 + e9 + e10 + e11) =~= bytes);
    u64_reads_back(p.x, e0 + e1, e3 + e4 + e5 + e6 + e7 + e8 + e9 + e10 + e11);
    assert(e0 + e1 + e2 + (e3 + e4 + e5 + e6 + e7 + e8 + e9 + e10 + e11) =~= bytes);
    u64_reads_back(p.y, e0 + e1 + e2, e4 + e5 + e6 + e7 + e8 + e9 + e10 + e11);
    assert(e0 + e1 + e2 + e3 + (e4 + e5 + e6 + e7 + e8 + e9 + e10 + e11) =~= bytes);
    u64_reads_back(p.z, e0 + e1 + e2 + e3, e5 + e6 + e7 + e8 + e9 + e10 + e11);
    assert(e0 + e1 + e2 + e3 + e4 + (e5 + e6 + e7 + e8 + e9 + e10 + e11) =~= bytes);
    u8_roundtrip(p.pitch, e0 + e1 + e2 + e3 + e4, e6 + e7 + e8 + e9 + e10 + e11);
    assert(e0 + e1 + e2 + e3 + e4 + e5 + (e6 + e7 + e8 + e9 + e10 + e11) =~= bytes);
    u8_roundtrip(p.yaw, e0 + e1 + e2 + e3 + e4 + e5, e7 + e8 + e9 + e10 + e11);
    assert(e0 + e1 + e2 + e3 + e4 + e5 + e6 + (e7 + e8 + e9 + e10 + e11) =~= bytes);
    u8_roundtrip(p.head_yaw, e0 + e1 + e2 + e3 + e4 + e5 + e6, e8 + e9 + e10 + e11);
    assert(e0 + e1 + e2 + e3 + e4 + e5 + e6 + e7 + (e8 + e9 + e10 + e11) =~= bytes);
    i32_roundtrip(p.data, e0 + e1 + e2 + e3 + e4 + e5 + e6 + e7, e9 + e10 + e11);
    assert(e0 + e1 + e2 + e3 + e4 + e5 + e6 + e7 + e8 + (e9 + e10 + e11) =~= bytes);
    i16_roundtrip(p.velocity_x, e0 + e1 + e2 + e3 + e4 + e5 + e6 + e7 + e8, e10 + e11);
    assert(e0 + e1 + e2 + e3 + e4 + e5 + e6 + e7 + e8 + e9 + (e10 + e11) =~= bytes);
    i16_roundtrip(p.velocity_y, e0 + e1 + e2 + e3 + e4 + e5 + e6 + e7 + e8 + e9, e11);
    assert(e0 + e1 + e2 + e3 + e4 + e5 + e6 + e7 + e8 + e9 + e10 + (e11) =~= bytes);
    i16_roundtrip(p.velocity_z, e0 + e1 + e2 + e3 + e4 + e5 + e6 + e7 + e8 + e9 + e10, Seq::<u8>::empty());
    assert(e0 + e1 + e2 + e3 + e4 + e5 + e6 + e7 + e8 + e9 + e10 + e11 + (Seq::<u8>::empty()) =~= bytes);
}

/// Set Tab List Header and Footer reads back: the header, then the footer.
pub proof fn tab_list_reads_back(p: C60SetTabListHeaderAndFooter, bytes: Seq<u8>)
    requires
        p.encoded_as(bytes),
        encode_utf8(p.header@).len() <= i32::MAX,
        encode_utf8(p.footer@).len() <= i32::MAX,
    ensures
        string::read_string_at(bytes, (0) as nat) == (Parsed::Value { value: p.header@, pos: (0 + string::spec_encode(p.header@).len()) as nat }),
        string::read_string_at(bytes, (0 + string::spec_encode(p.header@).len()) as nat) == (Parsed::Value { value: p.footer@, pos: (0 + string::spec_encode(p.header@).len() + string::spec_encode(p.footer@).len()) as nat }),
        bytes.len() == 0 + string::spec_encode(p.header@).len() + string::spec_encode(p.footer@).len(),
{
    let e0 = string::spec_encode(p.header@);
    let e1 = string::spec_encode(p.footer@);
    assert(bytes =~= e0 + e1);
    string_roundtrip(p.header@, Seq::<u8>::empty(), e1);
    assert(Seq::<u8>::empty() + e0 + (e1) =~= bytes);
    string_roundtrip(p.footer@, e0, Seq::<u8>::empty());
    assert(e0 + e1 + (Seq::<u8>::empty()) =~= bytes);
}

/// Chat Preview reads back: the query id, whether a component is present,
/// then the message.
pub proof fn chat_preview_reads_back(p: COCChatPreview, bytes: Seq<u8>)
    requires
        p.encoded_as(bytes),
        encode_utf8(p.message_to_preview@).len() <= i32::MAX,
    ensures
        read_i32_at(bytes, (0) as nat) == (Parsed::Value { value: p.query_id, pos: (0 + 4) as nat }),
        read_bool_at(bytes, (0 + 4) as nat) == (Parsed::Value { value: p.component_is_present, pos: (0 + 4 + 1) as nat }),
        string::read_string_at(bytes, (0 + 4 + 1) as nat) == (Parsed::Value { value: p.message_to_preview@, pos: (0 + 4 + 1 + string::spec_encode(p.message_to_preview@).len()) as nat }),
        bytes.len() == 0 + 4 + 1 + string::spec_encode(p.message_to_preview@).len(),
{
    lemma_be_bytes_len((p.query_id as u32) as nat, 4);
    lemma_be_bytes_len(if p.component_is_present { 1 } else { 0 }, 1);
    let e0 = be_bytes((p.query_id as u32) as nat, 4);
    let e1 = be_bytes(if p.component_is_present { 1 } else { 0 }, 1);
    let e2 = string::spec_encode(p.message_to_preview@);
    assert(bytes =~= e0 + e1 + e2);
    i32_roundtrip(p.query_id, Seq::<u8>::empty(), e1 + e2);
    assert(Seq::<u8>::empty() + e0 + (e1 + e2) =~= bytes);
    bool_roundtrip(p.component_is_present, e0, e2);
    assert(e0 + e1 + (e2) =~= bytes);
    string_roundtrip(p.message_to_preview@, e0 + e1, Seq::<u8>::empty());
    assert(e0 + e1 + e2 + (Seq::<u8>::empty()) =~= bytes);
}

/// Pong reads back: the ping's payload in eight bytes.
pub proof fn pong_reads_back(p: C01Pong, bytes: Seq<u8>)
    requires
        p.encoded_as(bytes),
    ensures
        read_i64_at(bytes, (0) as nat) == (Parsed::Value { value: p.payload, pos: (0 + 8) as nat }),
        bytes.len() == 0 + 8,
{
    lemma_be_bytes_len((p.payload as u64) as nat, 8);
    let e0 = be_bytes((p.payload as u64) as nat, 8);
    assert(bytes =~= e0);
    i64_roundtrip(p.payload, Seq::<u8>::empty(), Seq::<u8>::empty());
    assert(Seq::<u8>::empty() + e0 + (Seq::<u8>::empty()) =~= bytes);
}

/// Keep Alive reads back: the id in eight bytes.
pub proof fn keep_alive_reads_back(p: C1EKeepAlive, bytes: Seq<u8>)
    requires
        p.encoded_as(bytes),
    ensures
        read_i64_at(bytes, (0) as nat) == (Parsed::Value { value: p.id, pos: (0 + 8) as nat }),
        bytes.len() == 0 + 8,
{
    lemma_be_bytes_len((p.id as u64) as nat, 8);
    let e0 = be_bytes((p.id as u64) as nat, 8);
    assert(bytes =~= e0);
    i64_roundtrip(p.id, Seq::<u8>::empty(), Seq::<u8>::empty());
    assert(Seq::<u8>::empty() + e0 + (Seq::<u8>::empty()) =~= bytes);
}

/// Set Held Item reads back: the slot in one byte.
pub proof fn set_held_item_reads_back(p: C47SetHeldItem, bytes: Seq<u8>)
    requires
        p.encoded_as(bytes),
    ensures
        read_i8_at(bytes, (0) as nat) == (Parsed::Value { value: p.slot, pos: (0 + 1) as nat }),
        bytes.len() == 0 + 1,
{
    lemma_be_bytes_len((p.slot as u8) as nat, 1);
    let e0 = be_bytes((p.slot as u8) as nat, 1);
    assert(bytes =~= e0);
    i8_reads_back(p.slot, Seq::<u8>::empty(), Seq::<u8>::empty());
    assert(Seq::<u8>::empty() + e0 + (Seq::<u8>::empty()) =~= bytes);
}


/// Encryption Request reads back: the server id, then the public key and
/// the verify token, each with its length in front.
pub proof fn encryption_request_reads_back(p: C01EncryptionRequest, bytes: Seq<u8>)
    requires
        p.encoded_as(bytes),
        encode_utf8(p.server_id@).len() <= i32::MAX,
        p.public_key@.len() <= i32::MAX,
        p.verify_token@.len() <= i32::MAX,
    ensures
        string::read_string_at(bytes, (0) as nat) == (Parsed::Value { value: p.server_id@, pos: (0 + string::spec_encode(p.server_id@).len()) as nat }),
        read_len_bytes_at(bytes, (0 + string::spec_encode(p.server_id@).len()) as nat) == (Parsed::Value { value: p.public_key@, pos: (0 + string::spec_encode(p.server_id@).len() + len_bytes(p.public_key@).len()) as nat }),
        read_len_bytes_at(bytes, (0 + string::spec_encode(p.server_id@).len() + len_bytes(p.public_key@).len()) as nat) == (Parsed::Value { value: p.verify_token@, pos: (0 + string::spec_encode(p.server_id@).len() + len_bytes(p.public_key@).len() + len_bytes(p.verify_token@).len()) as nat }),
        bytes.len() == 0 + string::spec_encode(p.server_id@).len() + len_bytes(p.public_key@).len() + len_bytes(p.verify_token@).len(),
{
    let e0 = string::spec_encode(p.server_id@);
    let e1 = len_bytes(p.public_key@);
    let e2 = len_bytes(p.verify_token@);
    assert(bytes =~= e0 + e1 + e2);
    string_roundtrip(p.server_id@, Seq::<u8>::empty(), e1 + e2);
    assert(Seq::<u8>::empty() + e0 + (e1 + e2) =~= bytes);
    len_bytes_read_back(p.public_key@, e0, e2);
    assert(e0 + e1 + (e2) =~= bytes);
    len_bytes_read_back(p.verify_token@, e0 + e1, Seq::<u8>::empty());
    assert(e0 + e1 + e2 + (Seq::<u8>::empty()) =~= bytes);
}

/// Login Plugin Request reads back: the message id, the channel, and then
/// the data, which runs to the packet's end.
pub proof fn login_plugin_request_reads_back(p: C04LoginPluginRequest, bytes: Seq<u8>)
    requires
        p.encoded_as(bytes),
        encode_utf8(p.channel@).len() <= i32::MAX,
    ensures
        read_varint_at(bytes, (0) as nat) == (Parsed::Value { value: p.message_id, pos: (0 + varint::spec_encode(p.message_id).len()) as nat }),
        string::read_string_at(bytes, (0 + varint::spec_encode(p.message_id).len()) as nat) == (Parsed::Value { value: p.channel@, pos: (0 + varint::spec_encode(p.message_id).len() + string::spec_encode(p.channel@).len()) as nat }),
        bytes.skip((0 + varint::spec_encode(p.message_id).len() + string::spec_encode(p.channel@).len()) as int) == p.data@,
        bytes.len() == 0 + varint::spec_encode(p.message_id).len() + string::spec_encode(p.channel@).len() + p.data@.len(),
{
    let e0 = varint::spec_encode(p.message_id);
    let e1 = string::spec_encode(p.channel@);
    let e2 = p.data@;
    assert(bytes =~= e0 + e1 + e2);
    varint_roundtrip(p.message_id, Seq::<u8>::empty(), e1 + e2);
    assert(Seq::<u8>::empty() + e0 + (e1 + e2) =~= bytes);
    string_roundtrip(p.channel@, e0, e2);
    assert(e0 + e1 + (e2) =~= bytes);
    assert(bytes.skip((e0 + e1).len() as int) =~= e2);
}

/// Plugin Message reads back: the channel, then the data to the packet's
/// end.
pub proof fn plugin_message_reads_back(p: C15PluginMessage, bytes: Seq<u8>)
    requires
        p.encoded_as(bytes),
        encode_utf8(p.channel@).len() <= i32::MAX,
    ensures
        string::read_string_at(bytes, (0) as nat) == (Parsed::Value { value: p.channel@, pos: (0 + string::spec_encode(p.channel@).len()) as nat }),
        bytes.skip((0 + string::spec_encode(p.channel@).len()) as int) == p.data@,
        bytes.len() == 0 + string::spec_encode(p.channel@).len() + p.data@.len(),
{
    let e0 = string::spec_encode(p.channel@);
    let e1 = p.data@;
    assert(bytes =~= e0 + e1);
    string_roundtrip(p.channel@, Seq::<u8>::empty(), e1);
    assert(Seq::<u8>::empty() + e0 + (e1) =~= bytes);
    assert(bytes.skip((e0).len() as int) =~= e1);
}

/// Login Success reads back: the player's UUID in sixteen bytes, the
/// username, and then an empty list of properties.
pub proof fn login_success_reads_back(p: C02LoginSuccess, bytes: Seq<u8>)
    requires
        p.encoded_as(bytes),
        encode_utf8(p.username@).len() <= i32::MAX,
    ensures
        read_u128_at(bytes, 0) == (Parsed::Value { value: p.uuid, pos: 16nat }),
        string::read_string_at(bytes, 16) == (Parsed::Value { value: p.username@, pos: 16 + string::spec_encode(p.username@).len() }),
        read_varint_at(bytes, 16 + string::spec_encode(p.username@).len()) == (Parsed::Value { value: 0i32, pos: 16 + string::spec_encode(p.username@).len() + 1 }),
        bytes.len() == 16 + string::spec_encode(p.username@).len() + 1,
{
    lemma_be_bytes_len(p.uuid as nat, 16);
    let e0 = be_bytes(p.uuid as nat, 16);
    let e1 = string::spec_encode(p.username@);
    let e2 = varint::spec_encode(0);
    assert((0i32 as u32) as nat == 0) by (bit_vector);
    assert(e2 =~= seq![0u8]);
    assert(bytes =~= e0 + e1 + e2);
    uuid_roundtrip(p.uuid, Seq::<u8>::empty(), e1 + e2);
    assert(Seq::<u8>::empty() + e0 + (e1 + e2) =~= bytes);
    string_roundtrip(p.username@, e0, e2);
    assert(e0 + e1 + (e2) =~= bytes);
    varint_roundtrip(0, e0 + e1, Seq::<u8>::empty());
    assert(e0 + e1 + e2 + (Seq::<u8>::empty()) =~= bytes);
}

} // verus!
