//! What packets mean on the wire: the packets the client sends, each built
//! from its fields in the protocol's order, decode to exactly those fields;
//! chunk data carries its height maps between its coordinates and sections.
use crate::data_types::encoder::fixed::{be_bytes, lemma_be_bytes_len, lemma_pow256_values};
use crate::data_types::encoder::roundtrip::{
    bool_roundtrip, fixed_roundtrip, i16_roundtrip, i64_roundtrip, string_roundtrip, u16_roundtrip, u8_roundtrip,
    varint_roundtrip,
};
use crate::data_types::encoder::{read_bool_at, read_i8_at, read_u8_at, read_varint_at, read_len_bytes_at, read_u32_at, read_u64_at, string, varint, Parsed};
use crate::data_types::Position;
use vstd::utf8::encode_utf8;
use crate::packets::server_bound::{
    decode_outcome, Decoded, S00Handshake, S04ChatMessage, S11KeepAlive, S27SetHeldItem,
    S00HandshakeView, S04ChatMessageView, S13SetPlayerPosition, S13SetPlayerPositionAndRotation, S15SetPlayerRotation,
    S1CDiggingFace, S1CPlayerAction, S1CStatus, S1DActionId, S1DPlayerCommand, S30UseItemOn, S07ClientInformation, S07ClientInformationView, ServerBoundPacket,
    S00LoginStart, S00LoginStartView, S01EncryptionResponse, S01EncryptionResponseView, S01VerifyTokenView,
};
use crate::packets::client_bound::{C1FChunkDataAndUpdateLight, ClientBoundPacket};
use vstd::prelude::*;

verus! {

/// A `u32` in four bytes, most significant first, reads back.
pub(crate) proof fn u32_reads_back(v: u32, before: Seq<u8>, after: Seq<u8>)
    ensures
        read_u32_at(before + be_bytes(v as nat, 4) + after, before.len()) == (Parsed::Value {
            value: v,
            pos: before.len() + 4,
        }),
{
    lemma_pow256_values();
    fixed_roundtrip(v as nat, 4, before, after);
}

/// A `u64` in eight bytes, most significant first, reads back.
pub(crate) proof fn u64_reads_back(v: u64, before: Seq<u8>, after: Seq<u8>)
    ensures
        read_u64_at(before + be_bytes(v as nat, 8) + after, before.len()) == (Parsed::Value {
            value: v,
            pos: before.len() + 8,
        }),
{
    lemma_pow256_values();
    fixed_roundtrip(v as nat, 8, before, after);
}

/// The byte of a boolean.
pub open spec fn bool_byte(b: bool) -> Seq<u8> {
    be_bytes(if b { 1 } else { 0 }, 1)
}

/// Set Player Rotation (0x15) is the yaw's four bytes, then the pitch's four
/// bytes, then the on-ground flag: such bytes decode to that yaw, that pitch
/// and that flag, whatever they are.
pub proof fn set_player_rotation_on_the_wire(yaw: u32, pitch: u32, on_ground: bool)
    ensures
        ({
            let bytes = be_bytes(yaw as nat, 4) + be_bytes(pitch as nat, 4) + bool_byte(on_ground);
            decode_outcome(0x15, bytes, 0x15, S15SetPlayerRotation::spec_read(bytes, 0)) == Decoded::Value(
                S15SetPlayerRotation { yaw, pitch, on_ground },
            )
        }),
{
    let a = be_bytes(yaw as nat, 4);
    let b = be_bytes(pitch as nat, 4);
    let c = bool_byte(on_ground);
    lemma_be_bytes_len(yaw as nat, 4);
    lemma_be_bytes_len(pitch as nat, 4);
    lemma_be_bytes_len(if on_ground { 1 } else { 0 }, 1);
    let bytes = a + b + c;
    u32_reads_back(yaw, Seq::empty(), b + c);
    assert(Seq::<u8>::empty() + a + (b + c) =~= bytes);
    u32_reads_back(pitch, a, c);
    assert(a + b + c =~= bytes);
    bool_roundtrip(on_ground, a + b, Seq::empty());
    assert(a + b + c + Seq::<u8>::empty() =~= bytes);
}

/// Set Player Position (0x13 without rotation) is x, feet y and z, eight
/// bytes each, then the on-ground flag.
pub proof fn set_player_position_on_the_wire(x: u64, feet_y: u64, z: u64, on_ground: bool)
    ensures
        ({
            let bytes = be_bytes(x as nat, 8) + be_bytes(feet_y as nat, 8) + be_bytes(z as nat, 8)
                + bool_byte(on_ground);
            S13SetPlayerPosition::spec_read(bytes, 0) == (Parsed::Value {
                value: S13SetPlayerPosition { x, feet_y, z, on_ground },
                pos: 25,
            })
        }),
{
    let a = be_bytes(x as nat, 8);
    let b = be_bytes(feet_y as nat, 8);
    let c = be_bytes(z as nat, 8);
    let d = bool_byte(on_ground);
    lemma_be_bytes_len(x as nat, 8);
    lemma_be_bytes_len(feet_y as nat, 8);
    lemma_be_bytes_len(z as nat, 8);
    lemma_be_bytes_len(if on_ground { 1 } else { 0 }, 1);
    let bytes = a + b + c + d;
    u64_reads_back(x, Seq::empty(), b + c + d);
    assert(Seq::<u8>::empty() + a + (b + c + d) =~= bytes);
    u64_reads_back(feet_y, a, c + d);
    assert(a + b + (c + d) =~= bytes);
    u64_reads_back(z, a + b, d);
    assert(a + b + c + d =~= bytes);
    bool_roundtrip(on_ground, a + b + c, Seq::empty());
    assert(a + b + c + d + Seq::<u8>::empty() =~= bytes);
}

/// Set Player Position and Rotation (0x13) is x, feet y and z, eight bytes
/// each, then yaw and pitch, four bytes each, then the on-ground flag.
pub proof fn set_player_position_and_rotation_on_the_wire(
    x: u64,
    feet_y: u64,
    z: u64,
    yaw: u32,
    pitch: u32,
    on_ground: bool,
)
    ensures
        ({
            let bytes = be_bytes(x as nat, 8) + be_bytes(feet_y as nat, 8) + be_bytes(z as nat, 8)
                + be_bytes(yaw as nat, 4) + be_bytes(pitch as nat, 4) + bool_byte(on_ground);
            S13SetPlayerPositionAndRotation::spec_read(bytes, 0) == (Parsed::Value {
                value: S13SetPlayerPositionAndRotation { x, feet_y, z, yaw, pitch, on_ground },
                pos: 33,
            })
        }),
{
    let a = be_bytes(x as nat, 8);
    let b = be_bytes(feet_y as nat, 8);
    let c = be_bytes(z as nat, 8);
    let d = be_bytes(yaw as nat, 4);
    let e = be_bytes(pitch as nat, 4);
    let f = bool_byte(on_ground);
    lemma_be_bytes_len(x as nat, 8);
    lemma_be_bytes_len(feet_y as nat, 8);
    lemma_be_bytes_len(z as nat, 8);
    lemma_be_bytes_len(yaw as nat, 4);
    lemma_be_bytes_len(pitch as nat, 4);
    lemma_be_bytes_len(if on_ground { 1 } else { 0 }, 1);
    let bytes = a + b + c + d + e + f;
    u64_reads_back(x, Seq::empty(), b + c + d + e + f);
    assert(Seq::<u8>::empty() + a + (b + c + d + e + f) =~= bytes);
    u64_reads_back(feet_y, a, c + d + e + f);
    assert(a + b + (c + d + e + f) =~= bytes);
    u64_reads_back(z, a + b, d + e + f);
    assert(a + b + c + (d + e + f) =~= bytes);
    u32_reads_back(yaw, a + b + c, e + f);
    assert(a + b + c + d + (e + f) =~= bytes);
    u32_reads_back(pitch, a + b + c + d, f);
    assert(a + b + c + d + e + f =~= bytes);
    bool_roundtrip(on_ground, a + b + c + d + e, Seq::empty());
    assert(a + b + c + d + e + f + Seq::<u8>::empty() =~= bytes);
}

/// A byte array with its length in front, as a VarInt.
pub open spec fn len_bytes(b: Seq<u8>) -> Seq<u8> {
    varint::spec_encode(b.len() as i32) + b
}

/// A byte array with its length in front reads back.
pub(crate) proof fn len_bytes_read_back(b: Seq<u8>, before: Seq<u8>, after: Seq<u8>)
    requires
        b.len() <= i32::MAX,
    ensures
        read_len_bytes_at(before + len_bytes(b) + after, before.len()) == (Parsed::Value {
            value: b,
            pos: before.len() + len_bytes(b).len(),
        }),
{
    let head = varint::spec_encode(b.len() as i32);
    varint_roundtrip(b.len() as i32, before, b + after);
    let s = before + len_bytes(b) + after;
    assert(s =~= before + head + (b + after));
    assert(s.subrange((before.len() + head.len()) as int, (before.len() + head.len() + b.len()) as int) =~= b);
}

/// Handshake (0x00) is the protocol version as a VarInt, the server's
/// address as a string, its port in two bytes and the next state as a
/// VarInt; such bytes decode to those fields.
pub proof fn handshake_on_the_wire(protocol_version: i32, server_addr: Seq<char>, server_port: u16, next_state: i32)
    requires
        encode_utf8(server_addr).len() <= i32::MAX,
    ensures
        ({
            let bytes = varint::spec_encode(protocol_version) + string::spec_encode(server_addr) + be_bytes(
                server_port as nat,
                2,
            ) + varint::spec_encode(next_state);
            S00Handshake::spec_read(bytes, 0) == (Parsed::Value {
                value: S00HandshakeView { protocol_version, server_addr, server_port, next_state },
                pos: bytes.len(),
            })
        }),
{
    let a = varint::spec_encode(protocol_version);
    let b = string::spec_encode(server_addr);
    let c = be_bytes(server_port as nat, 2);
    let d = varint::spec_encode(next_state);
    lemma_be_bytes_len(server_port as nat, 2);
    let bytes = a + b + c + d;
    varint_roundtrip(protocol_version, Seq::empty(), b + c + d);
    assert(Seq::<u8>::empty() + a + (b + c + d) =~= bytes);
    string_roundtrip(server_addr, a, c + d);
    assert(a + b + (c + d) =~= bytes);
    u16_roundtrip(server_port, a + b, d);
    assert(a + b + c + d =~= bytes);
    varint_roundtrip(next_state, a + b + c, Seq::empty());
    assert(a + b + c + d + Seq::<u8>::empty() =~= bytes);
}

/// Chat Message (0x04) is the message as a string, the timestamp and then
/// the salt in eight bytes each, the signature with its length in front,
/// and the signed-preview flag.
pub proof fn chat_message_on_the_wire(
    message: Seq<char>,
    timestamp: i64,
    salt: i64,
    signature: Seq<u8>,
    signed_preview: bool,
)
    requires
        encode_utf8(message).len() <= i32::MAX,
        signature.len() <= i32::MAX,
    ensures
        ({
            let bytes = string::spec_encode(message) + be_bytes((timestamp as u64) as nat, 8) + be_bytes(
                (salt as u64) as nat,
                8,
            ) + len_bytes(signature) + bool_byte(signed_preview);
            decode_outcome(0x04, bytes, 0x04, S04ChatMessage::spec_read(bytes, 0)) == Decoded::Value(
                S04ChatMessageView { message, timestamp, salt, signature, signed_preview },
            )
        }),
{
    let a = string::spec_encode(message);
    let b = be_bytes((timestamp as u64) as nat, 8);
    let c = be_bytes((salt as u64) as nat, 8);
    let d = len_bytes(signature);
    let e = bool_byte(signed_preview);
    lemma_be_bytes_len((timestamp as u64) as nat, 8);
    lemma_be_bytes_len((salt as u64) as nat, 8);
    lemma_be_bytes_len(if signed_preview { 1 } else { 0 }, 1);
    let bytes = a + b + c + d + e;
    string_roundtrip(message, Seq::empty(), b + c + d + e);
    assert(Seq::<u8>::empty() + a + (b + c + d + e) =~= bytes);
    i64_roundtrip(timestamp, a, c + d + e);
    assert(a + b + (c + d + e) =~= bytes);
    i64_roundtrip(salt, a + b, d + e);
    assert(a + b + c + (d + e) =~= bytes);
    len_bytes_read_back(signature, a + b + c, e);
    assert(a + b + c + d + e =~= bytes);
    bool_roundtrip(signed_preview, a + b + c + d, Seq::empty());
    assert(a + b + c + d + e + Seq::<u8>::empty() =~= bytes);
}

/// Keep Alive (0x11) is the id in eight bytes; Set Held Item (0x27) is the
/// slot in two bytes.
pub proof fn keep_alive_and_held_item_on_the_wire(id: i64, slot: i16)
    ensures
        S11KeepAlive::spec_read(be_bytes((id as u64) as nat, 8), 0) == (Parsed::Value {
            value: S11KeepAlive { id },
            pos: 8,
        }),
        S27SetHeldItem::spec_read(be_bytes((slot as u16) as nat, 2), 0) == (Parsed::Value {
            value: S27SetHeldItem { slot },
            pos: 2,
        }),
{
    i64_roundtrip(id, Seq::empty(), Seq::empty());
    assert(Seq::<u8>::empty() + be_bytes((id as u64) as nat, 8) + Seq::<u8>::empty() =~= be_bytes(
        (id as u64) as nat,
        8,
    ));
    i16_roundtrip(slot, Seq::empty(), Seq::empty());
    assert(Seq::<u8>::empty() + be_bytes((slot as u16) as nat, 2) + Seq::<u8>::empty() =~= be_bytes(
        (slot as u16) as nat,
        2,
    ));
}

/// The number each player command action has on the wire, in the
/// protocol's order.
pub open spec fn player_command_number(a: S1DActionId) -> i32 {
    match a {
        S1DActionId::StartSneaking => 0,
        S1DActionId::StopSneaking => 1,
        S1DActionId::LeaveBed => 2,
        S1DActionId::StartSprinting => 3,
        S1DActionId::StopSprinting => 4,
        S1DActionId::StartJumpWithHorse => 5,
        S1DActionId::StopJumpWithHorse => 6,
        S1DActionId::OpenHorseInventory => 7,
        S1DActionId::StartFlyingWithElytra => 8,
    }
}

/// Player Command (0x1D) is three VarInts: the entity id, the action's
/// number and the jump boost; such bytes decode to that command.
pub proof fn player_command_on_the_wire(entity_id: i32, action_id: S1DActionId, jump_boost: i32)
    ensures
        ({
            let bytes = varint::spec_encode(entity_id) + varint::spec_encode(player_command_number(action_id))
                + varint::spec_encode(jump_boost);
            decode_outcome(0x1D, bytes, 0x1D, S1DPlayerCommand::spec_read(bytes, 0)) == Decoded::Value(
                S1DPlayerCommand { entity_id, action_id, jump_boost },
            )
        }),
{
    let a = varint::spec_encode(entity_id);
    let n = player_command_number(action_id);
    let b = varint::spec_encode(n);
    let c = varint::spec_encode(jump_boost);
    let bytes = a + b + c;
    varint_roundtrip(entity_id, Seq::empty(), b + c);
    assert(Seq::<u8>::empty() + a + (b + c) =~= bytes);
    varint_roundtrip(n, a, c);
    varint_roundtrip(jump_boost, a + b, Seq::empty());
    assert(a + b + c + Seq::<u8>::empty() =~= bytes);
}

/// The number each digging status has on the wire, in the protocol's order.
pub open spec fn digging_status_number(s: S1CStatus) -> i32 {
    match s {
        S1CStatus::StartedDigging => 0,
        S1CStatus::CancelledDigging => 1,
        S1CStatus::FinishedDigging => 2,
        S1CStatus::DropItemStack => 3,
        S1CStatus::DropItem => 4,
        S1CStatus::ShootArrowOrFinishEating => 5,
        S1CStatus::SwapItemInHand => 6,
    }
}

/// The number each block face has on the wire: bottom, top, north, south,
/// west, east.
pub open spec fn digging_face_number(f: S1CDiggingFace) -> i8 {
    match f {
        S1CDiggingFace::Bottom => 0,
        S1CDiggingFace::Top => 1,
        S1CDiggingFace::North => 2,
        S1CDiggingFace::South => 3,
        S1CDiggingFace::West => 4,
        S1CDiggingFace::East => 5,
    }
}

/// An `i8` in one byte reads back.
proof fn i8_byte_reads_back(v: i8, before: Seq<u8>, after: Seq<u8>)
    ensures
        read_i8_at(before + be_bytes((v as u8) as nat, 1) + after, before.len()) == (Parsed::Value {
            value: v,
            pos: before.len() + 1,
        }),
{
    lemma_pow256_values();
    fixed_roundtrip((v as u8) as nat, 1, before, after);
    assert(((v as u8) as i8) == v) by (bit_vector);
}

/// Player Action (0x1C) is the status's number as a VarInt, the packed
/// position in eight bytes, the face's number in one byte and the sequence
/// as a VarInt; such bytes decode to that status, the position unpacked,
/// that face and that sequence.
pub proof fn player_action_on_the_wire(status: S1CStatus, bits: i64, face: S1CDiggingFace, sequence: i32)
    ensures
        ({
            let bytes = varint::spec_encode(digging_status_number(status)) + be_bytes((bits as u64) as nat, 8)
                + be_bytes((digging_face_number(face) as u8) as nat, 1) + varint::spec_encode(sequence);
            S1CPlayerAction::spec_read(bytes, 0) == (Parsed::Value {
                value: S1CPlayerAction { status, position: Position::spec_decode(bits), face, sequence },
                pos: bytes.len(),
            })
        }),
{
    let a = varint::spec_encode(digging_status_number(status));
    let b = be_bytes((bits as u64) as nat, 8);
    let c = be_bytes((digging_face_number(face) as u8) as nat, 1);
    let d = varint::spec_encode(sequence);
    lemma_be_bytes_len((bits as u64) as nat, 8);
    lemma_be_bytes_len((digging_face_number(face) as u8) as nat, 1);
    let bytes = a + b + c + d;
    varint_roundtrip(digging_status_number(status), Seq::empty(), b + c + d);
    assert(Seq::<u8>::empty() + a + (b + c + d) =~= bytes);
    i64_roundtrip(bits, a, c + d);
    assert(a + b + (c + d) =~= bytes);
    i8_byte_reads_back(digging_face_number(face), a + b, d);
    assert(a + b + c + d =~= bytes);
    varint_roundtrip(sequence, a + b + c, Seq::empty());
    assert(a + b + c + d + Seq::<u8>::empty() =~= bytes);
}

/// Use Item On is the hand as a VarInt, the packed position, the face's
/// number, the cursor's x, y and z in four bytes each, the inside-block
/// flag and the sequence; such bytes decode to exactly those fields.
pub proof fn use_item_on_on_the_wire(
    hand: i32,
    bits: i64,
    face: S1CDiggingFace,
    cursor_position_x: u32,
    cursor_position_y: u32,
    cursor_position_z: u32,
    inside_block: bool,
    sequence: i32,
)
    ensures
        ({
            let bytes = varint::spec_encode(hand) + be_bytes((bits as u64) as nat, 8) + be_bytes(
                (digging_face_number(face) as u8) as nat,
                1,
            ) + be_bytes(cursor_position_x as nat, 4) + be_bytes(cursor_position_y as nat, 4) + be_bytes(
                cursor_position_z as nat,
                4,
            ) + bool_byte(inside_block) + varint::spec_encode(sequence);
            S30UseItemOn::spec_read(bytes, 0) == (Parsed::Value {
                value: S30UseItemOn {
                    hand,
                    position: Position::spec_decode(bits),
                    face,
                    cursor_position_x,
                    cursor_position_y,
                    cursor_position_z,
                    inside_block,
                    sequence,
                },
                pos: bytes.len(),
            })
        }),
{
    let a = varint::spec_encode(hand);
    let b = be_bytes((bits as u64) as nat, 8);
    let c = be_bytes((digging_face_number(face) as u8) as nat, 1);
    let d = be_bytes(cursor_position_x as nat, 4);
    let e = be_bytes(cursor_position_y as nat, 4);
    let f = be_bytes(cursor_position_z as nat, 4);
    let g = bool_byte(inside_block);
    let h = varint::spec_encode(sequence);
    lemma_be_bytes_len((bits as u64) as nat, 8);
    lemma_be_bytes_len((digging_face_number(face) as u8) as nat, 1);
    lemma_be_bytes_len(cursor_position_x as nat, 4);
    lemma_be_bytes_len(cursor_position_y as nat, 4);
    lemma_be_bytes_len(cursor_position_z as nat, 4);
    lemma_be_bytes_len(if inside_block { 1 } else { 0 }, 1);
    let bytes = a + b + c + d + e + f + g + h;
    varint_roundtrip(hand, Seq::empty(), b + c + d + e + f + g + h);
    assert(Seq::<u8>::empty() + a + (b + c + d + e + f + g + h) =~= bytes);
    i64_roundtrip(bits, a, c + d + e + f + g + h);
    assert(a + b + (c + d + e + f + g + h) =~= bytes);
    i8_byte_reads_back(digging_face_number(face), a + b, d + e + f + g + h);
    assert(a + b + c + (d + e + f + g + h) =~= bytes);
    u32_reads_back(cursor_position_x, a + b + c, e + f + g + h);
    assert(a + b + c + d + (e + f + g + h) =~= bytes);
    u32_reads_back(cursor_position_y, a + b + c + d, f + g + h);
    assert(a + b + c + d + e + (f + g + h) =~= bytes);
    u32_reads_back(cursor_position_z, a + b + c + d + e, g + h);
    assert(a + b + c + d + e + f + (g + h) =~= bytes);
    bool_roundtrip(inside_block, a + b + c + d + e + f, h);
    assert(a + b + c + d + e + f + g + (h) =~= bytes);
    varint_roundtrip(sequence, a + b + c + d + e + f + g, Seq::empty());
    assert(a + b + c + d + e + f + g + h + Seq::<u8>::empty() =~= bytes);
}

/// Eight pieces in a row, split around each of them.
proof fn split_eight(a: Seq<u8>, b: Seq<u8>, c: Seq<u8>, d: Seq<u8>, e: Seq<u8>, f: Seq<u8>, g: Seq<u8>, h: Seq<u8>)
    ensures
        a + b + c + d + e + f + g + h == Seq::<u8>::empty() + a + (b + c + d + e + f + g + h),
        a + b + c + d + e + f + g + h == a + b + (c + d + e + f + g + h),
        a + b + c + d + e + f + g + h == a + b + c + (d + e + f + g + h),
        a + b + c + d + e + f + g + h == a + b + c + d + (e + f + g + h),
        a + b + c + d + e + f + g + h == a + b + c + d + e + (f + g + h),
        a + b + c + d + e + f + g + h == a + b + c + d + e + f + (g + h),
        a + b + c + d + e + f + g + h == a + b + c + d + e + f + g + (h),
        a + b + c + d + e + f + g + h == a + b + c + d + e + f + g + h + (Seq::<u8>::empty()),
{
    assert(a + b + c + d + e + f + g + h =~= Seq::<u8>::empty() + a + (b + c + d + e + f + g + h));
    assert(a + b + c + d + e + f + g + h =~= a + b + (c + d + e + f + g + h));
    assert(a + b + c + d + e + f + g + h =~= a + b + c + (d + e + f + g + h));
    assert(a + b + c + d + e + f + g + h =~= a + b + c + d + (e + f + g + h));
    assert(a + b + c + d + e + f + g + h =~= a + b + c + d + e + (f + g + h));
    assert(a + b + c + d + e + f + g + h =~= a + b + c + d + e + f + (g + h));
    assert(a + b + c + d + e + f + g + h =~= a + b + c + d + e + f + g + (h));
    assert(a + b + c + d + e + f + g + h =~= a + b + c + d + e + f + g + h + (Seq::<u8>::empty()));
}

/// Client Information's fields, read one after the other, make the
/// packet.
proof fn client_information_from_reads(
    s: Seq<u8>,
    v: S07ClientInformationView,
    p1: nat,
    p2: nat,
    p3: nat,
    p4: nat,
    p5: nat,
    p6: nat,
    p7: nat,
    p8: nat,
)
    requires
        string::read_string_at(s, 0) == (Parsed::Value { value: v.locale, pos: p1 }),
        read_i8_at(s, p1) == (Parsed::Value { value: v.view_distance, pos: p2 }),
        read_varint_at(s, p2) == (Parsed::Value { value: v.chat_mode, pos: p3 }),
        read_bool_at(s, p3) == (Parsed::Value { value: v.chat_colors, pos: p4 }),
        read_u8_at(s, p4) == (Parsed::Value { value: v.displayed_skin_parts, pos: p5 }),
        read_varint_at(s, p5) == (Parsed::Value { value: v.main_hand, pos: p6 }),
        read_bool_at(s, p6) == (Parsed::Value { value: v.enable_text_filtering, pos: p7 }),
        read_bool_at(s, p7) == (Parsed::Value { value: v.allow_server_listings, pos: p8 }),
    ensures
        S07ClientInformation::spec_read(s, 0) == (Parsed::Value { value: v, pos: p8 }),
{
}

/// Client Information (0x07) is the locale as a string, the view distance
/// in one byte, the chat mode as a VarInt, the chat-colours flag, the skin
/// parts' mask in one byte, the main hand as a VarInt, and then the
/// text-filtering and the server-listing flags; such bytes decode to exactly
/// those settings.
pub proof fn client_information_on_the_wire(
    locale: Seq<char>,
    view_distance: i8,
    chat_mode: i32,
    chat_colors: bool,
    displayed_skin_parts: u8,
    main_hand: i32,
    enable_text_filtering: bool,
    allow_server_listings: bool,
)
    requires
        encode_utf8(locale).len() <= i32::MAX,
    ensures
        ({
            let bytes = string::spec_encode(locale) + be_bytes((view_distance as u8) as nat, 1)
                + varint::spec_encode(chat_mode) + bool_byte(chat_colors) + be_bytes(displayed_skin_parts as nat, 1)
                + varint::spec_encode(main_hand) + bool_byte(enable_text_filtering) + bool_byte(allow_server_listings);
            S07ClientInformation::spec_read(bytes, 0) == (Parsed::Value {
                value: S07ClientInformationView {
                    locale,
                    view_distance,
                    chat_mode,
                    chat_colors,
                    displayed_skin_parts,
                    main_hand,
                    enable_text_filtering,
                    allow_server_listings,
                },
                pos: bytes.len(),
            })
        }),
{
    let a = string::spec_encode(locale);
    let b = be_bytes((view_distance as u8) as nat, 1);
    let c = varint::spec_encode(chat_mode);
    let d = bool_byte(chat_colors);
    let e = be_bytes(displayed_skin_parts as nat, 1);
    let f = varint::spec_encode(main_hand);
    let g = bool_byte(enable_text_filtering);
    let h = bool_byte(allow_server_listings);
    lemma_be_bytes_len((view_distance as u8) as nat, 1);
    lemma_be_bytes_len(if chat_colors { 1 } else { 0 }, 1);
    lemma_be_bytes_len(displayed_skin_parts as nat, 1);
    lemma_be_bytes_len(if enable_text_filtering { 1 } else { 0 }, 1);
    lemma_be_bytes_len(if allow_server_listings { 1 } else { 0 }, 1);
    let bytes = a + b + c + d + e + f + g + h;
    split_eight(a, b, c, d, e, f, g, h);
    let p1 = a.len();
    let p2 = p1 + 1;
    let p3 = p2 + c.len();
    let p4 = p3 + 1;
    let p5 = p4 + 1;
    let p6 = p5 + f.len();
    let p7 = p6 + 1;
    let p8 = p7 + 1;
    assert(string::read_string_at(bytes, 0) == (Parsed::Value { value: locale, pos: p1 })) by {
        string_roundtrip(locale, Seq::empty(), b + c + d + e + f + g + h);
    }
    assert(read_i8_at(bytes, p1) == (Parsed::Value { value: view_distance, pos: p2 })) by {
        i8_byte_reads_back(view_distance, a, c + d + e + f + g + h);
    }
    assert(read_varint_at(bytes, p2) == (Parsed::Value { value: chat_mode, pos: p3 })) by {
        varint_roundtrip(chat_mode, a + b, d + e + f + g + h);
    }
    assert(read_bool_at(bytes, p3) == (Parsed::Value { value: chat_colors, pos: p4 })) by {
        bool_roundtrip(chat_colors, a + b + c, e + f + g + h);
    }
    assert(read_u8_at(bytes, p4) == (Parsed::Value { value: displayed_skin_parts, pos: p5 })) by {
        u8_roundtrip(displayed_skin_parts, a + b + c + d, f + g + h);
    }
    assert(read_varint_at(bytes, p5) == (Parsed::Value { value: main_hand, pos: p6 })) by {
        varint_roundtrip(main_hand, a + b + c + d + e, g + h);
    }
    assert(read_bool_at(bytes, p6) == (Parsed::Value { value: enable_text_filtering, pos: p7 })) by {
        bool_roundtrip(enable_text_filtering, a + b + c + d + e + f, h);
    }
    assert(read_bool_at(bytes, p7) == (Parsed::Value { value: allow_server_listings, pos: p8 })) by {
        bool_roundtrip(allow_server_listings, a + b + c + d + e + f + g, Seq::empty());
    }
    client_information_from_reads(
        bytes,
        S07ClientInformationView {
            locale,
            view_distance,
            chat_mode,
            chat_colors,
            displayed_skin_parts,
            main_hand,
            enable_text_filtering,
            allow_server_listings,
        },
        p1,
        p2,
        p3,
        p4,
        p5,
        p6,
        p7,
        p8,
    );
}

/// Encryption Response (0x01) with a verify token is the shared secret with
/// its length in front, a set flag, and the verify token with its length
/// in front; such bytes decode to that secret and that token.
pub proof fn encryption_response_on_the_wire(shared_secret: Seq<u8>, verify_token: Seq<u8>)
    requires
        shared_secret.len() <= i32::MAX,
        verify_token.len() <= i32::MAX,
    ensures
        ({
            let bytes = len_bytes(shared_secret) + bool_byte(true) + len_bytes(verify_token);
            S01EncryptionResponse::spec_read(bytes, 0) == (Parsed::Value {
                value: S01EncryptionResponseView {
                    shared_secret,
                    verify_token: S01VerifyTokenView::With { verify_token },
                },
                pos: bytes.len(),
            })
        }),
{
    let a = len_bytes(shared_secret);
    let b = bool_byte(true);
    let c = len_bytes(verify_token);
    lemma_be_bytes_len(1, 1);
    let bytes = a + b + c;
    len_bytes_read_back(shared_secret, Seq::empty(), b + c);
    assert(Seq::<u8>::empty() + a + (b + c) =~= bytes);
    bool_roundtrip(true, a, c);
    assert(a + b + c =~= bytes);
    len_bytes_read_back(verify_token, a + b, Seq::empty());
    assert(a + b + c + Seq::<u8>::empty() =~= bytes);
}

/// Login Start (0x00) without key data is the player's name as a string and
/// a cleared flag; such bytes decode to that name and no key data.
pub proof fn login_start_on_the_wire(name: Seq<char>)
    requires
        encode_utf8(name).len() <= i32::MAX,
    ensures
        ({
            let bytes = string::spec_encode(name) + bool_byte(false);
            S00LoginStart::spec_read(bytes, 0) == (Parsed::Value {
                value: S00LoginStartView { name, sig_data: None },
                pos: bytes.len(),
            })
        }),
{
    let a = string::spec_encode(name);
    let b = bool_byte(false);
    lemma_be_bytes_len(0, 1);
    let bytes = a + b;
    string_roundtrip(name, Seq::empty(), b);
    assert(Seq::<u8>::empty() + a + b =~= bytes);
    bool_roundtrip(false, a, Seq::empty());
    assert(a + b + Seq::<u8>::empty() =~= bytes);
}

/// Chunk Data and Update Light starts with the chunk's two coordinates,
/// four bytes each; then come the height maps as an unnamed NBT compound
/// (its tag 0x0a, a zero-length name, and, last, its end tag), and only
/// then the sections, the light masks and the light arrays.
pub proof fn chunk_data_carries_its_height_maps(c: C1FChunkDataAndUpdateLight, bytes: Seq<u8>)
    requires
        c.encoded_as(bytes),
    ensures
        bytes.take(8) == be_bytes((c.chunk_x as u32) as nat, 4) + be_bytes((c.chunk_z as u32) as nat, 4),
        bytes.len() >= 12 + c.spec_tail().len(),
        bytes[8] == 0x0a && bytes[9] == 0 && bytes[10] == 0,
        bytes[bytes.len() - c.spec_tail().len() - 1] == 0,
        bytes.skip(bytes.len() - c.spec_tail().len()) == c.spec_tail(),
{
    let h = choose|h: Seq<u8>| #![trigger crate::data_types::slot::unnamed_compound_shape(h)]
        crate::data_types::slot::unnamed_compound_shape(h) && bytes == be_bytes((c.chunk_x as u32) as nat, 4)
            + be_bytes((c.chunk_z as u32) as nat, 4) + h + c.spec_tail();
    let coords = be_bytes((c.chunk_x as u32) as nat, 4) + be_bytes((c.chunk_z as u32) as nat, 4);
    lemma_be_bytes_len((c.chunk_x as u32) as nat, 4);
    lemma_be_bytes_len((c.chunk_z as u32) as nat, 4);
    assert(bytes.take(8) =~= coords);
    assert(h.take(3)[0] == h[0] && h.take(3)[1] == h[1] && h.take(3)[2] == h[2]);
    assert(bytes[8] == h[0] && bytes[9] == h[1] && bytes[10] == h[2]);
    assert(bytes[bytes.len() - c.spec_tail().len() - 1] == h[h.len() - 1]);
    assert(bytes.skip(bytes.len() - c.spec_tail().len()) =~= c.spec_tail());
}

} // verus!
