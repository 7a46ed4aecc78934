//! Packets that the server sends to the client, and how they are written.
use crate::data_types::encoder::fixed::be_bytes;
use crate::data_types::encoder::{string, varint, varlong, PacketEncoder};
use crate::data_types::encoder::fixed::{lemma_be_bytes_len, lemma_be_bytes_one};
use crate::data_types::slot::{slot_encoded, SlotView};
use crate::data_types::command_data::{distinct, node_bytes, refs_in, CommandGraph, GraphEncoder};
use crate::data_types::bitset::BitSet;
use crate::data_types::slot::{blob_bytes, empty_compound_nbt, unnamed_compound_shape};
use crate::data_types::{Identifier, MetadataValue, Position, Slot};
use crate::packets::RawPacket;
use vstd::prelude::*;

verus! {

/// A packet that the server writes.
pub trait ClientBoundPacket: Sized {
    spec fn spec_packet_id() -> i32;

    /// Whether `bytes` are an encoding of the packet's fields.
    spec fn encoded_as(&self, bytes: Seq<u8>) -> bool;

    fn packet_id() -> (id: i32)
        ensures
            id == Self::spec_packet_id(),
    ;

    /// Appends the packet's fields to `encoder`.
    fn encode(&self, encoder: &mut PacketEncoder)
        ensures
            old(encoder)@.len() <= final(encoder)@.len(),
            final(encoder)@.take(old(encoder)@.len() as int) == old(encoder)@,
            self.encoded_as(final(encoder)@.skip(old(encoder)@.len() as int)),
    ;

    /// The packet with its id and its encoded fields.
    fn to_rawpacket(&self) -> (p: RawPacket)
        ensures
            p.packet_id == Self::spec_packet_id(),
            self.encoded_as(p.data@),
    {
        let mut packet_encoder = PacketEncoder::new();
        self.encode(&mut packet_encoder);
        let data = packet_encoder.consume();
        proof {
            assert(data@.skip(0) =~= data@);
        }
        RawPacket::new(Self::packet_id(), data)
    }

    /// The packet like `to_rawpacket`, encoded into the storage of `bytes`,
    /// which must be empty and is left empty.
    fn to_rawpacket_in(&self, bytes: &mut Vec<u8>) -> (p: RawPacket)
        requires
            old(bytes)@.len() == 0,
        ensures
            p.packet_id == Self::spec_packet_id(),
            self.encoded_as(p.data@),
            final(bytes)@.len() == 0,
    {
        let mut storage = Vec::new();
        std::mem::swap(&mut storage, bytes);
        let mut packet_encoder = PacketEncoder::with_storage(storage);
        self.encode(&mut packet_encoder);
        let data = packet_encoder.consume();
        proof {
            assert(data@.skip(0) =~= data@);
        }
        RawPacket::new(Self::packet_id(), data)
    }
}

/// The encodings of the items of `s`, one after the other.
pub open spec fn flat_map<A>(s: Seq<A>, f: spec_fn(A) -> Seq<u8>) -> Seq<u8>
    decreases s.len(),
{
    if s.len() == 0 {
        Seq::empty()
    } else {
        flat_map(s.drop_last(), f) + f(s.last())
    }
}

proof fn lemma_flat_map_step<A>(s: Seq<A>, i: int, f: spec_fn(A) -> Seq<u8>)
    requires
        0 <= i < s.len(),
    ensures
        flat_map(s.take(i + 1), f) == flat_map(s.take(i), f) + f(s[i]),
{
    assert(s.take(i + 1).drop_last() =~= s.take(i));
}

proof fn lemma_prefix_window(a: Seq<u8>, p: Seq<u8>, lo: int, hi: int)
    requires
        a.len() >= p.len(),
        a.take(p.len() as int) == p,
        0 <= lo <= hi <= p.len(),
    ensures
        a.subrange(lo, hi) == p.subrange(lo, hi),
{
    assert forall|j: int| 0 <= j < hi - lo implies a.subrange(lo, hi)[j] == p.subrange(lo, hi)[j] by {
        assert(a.take(p.len() as int)[lo + j] == p[lo + j]);
    }
    assert(a.subrange(lo, hi) =~= p.subrange(lo, hi));
}

proof fn lemma_prefix_trans(a: Seq<u8>, m: Seq<u8>, p: Seq<u8>)
    requires
        a.len() >= m.len(),
        a.take(m.len() as int) == m,
        m.len() >= p.len(),
        m.take(p.len() as int) == p,
    ensures
        a.take(p.len() as int) == p,
{
    lemma_prefix_window(a, m, 0, p.len() as int);
    assert(a.take(p.len() as int) =~= a.subrange(0, p.len() as int));
    assert(m.take(p.len() as int) =~= m.subrange(0, p.len() as int));
}

proof fn lemma_take_all<A>(s: Seq<A>)
    ensures
        s.take(s.len() as int) == s,
{
    assert(s.take(s.len() as int) =~= s);
}

/// VarInts one after the other.
pub open spec fn varints(s: Seq<i32>) -> Seq<u8> {
    flat_map(s, |v: i32| varint::spec_encode(v))
}

/// Eight-byte integers one after the other.
pub open spec fn longs(s: Seq<i64>) -> Seq<u8> {
    flat_map(s, |v: i64| be_bytes((v as u64) as nat, 8))
}

/// Appends every value of `values` as an eight-byte integer.
fn write_longs(encoder: &mut PacketEncoder, values: &Vec<i64>)
    ensures
        final(encoder)@ == old(encoder)@ + longs(values@),
{
    let ghost start = encoder@;
    let mut i: usize = 0;
    while i < values.len()
        invariant
            i <= values.len(),
            encoder@ == start + longs(values@.take(i as int)),
        decreases values.len() - i,
    {
        proof {
            lemma_flat_map_step(values@, i as int, |v: i64| be_bytes((v as u64) as nat, 8));
        }
        encoder.write_i64(values[i]);
        i = i + 1;
        proof {
            assert(encoder@ =~= start + longs(values@.take(i as int)));
        }
    }
    proof {
        lemma_take_all(values@);
    }
}

/// Appends every value of `values` as a VarInt.
fn write_varints(encoder: &mut PacketEncoder, values: &Vec<i32>)
    ensures
        final(encoder)@ == old(encoder)@ + varints(values@),
{
    let ghost start = encoder@;
    let mut i: usize = 0;
    while i < values.len()
        invariant
            i <= values.len(),
            encoder@ == start + varints(values@.take(i as int)),
        decreases values.len() - i,
    {
        proof {
            lemma_flat_map_step(values@, i as int, |v: i32| varint::spec_encode(v));
        }
        encoder.write_varint(values[i]);
        i = i + 1;
        proof {
            assert(encoder@ =~= start + varints(values@.take(i as int)));
        }
    }
    proof {
        lemma_take_all(values@);
    }
}

// ------------------------------------------------------------------- status

/// The answer to a status request: the server's description as JSON text.
#[derive(Clone, Debug)]
pub struct C00StatusResponse {
    /// The JSON text of the response.
    pub json_response: String,
}

impl C00StatusResponse {
    /// The packet's fields, in order.
    pub open spec fn spec_bytes(&self) -> Seq<u8> {
        string::spec_encode(self.json_response@)
    }
}

impl ClientBoundPacket for C00StatusResponse {
    open spec fn spec_packet_id() -> i32 {
        0x00
    }

    open spec fn encoded_as(&self, bytes: Seq<u8>) -> bool {
        bytes == self.spec_bytes()
    }

    fn packet_id() -> (id: i32) {
        0x00
    }

    fn encode(&self, encoder: &mut PacketEncoder) {
        let ghost start = encoder@;
        encoder.write_string(self.json_response.as_str());
        proof {
            assert(encoder@ =~= start + self.spec_bytes());
            assert(encoder@.skip(start.len() as int) =~= self.spec_bytes());
        }
    }
}

/// The answer to a ping, with the ping's payload.
#[derive(Clone, Copy, Debug)]
pub struct C01Pong {
    /// The payload the client sent.
    pub payload: i64,
}

impl C01Pong {
    /// The packet's fields, in order.
    pub open spec fn spec_bytes(&self) -> Seq<u8> {
        be_bytes((self.payload as u64) as nat, 8)
    }
}

impl ClientBoundPacket for C01Pong {
    open spec fn spec_packet_id() -> i32 {
        0x01
    }

    open spec fn encoded_as(&self, bytes: Seq<u8>) -> bool {
        bytes == self.spec_bytes()
    }

    fn packet_id() -> (id: i32) {
        0x01
    }

    fn encode(&self, encoder: &mut PacketEncoder) {
        let ghost start = encoder@;
        encoder.write_i64(self.payload);
        proof {
            assert(encoder@ =~= start + self.spec_bytes());
            assert(encoder@.skip(start.len() as int) =~= self.spec_bytes());
        }
    }
}

// -------------------------------------------------------------------- login

/// Ends the login with a reason, as JSON text.
#[derive(Clone, Debug)]
pub struct C00LoginDisconnect {
    pub reason: String,
}

impl C00LoginDisconnect {
    /// The packet's fields, in order.
    pub open spec fn spec_bytes(&self) -> Seq<u8> {
        string::spec_encode(self.reason@)
    }
}

impl ClientBoundPacket for C00LoginDisconnect {
    open spec fn spec_packet_id() -> i32 {
        0x00
    }

    open spec fn encoded_as(&self, bytes: Seq<u8>) -> bool {
        bytes == self.spec_bytes()
    }

    fn packet_id() -> (id: i32) {
        0x00
    }

    fn encode(&self, encoder: &mut PacketEncoder) {
        let ghost start = encoder@;
        encoder.write_string(self.reason.as_str());
        proof {
            assert(encoder@ =~= start + self.spec_bytes());
            assert(encoder@.skip(start.len() as int) =~= self.spec_bytes());
        }
    }
}

/// Asks the client to set up encryption.
#[derive(Clone, Debug)]
pub struct C01EncryptionRequest {
    pub server_id: String,
    pub public_key: Vec<u8>,
    pub verify_token: Vec<u8>,
}

impl C01EncryptionRequest {
    /// The packet's fields, in order.
    pub open spec fn spec_bytes(&self) -> Seq<u8> {
        string::spec_encode(self.server_id@) + varint::spec_encode(self.public_key@.len() as i32) + self.public_key@ + varint::spec_encode(self.verify_token@.len() as i32) + self.verify_token@
    }
}

impl ClientBoundPacket for C01EncryptionRequest {
    open spec fn spec_packet_id() -> i32 {
        0x01
    }

    open spec fn encoded_as(&self, bytes: Seq<u8>) -> bool {
        bytes == self.spec_bytes()
    }

    fn packet_id() -> (id: i32) {
        0x01
    }

    fn encode(&self, encoder: &mut PacketEncoder) {
        let ghost start = encoder@;
        encoder.write_string(self.server_id.as_str());
        encoder.write_varint(self.public_key.len() as i32);
        encoder.write_bytes(self.public_key.as_slice());
        encoder.write_varint(self.verify_token.len() as i32);
        encoder.write_bytes(self.verify_token.as_slice());
        proof {
            assert(encoder@ =~= start + self.spec_bytes());
            assert(encoder@.skip(start.len() as int) =~= self.spec_bytes());
        }
    }
}

/// Ends the login: the player's UUID (its 128-bit value) and name, with no
/// properties.
#[derive(Clone, Debug)]
pub struct C02LoginSuccess {
    pub uuid: u128,
    pub username: String,
}

/// The bytes of a login success.
pub open spec fn login_success_bytes(uuid: u128, username: Seq<char>) -> Seq<u8> {
    be_bytes(uuid as nat, 16) + string::spec_encode(username) + varint::spec_encode(0)
}

impl ClientBoundPacket for C02LoginSuccess {
    open spec fn spec_packet_id() -> i32 {
        0x02
    }

    open spec fn encoded_as(&self, bytes: Seq<u8>) -> bool {
        bytes == login_success_bytes(self.uuid, self.username@)
    }

    fn packet_id() -> (id: i32) {
        0x02
    }

    fn encode(&self, encoder: &mut PacketEncoder) {
        let ghost start = encoder@;
        encoder.write_uuid(self.uuid);
        encoder.write_string(self.username.as_str());
        encoder.write_varint(0);
        proof {
            assert(encoder@ =~= start + login_success_bytes(self.uuid, self.username@));
            assert(encoder@.skip(start.len() as int) =~= login_success_bytes(self.uuid, self.username@));
        }
    }
}

/// Turns compression on from the given size; zero or less turns it off.
#[derive(Clone, Copy, Debug)]
pub struct C03SetCompression {
    pub threshold: i32,
}

impl C03SetCompression {
    /// The packet's fields, in order.
    pub open spec fn spec_bytes(&self) -> Seq<u8> {
        varint::spec_encode(self.threshold)
    }
}

impl ClientBoundPacket for C03SetCompression {
    open spec fn spec_packet_id() -> i32 {
        0x03
    }

    open spec fn encoded_as(&self, bytes: Seq<u8>) -> bool {
        bytes == self.spec_bytes()
    }

    fn packet_id() -> (id: i32) {
        0x03
    }

    fn encode(&self, encoder: &mut PacketEncoder) {
        let ghost start = encoder@;
        encoder.write_varint(self.threshold);
        proof {
            assert(encoder@ =~= start + self.spec_bytes());
            assert(encoder@.skip(start.len() as int) =~= self.spec_bytes());
        }
    }
}

/// A plugin's request during login; the client answers each one.
#[derive(Clone, Debug)]
pub struct C04LoginPluginRequest {
    pub message_id: i32,
    pub channel: Identifier,
    pub data: Vec<u8>,
}

impl C04LoginPluginRequest {
    /// The packet's fields, in order.
    pub open spec fn spec_bytes(&self) -> Seq<u8> {
        varint::spec_encode(self.message_id) + string::spec_encode(self.channel@) + self.data@
    }
}

impl ClientBoundPacket for C04LoginPluginRequest {
    open spec fn spec_packet_id() -> i32 {
        0x04
    }

    open spec fn encoded_as(&self, bytes: Seq<u8>) -> bool {
        bytes == self.spec_bytes()
    }

    fn packet_id() -> (id: i32) {
        0x04
    }

    fn encode(&self, encoder: &mut PacketEncoder) {
        let ghost start = encoder@;
        encoder.write_varint(self.message_id);
        encoder.write_string(self.channel.as_str());
        encoder.write_bytes(self.data.as_slice());
        proof {
            assert(encoder@ =~= start + self.spec_bytes());
            assert(encoder@.skip(start.len() as int) =~= self.spec_bytes());
        }
    }
}

// --------------------------------------------------------------------- play

/// A vehicle or other non-living entity appears; coordinates are the bits of
/// their `f64`s.
#[derive(Clone, Copy, Debug)]
pub struct C00SpawnEntity {
    pub entity_id: i32,
    pub object_uuid: u128,
    /// Not written to the wire.
    pub kind: i32,
    pub x: u64,
    pub y: u64,
    pub z: u64,
    pub pitch: u8,
    pub yaw: u8,
    pub head_yaw: u8,
    pub data: i32,
    pub velocity_x: i16,
    pub velocity_y: i16,
    pub velocity_z: i16,
}

impl C00SpawnEntity {
    /// The packet's fields, in order.
    pub open spec fn spec_bytes(&self) -> Seq<u8> {
        varint::spec_encode(self.entity_id) + be_bytes(self.object_uuid as nat, 16) + be_bytes(self.x as nat, 8) + be_bytes(self.y as nat, 8) + be_bytes(self.z as nat, 8) + be_bytes(self.pitch as nat, 1) + be_bytes(self.yaw as nat, 1) + be_bytes(self.head_yaw as nat, 1) + be_bytes((self.data as u32) as nat, 4) + be_bytes((self.velocity_x as u16) as nat, 2) + be_bytes((self.velocity_y as u16) as nat, 2) + be_bytes((self.velocity_z as u16) as nat, 2)
    }
}

impl ClientBoundPacket for C00SpawnEntity {
    open spec fn spec_packet_id() -> i32 {
        0x00
    }

    open spec fn encoded_as(&self, bytes: Seq<u8>) -> bool {
        bytes == self.spec_bytes()
    }

    fn packet_id() -> (id: i32) {
        0x00
    }

    fn encode(&self, encoder: &mut PacketEncoder) {
        let ghost start = encoder@;
        encoder.write_varint(self.entity_id);
        encoder.write_uuid(self.object_uuid);
        encoder.write_f64_bits(self.x);
        encoder.write_f64_bits(self.y);
        encoder.write_f64_bits(self.z);
        encoder.write_angle(self.pitch);
        encoder.write_angle(self.yaw);
        encoder.write_angle(self.head_yaw);
        encoder.write_i32(self.data);
        encoder.write_i16(self.velocity_x);
        encoder.write_i16(self.velocity_y);
        encoder.write_i16(self.velocity_z);
        proof {
            assert(encoder@ =~= start + self.spec_bytes());
            assert(encoder@.skip(start.len() as int) =~= self.spec_bytes());
        }
    }
}

/// Experience orbs appear; coordinates are the bits of their `f64`s.
#[derive(Clone, Copy, Debug)]
pub struct C01SpawnExperienceOrb {
    pub entity_id: i32,
    pub x: u64,
    pub y: u64,
    pub z: u64,
    pub count: i16,
}

impl C01SpawnExperienceOrb {
    /// The packet's fields, in order.
    pub open spec fn spec_bytes(&self) -> Seq<u8> {
        varint::spec_encode(self.entity_id) + be_bytes(self.x as nat, 8) + be_bytes(self.y as nat, 8) + be_bytes(self.z as nat, 8) + be_bytes((self.count as u16) as nat, 2)
    }
}

impl ClientBoundPacket for C01SpawnExperienceOrb {
    open spec fn spec_packet_id() -> i32 {
        0x01
    }

    open spec fn encoded_as(&self, bytes: Seq<u8>) -> bool {
        bytes == self.spec_bytes()
    }

    fn packet_id() -> (id: i32) {
        0x01
    }

    fn encode(&self, encoder: &mut PacketEncoder) {
        let ghost start = encoder@;
        encoder.write_varint(self.entity_id);
        encoder.write_f64_bits(self.x);
        encoder.write_f64_bits(self.y);
        encoder.write_f64_bits(self.z);
        encoder.write_i16(self.count);
        proof {
            assert(encoder@ =~= start + self.spec_bytes());
            assert(encoder@.skip(start.len() as int) =~= self.spec_bytes());
        }
    }
}

/// A player comes into view; coordinates are the bits of their `f64`s.
#[derive(Clone, Copy, Debug)]
pub struct C02SpawnPlayer {
    pub entity_id: i32,
    pub uuid: u128,
    pub x: u64,
    pub y: u64,
    pub z: u64,
    pub yaw: u8,
    pub pitch: u8,
}

impl C02SpawnPlayer {
    /// The packet's fields, in order.
    pub open spec fn spec_bytes(&self) -> Seq<u8> {
        varint::spec_encode(self.entity_id) + be_bytes(self.uuid as nat, 16) + be_bytes(self.x as nat, 8) + be_bytes(self.y as nat, 8) + be_bytes(self.z as nat, 8) + be_bytes(self.yaw as nat, 1) + be_bytes(self.pitch as nat, 1)
    }
}

impl ClientBoundPacket for C02SpawnPlayer {
    open spec fn spec_packet_id() -> i32 {
        0x02
    }

    open spec fn encoded_as(&self, bytes: Seq<u8>) -> bool {
        bytes == self.spec_bytes()
    }

    fn packet_id() -> (id: i32) {
        0x02
    }

    fn encode(&self, encoder: &mut PacketEncoder) {
        let ghost start = encoder@;
        encoder.write_varint(self.entity_id);
        encoder.write_uuid(self.uuid);
        encoder.write_f64_bits(self.x);
        encoder.write_f64_bits(self.y);
        encoder.write_f64_bits(self.z);
        encoder.write_angle(self.yaw);
        encoder.write_angle(self.pitch);
        proof {
            assert(encoder@ =~= start + self.spec_bytes());
            assert(encoder@.skip(start.len() as int) =~= self.spec_bytes());
        }
    }
}

/// An entity changes its animation.
#[derive(Clone, Copy, Debug)]
pub struct C03EntityAnimation {
    pub entity_id: i32,
    pub animation: u8,
}

impl C03EntityAnimation {
    /// The packet's fields, in order.
    pub open spec fn spec_bytes(&self) -> Seq<u8> {
        varint::spec_encode(self.entity_id) + be_bytes(self.animation as nat, 1)
    }
}

impl ClientBoundPacket for C03EntityAnimation {
    open spec fn spec_packet_id() -> i32 {
        0x03
    }

    open spec fn encoded_as(&self, bytes: Seq<u8>) -> bool {
        bytes == self.spec_bytes()
    }

    fn packet_id() -> (id: i32) {
        0x03
    }

    fn encode(&self, encoder: &mut PacketEncoder) {
        let ghost start = encoder@;
        encoder.write_varint(self.entity_id);
        encoder.write_u8(self.animation);
        proof {
            assert(encoder@ =~= start + self.spec_bytes());
            assert(encoder@.skip(start.len() as int) =~= self.spec_bytes());
        }
    }
}

/// Acknowledges the block changes of a sequence.
#[derive(Clone, Copy, Debug)]
pub struct C05AcknowledgeBlockChange {
    /// The sequence to acknowledge.
    pub seq_id: i32,
}

impl C05AcknowledgeBlockChange {
    /// The packet's fields, in order.
    pub open spec fn spec_bytes(&self) -> Seq<u8> {
        varint::spec_encode(self.seq_id)
    }
}

impl ClientBoundPacket for C05AcknowledgeBlockChange {
    open spec fn spec_packet_id() -> i32 {
        0x05
    }

    open spec fn encoded_as(&self, bytes: Seq<u8>) -> bool {
        bytes == self.spec_bytes()
    }

    fn packet_id() -> (id: i32) {
        0x05
    }

    fn encode(&self, encoder: &mut PacketEncoder) {
        let ghost start = encoder@;
        encoder.write_varint(self.seq_id);
        proof {
            assert(encoder@ =~= start + self.spec_bytes());
            assert(encoder@.skip(start.len() as int) =~= self.spec_bytes());
        }
    }
}

/// How far a block is broken.
#[derive(Clone, Copy, Debug)]
pub struct C06SetBlockDestroyStage {
    /// The entity breaking the block.
    pub entity_id: i32,
    pub position: Position,
    /// 0 to 9 sets it, anything else removes it.
    pub destroy_stage: i8,
}

impl C06SetBlockDestroyStage {
    /// The packet's fields, in order.
    pub open spec fn spec_bytes(&self) -> Seq<u8> {
        varint::spec_encode(self.entity_id) + be_bytes(self.position.spec_encode() as nat, 8) + be_bytes((self.destroy_stage as u8) as nat, 1)
    }
}

impl ClientBoundPacket for C06SetBlockDestroyStage {
    open spec fn spec_packet_id() -> i32 {
        0x07
    }

    open spec fn encoded_as(&self, bytes: Seq<u8>) -> bool {
        bytes == self.spec_bytes()
    }

    fn packet_id() -> (id: i32) {
        0x07
    }

    fn encode(&self, encoder: &mut PacketEncoder) {
        let ghost start = encoder@;
        encoder.write_varint(self.entity_id);
        encoder.write_u64(self.position.encode());
        encoder.write_i8(self.destroy_stage);
        proof {
            assert(encoder@ =~= start + self.spec_bytes());
            assert(encoder@.skip(start.len() as int) =~= self.spec_bytes());
        }
    }
}

/// A block changed.
#[derive(Clone, Copy, Debug)]
pub struct C09BlockChange {
    pub position: Position,
    pub block_id: i32,
}

impl C09BlockChange {
    /// The packet's fields, in order.
    pub open spec fn spec_bytes(&self) -> Seq<u8> {
        be_bytes(self.position.spec_encode() as nat, 8) + varint::spec_encode(self.block_id)
    }
}

impl ClientBoundPacket for C09BlockChange {
    open spec fn spec_packet_id() -> i32 {
        0x09
    }

    open spec fn encoded_as(&self, bytes: Seq<u8>) -> bool {
        bytes == self.spec_bytes()
    }

    fn packet_id() -> (id: i32) {
        0x09
    }

    fn encode(&self, encoder: &mut PacketEncoder) {
        let ghost start = encoder@;
        encoder.write_u64(self.position.encode());
        encoder.write_varint(self.block_id);
        proof {
            assert(encoder@ =~= start + self.spec_bytes());
            assert(encoder@.skip(start.len() as int) =~= self.spec_bytes());
        }
    }
}

/// The message the client is to preview, as JSON text.
#[derive(Clone, Debug)]
pub struct COCChatPreview {
    pub query_id: i32,
    pub component_is_present: bool,
    pub message_to_preview: String,
}

impl COCChatPreview {
    /// The packet's fields, in order.
    pub open spec fn spec_bytes(&self) -> Seq<u8> {
        be_bytes((self.query_id as u32) as nat, 4) + be_bytes(if self.component_is_present { 1 } else { 0 }, 1) + string::spec_encode(self.message_to_preview@)
    }
}

impl ClientBoundPacket for COCChatPreview {
    open spec fn spec_packet_id() -> i32 {
        0x0C
    }

    open spec fn encoded_as(&self, bytes: Seq<u8>) -> bool {
        bytes == self.spec_bytes()
    }

    fn packet_id() -> (id: i32) {
        0x0C
    }

    fn encode(&self, encoder: &mut PacketEncoder) {
        let ghost start = encoder@;
        encoder.write_i32(self.query_id);
        encoder.write_bool(self.component_is_present);
        encoder.write_string(self.message_to_preview.as_str());
        proof {
            assert(encoder@ =~= start + self.spec_bytes());
            assert(encoder@.skip(start.len() as int) =~= self.spec_bytes());
        }
    }
}

/// Data of mods and plugins, on a named channel.
#[derive(Clone, Debug)]
pub struct C15PluginMessage {
    pub channel: Identifier,
    pub data: Vec<u8>,
}

impl C15PluginMessage {
    /// The packet's fields, in order.
    pub open spec fn spec_bytes(&self) -> Seq<u8> {
        string::spec_encode(self.channel@) + self.data@
    }
}

impl ClientBoundPacket for C15PluginMessage {
    open spec fn spec_packet_id() -> i32 {
        0x15
    }

    open spec fn encoded_as(&self, bytes: Seq<u8>) -> bool {
        bytes == self.spec_bytes()
    }

    fn packet_id() -> (id: i32) {
        0x15
    }

    fn encode(&self, encoder: &mut PacketEncoder) {
        let ghost start = encoder@;
        encoder.write_string(self.channel.as_str());
        encoder.write_bytes(self.data.as_slice());
        proof {
            assert(encoder@ =~= start + self.spec_bytes());
            assert(encoder@.skip(start.len() as int) =~= self.spec_bytes());
        }
    }
}

/// The server closes the connection, with a reason as JSON text.
#[derive(Clone, Debug)]
pub struct C17Disconnect {
    pub reason: String,
}

impl C17Disconnect {
    /// The packet's fields, in order.
    pub open spec fn spec_bytes(&self) -> Seq<u8> {
        string::spec_encode(self.reason@)
    }
}

impl ClientBoundPacket for C17Disconnect {
    open spec fn spec_packet_id() -> i32 {
        0x17
    }

    open spec fn encoded_as(&self, bytes: Seq<u8>) -> bool {
        bytes == self.spec_bytes()
    }

    fn packet_id() -> (id: i32) {
        0x17
    }

    fn encode(&self, encoder: &mut PacketEncoder) {
        let ghost start = encoder@;
        encoder.write_string(self.reason.as_str());
        proof {
            assert(encoder@ =~= start + self.spec_bytes());
            assert(encoder@.skip(start.len() as int) =~= self.spec_bytes());
        }
    }
}

/// The client is to unload a chunk column.
#[derive(Clone, Copy, Debug)]
pub struct C1AUnloadChunk {
    pub chunk_x: i32,
    pub chunk_z: i32,
}

impl C1AUnloadChunk {
    /// The packet's fields, in order.
    pub open spec fn spec_bytes(&self) -> Seq<u8> {
        be_bytes((self.chunk_x as u32) as nat, 4) + be_bytes((self.chunk_z as u32) as nat, 4)
    }
}

impl ClientBoundPacket for C1AUnloadChunk {
    open spec fn spec_packet_id() -> i32 {
        0x1A
    }

    open spec fn encoded_as(&self, bytes: Seq<u8>) -> bool {
        bytes == self.spec_bytes()
    }

    fn packet_id() -> (id: i32) {
        0x1A
    }

    fn encode(&self, encoder: &mut PacketEncoder) {
        let ghost start = encoder@;
        encoder.write_i32(self.chunk_x);
        encoder.write_i32(self.chunk_z);
        proof {
            assert(encoder@ =~= start + self.spec_bytes());
            assert(encoder@.skip(start.len() as int) =~= self.spec_bytes());
        }
    }
}

/// A change of game state; the value is the bits of an `f32`.
#[derive(Clone, Copy, Debug)]
pub struct C1BGameEvent {
    pub event: u8,
    pub value: u32,
}

impl C1BGameEvent {
    /// The packet's fields, in order.
    pub open spec fn spec_bytes(&self) -> Seq<u8> {
        be_bytes(self.event as nat, 1) + be_bytes(self.value as nat, 4)
    }
}

impl ClientBoundPacket for C1BGameEvent {
    open spec fn spec_packet_id() -> i32 {
        0x1B
    }

    open spec fn encoded_as(&self, bytes: Seq<u8>) -> bool {
        bytes == self.spec_bytes()
    }

    fn packet_id() -> (id: i32) {
        0x1B
    }

    fn encode(&self, encoder: &mut PacketEncoder) {
        let ghost start = encoder@;
        encoder.write_u8(self.event);
        encoder.write_f32_bits(self.value);
        proof {
            assert(encoder@ =~= start + self.spec_bytes());
            assert(encoder@.skip(start.len() as int) =~= self.spec_bytes());
        }
    }
}

/// A keep-alive with an id the client must send back.
#[derive(Clone, Copy, Debug)]
pub struct C1EKeepAlive {
    pub id: i64,
}

impl C1EKeepAlive {
    /// The packet's fields, in order.
    pub open spec fn spec_bytes(&self) -> Seq<u8> {
        be_bytes((self.id as u64) as nat, 8)
    }
}

impl ClientBoundPacket for C1EKeepAlive {
    open spec fn spec_packet_id() -> i32 {
        0x1E
    }

    open spec fn encoded_as(&self, bytes: Seq<u8>) -> bool {
        bytes == self.spec_bytes()
    }

    fn packet_id() -> (id: i32) {
        0x1E
    }

    fn encode(&self, encoder: &mut PacketEncoder) {
        let ghost start = encoder@;
        encoder.write_i64(self.id);
        proof {
            assert(encoder@ =~= start + self.spec_bytes());
            assert(encoder@.skip(start.len() as int) =~= self.spec_bytes());
        }
    }
}

/// An entity moved less than 8 blocks.
#[derive(Clone, Copy, Debug)]
pub struct C26UpdateEntityPosition {
    pub entity_id: i32,
    /// `(current_x * 32 - previous_x * 32) * 128`
    pub delta_x: i16,
    pub delta_y: i16,
    pub delta_z: i16,
    pub on_ground: bool,
}

impl C26UpdateEntityPosition {
    /// The packet's fields, in order.
    pub open spec fn spec_bytes(&self) -> Seq<u8> {
        varint::spec_encode(self.entity_id) + be_bytes((self.delta_x as u16) as nat, 2) + be_bytes((self.delta_y as u16) as nat, 2) + be_bytes((self.delta_z as u16) as nat, 2) + be_bytes(if self.on_ground { 1 } else { 0 }, 1)
    }
}

impl ClientBoundPacket for C26UpdateEntityPosition {
    open spec fn spec_packet_id() -> i32 {
        0x26
    }

    open spec fn encoded_as(&self, bytes: Seq<u8>) -> bool {
        bytes == self.spec_bytes()
    }

    fn packet_id() -> (id: i32) {
        0x26
    }

    fn encode(&self, encoder: &mut PacketEncoder) {
        let ghost start = encoder@;
        encoder.write_varint(self.entity_id);
        encoder.write_i16(self.delta_x);
        encoder.write_i16(self.delta_y);
        encoder.write_i16(self.delta_z);
        encoder.write_bool(self.on_ground);
        proof {
            assert(encoder@ =~= start + self.spec_bytes());
            assert(encoder@.skip(start.len() as int) =~= self.spec_bytes());
        }
    }
}

/// An entity moved less than 8 blocks and turned.
#[derive(Clone, Copy, Debug)]
pub struct C27UpdateEntityPositionAndRotation {
    pub entity_id: i32,
    pub delta_x: i16,
    pub delta_y: i16,
    pub delta_z: i16,
    /// The new angle, not a change.
    pub yaw: u8,
    pub pitch: u8,
    pub on_ground: bool,
}

impl C27UpdateEntityPositionAndRotation {
    /// The packet's fields, in order.
    pub open spec fn spec_bytes(&self) -> Seq<u8> {
        varint::spec_encode(self.entity_id) + be_bytes((self.delta_x as u16) as nat, 2) + be_bytes((self.delta_y as u16) as nat, 2) + be_bytes((self.delta_z as u16) as nat, 2) + be_bytes(self.yaw as nat, 1) + be_bytes(self.pitch as nat, 1) + be_bytes(if self.on_ground { 1 } else { 0 }, 1)
    }
}

impl ClientBoundPacket for C27UpdateEntityPositionAndRotation {
    open spec fn spec_packet_id() -> i32 {
        0x27
    }

    open spec fn encoded_as(&self, bytes: Seq<u8>) -> bool {
        bytes == self.spec_bytes()
    }

    fn packet_id() -> (id: i32) {
        0x27
    }

    fn encode(&self, encoder: &mut PacketEncoder) {
        let ghost start = encoder@;
        encoder.write_varint(self.entity_id);
        encoder.write_i16(self.delta_x);
        encoder.write_i16(self.delta_y);
        encoder.write_i16(self.delta_z);
        encoder.write_angle(self.yaw);
        encoder.write_angle(self.pitch);
        encoder.write_bool(self.on_ground);
        proof {
            assert(encoder@ =~= start + self.spec_bytes());
            assert(encoder@.skip(start.len() as int) =~= self.spec_bytes());
        }
    }
}

/// An entity turned.
#[derive(Clone, Copy, Debug)]
pub struct C28UpdateEntityRotation {
    pub entity_id: i32,
    pub yaw: u8,
    pub pitch: u8,
    pub on_ground: bool,
}

impl C28UpdateEntityRotation {
    /// The packet's fields, in order.
    pub open spec fn spec_bytes(&self) -> Seq<u8> {
        varint::spec_encode(self.entity_id) + be_bytes(self.yaw as nat, 1) + be_bytes(self.pitch as nat, 1) + be_bytes(if self.on_ground { 1 } else { 0 }, 1)
    }
}

impl ClientBoundPacket for C28UpdateEntityRotation {
    open spec fn spec_packet_id() -> i32 {
        0x28
    }

    open spec fn encoded_as(&self, bytes: Seq<u8>) -> bool {
        bytes == self.spec_bytes()
    }

    fn packet_id() -> (id: i32) {
        0x28
    }

    fn encode(&self, encoder: &mut PacketEncoder) {
        let ghost start = encoder@;
        encoder.write_varint(self.entity_id);
        encoder.write_angle(self.yaw);
        encoder.write_angle(self.pitch);
        encoder.write_bool(self.on_ground);
        proof {
            assert(encoder@ =~= start + self.spec_bytes());
            assert(encoder@.skip(start.len() as int) =~= self.spec_bytes());
        }
    }
}

/// The player's abilities; the speeds are the bits of `f32`s.
#[derive(Clone, Copy, Debug)]
pub struct C2FPlayerAbilities {
    /// Bit field: invulnerable, flying, allow flying, creative.
    pub flags: u8,
    pub flying_speed: u32,
    pub fov_modifier: u32,
}

impl C2FPlayerAbilities {
    /// The packet's fields, in order.
    pub open spec fn spec_bytes(&self) -> Seq<u8> {
        be_bytes(self.flags as nat, 1) + be_bytes(self.flying_speed as nat, 4) + be_bytes(self.fov_modifier as nat, 4)
    }
}

impl ClientBoundPacket for C2FPlayerAbilities {
    open spec fn spec_packet_id() -> i32 {
        0x2F
    }

    open spec fn encoded_as(&self, bytes: Seq<u8>) -> bool {
        bytes == self.spec_bytes()
    }

    fn packet_id() -> (id: i32) {
        0x2F
    }

    fn encode(&self, encoder: &mut PacketEncoder) {
        let ghost start = encoder@;
        encoder.write_u8(self.flags);
        encoder.write_f32_bits(self.flying_speed);
        encoder.write_f32_bits(self.fov_modifier);
        proof {
            assert(encoder@ =~= start + self.spec_bytes());
            assert(encoder@.skip(start.len() as int) =~= self.spec_bytes());
        }
    }
}

/// Moves the player; coordinates and angles are the bits of their floats.
#[derive(Clone, Copy, Debug)]
pub struct C36SynchronizePlayerPosition {
    pub x: u64,
    pub y: u64,
    pub z: u64,
    pub yaw: u32,
    pub pitch: u32,
    /// Which values are relative.
    pub flags: u8,
    pub teleport_id: i32,
    pub dismount_vehicle: bool,
}

impl C36SynchronizePlayerPosition {
    /// The packet's fields, in order.
    pub open spec fn spec_bytes(&self) -> Seq<u8> {
        be_bytes(self.x as nat, 8) + be_bytes(self.y as nat, 8) + be_bytes(self.z as nat, 8) + be_bytes(self.yaw as nat, 4) + be_bytes(self.pitch as nat, 4) + be_bytes(self.flags as nat, 1) + varint::spec_encode(self.teleport_id) + be_bytes(if self.dismount_vehicle { 1 } else { 0 }, 1)
    }
}

impl ClientBoundPacket for C36SynchronizePlayerPosition {
    open spec fn spec_packet_id() -> i32 {
        0x36
    }

    open spec fn encoded_as(&self, bytes: Seq<u8>) -> bool {
        bytes == self.spec_bytes()
    }

    fn packet_id() -> (id: i32) {
        0x36
    }

    fn encode(&self, encoder: &mut PacketEncoder) {
        let ghost start = encoder@;
        encoder.write_f64_bits(self.x);
        encoder.write_f64_bits(self.y);
        encoder.write_f64_bits(self.z);
        encoder.write_f32_bits(self.yaw);
        encoder.write_f32_bits(self.pitch);
        encoder.write_u8(self.flags);
        encoder.write_varint(self.teleport_id);
        encoder.write_bool(self.dismount_vehicle);
        proof {
            assert(encoder@ =~= start + self.spec_bytes());
            assert(encoder@.skip(start.len() as int) =~= self.spec_bytes());
        }
    }
}

/// Turns an entity's head.
#[derive(Clone, Copy, Debug)]
pub struct C3CSetHeadRotation {
    pub entity_id: i32,
    pub head_yaw: u8,
}

impl C3CSetHeadRotation {
    /// The packet's fields, in order.
    pub open spec fn spec_bytes(&self) -> Seq<u8> {
        varint::spec_encode(self.entity_id) + be_bytes(self.head_yaw as nat, 1)
    }
}

impl ClientBoundPacket for C3CSetHeadRotation {
    open spec fn spec_packet_id() -> i32 {
        0x3C
    }

    open spec fn encoded_as(&self, bytes: Seq<u8>) -> bool {
        bytes == self.spec_bytes()
    }

    fn packet_id() -> (id: i32) {
        0x3C
    }

    fn encode(&self, encoder: &mut PacketEncoder) {
        let ghost start = encoder@;
        encoder.write_varint(self.entity_id);
        encoder.write_angle(self.head_yaw);
        proof {
            assert(encoder@ =~= start + self.spec_bytes());
            assert(encoder@.skip(start.len() as int) =~= self.spec_bytes());
        }
    }
}

/// Selects a hotbar slot.
#[derive(Clone, Copy, Debug)]
pub struct C47SetHeldItem {
    /// 0 to 8.
    pub slot: i8,
}

impl C47SetHeldItem {
    /// The packet's fields, in order.
    pub open spec fn spec_bytes(&self) -> Seq<u8> {
        be_bytes((self.slot as u8) as nat, 1)
    }
}

impl ClientBoundPacket for C47SetHeldItem {
    open spec fn spec_packet_id() -> i32 {
        0x47
    }

    open spec fn encoded_as(&self, bytes: Seq<u8>) -> bool {
        bytes == self.spec_bytes()
    }

    fn packet_id() -> (id: i32) {
        0x47
    }

    fn encode(&self, encoder: &mut PacketEncoder) {
        let ghost start = encoder@;
        encoder.write_i8(self.slot);
        proof {
            assert(encoder@ =~= start + self.spec_bytes());
            assert(encoder@.skip(start.len() as int) =~= self.spec_bytes());
        }
    }
}

/// The chunk the client is in.
#[derive(Clone, Copy, Debug)]
pub struct C48SetCenterChunk {
    pub chunk_x: i32,
    pub chunk_z: i32,
}

impl C48SetCenterChunk {
    /// The packet's fields, in order.
    pub open spec fn spec_bytes(&self) -> Seq<u8> {
        varint::spec_encode(self.chunk_x) + varint::spec_encode(self.chunk_z)
    }
}

impl ClientBoundPacket for C48SetCenterChunk {
    open spec fn spec_packet_id() -> i32 {
        0x40
    }

    open spec fn encoded_as(&self, bytes: Seq<u8>) -> bool {
        bytes == self.spec_bytes()
    }

    fn packet_id() -> (id: i32) {
        0x40
    }

    fn encode(&self, encoder: &mut PacketEncoder) {
        let ghost start = encoder@;
        encoder.write_varint(self.chunk_x);
        encoder.write_varint(self.chunk_z);
        proof {
            assert(encoder@ =~= start + self.spec_bytes());
            assert(encoder@.skip(start.len() as int) =~= self.spec_bytes());
        }
    }
}

/// The spawn point; the angle is the bits of an `f32`.
#[derive(Clone, Copy, Debug)]
pub struct C4ASetDefaultSpawnPosition {
    pub location: Position,
    pub angle: u32,
}

impl C4ASetDefaultSpawnPosition {
    /// The packet's fields, in order.
    pub open spec fn spec_bytes(&self) -> Seq<u8> {
        be_bytes(self.location.spec_encode() as nat, 8) + be_bytes(self.angle as nat, 4)
    }
}

impl ClientBoundPacket for C4ASetDefaultSpawnPosition {
    open spec fn spec_packet_id() -> i32 {
        0x4A
    }

    open spec fn encoded_as(&self, bytes: Seq<u8>) -> bool {
        bytes == self.spec_bytes()
    }

    fn packet_id() -> (id: i32) {
        0x4A
    }

    fn encode(&self, encoder: &mut PacketEncoder) {
        let ghost start = encoder@;
        encoder.write_u64(self.location.encode());
        encoder.write_f32_bits(self.angle);
        proof {
            assert(encoder@ =~= start + self.spec_bytes());
            assert(encoder@.skip(start.len() as int) =~= self.spec_bytes());
        }
    }
}

/// An entity's velocity, in 1/8000 of a block per tick.
#[derive(Clone, Copy, Debug)]
pub struct C4FSetEntityVelocity {
    pub entity_id: i32,
    pub vel_x: i16,
    pub vel_y: i16,
    pub vel_z: i16,
}

impl C4FSetEntityVelocity {
    /// The packet's fields, in order.
    pub open spec fn spec_bytes(&self) -> Seq<u8> {
        varint::spec_encode(self.entity_id) + be_bytes((self.vel_x as u16) as nat, 2) + be_bytes((self.vel_y as u16) as nat, 2) + be_bytes((self.vel_z as u16) as nat, 2)
    }
}

impl ClientBoundPacket for C4FSetEntityVelocity {
    open spec fn spec_packet_id() -> i32 {
        0x4F
    }

    open spec fn encoded_as(&self, bytes: Seq<u8>) -> bool {
        bytes == self.spec_bytes()
    }

    fn packet_id() -> (id: i32) {
        0x4F
    }

    fn encode(&self, encoder: &mut PacketEncoder) {
        let ghost start = encoder@;
        encoder.write_varint(self.entity_id);
        encoder.write_i16(self.vel_x);
        encoder.write_i16(self.vel_y);
        encoder.write_i16(self.vel_z);
        proof {
            assert(encoder@ =~= start + self.spec_bytes());
            assert(encoder@.skip(start.len() as int) =~= self.spec_bytes());
        }
    }
}

/// The text above and below the player list, as JSON text.
#[derive(Clone, Debug)]
pub struct C60SetTabListHeaderAndFooter {
    pub header: String,
    pub footer: String,
}

impl C60SetTabListHeaderAndFooter {
    /// The packet's fields, in order.
    pub open spec fn spec_bytes(&self) -> Seq<u8> {
        string::spec_encode(self.header@) + string::spec_encode(self.footer@)
    }
}

impl ClientBoundPacket for C60SetTabListHeaderAndFooter {
    open spec fn spec_packet_id() -> i32 {
        0x60
    }

    open spec fn encoded_as(&self, bytes: Seq<u8>) -> bool {
        bytes == self.spec_bytes()
    }

    fn packet_id() -> (id: i32) {
        0x60
    }

    fn encode(&self, encoder: &mut PacketEncoder) {
        let ghost start = encoder@;
        encoder.write_string(self.header.as_str());
        encoder.write_string(self.footer.as_str());
        proof {
            assert(encoder@ =~= start + self.spec_bytes());
            assert(encoder@.skip(start.len() as int) =~= self.spec_bytes());
        }
    }
}

/// An entity moved more than 8 blocks; coordinates are the bits of their
/// `f64`s.
#[derive(Clone, Copy, Debug)]
pub struct C63TeleportEntity {
    pub entity_id: i32,
    pub x: u64,
    pub y: u64,
    pub z: u64,
    pub yaw: u8,
    pub pitch: u8,
    pub on_ground: bool,
}

impl C63TeleportEntity {
    /// The packet's fields, in order.
    pub open spec fn spec_bytes(&self) -> Seq<u8> {
        varint::spec_encode(self.entity_id) + be_bytes(self.x as nat, 8) + be_bytes(self.y as nat, 8) + be_bytes(self.z as nat, 8) + be_bytes(self.yaw as nat, 1) + be_bytes(self.pitch as nat, 1) + be_bytes(if self.on_ground { 1 } else { 0 }, 1)
    }
}

impl ClientBoundPacket for C63TeleportEntity {
    open spec fn spec_packet_id() -> i32 {
        0x63
    }

    open spec fn encoded_as(&self, bytes: Seq<u8>) -> bool {
        bytes == self.spec_bytes()
    }

    fn packet_id() -> (id: i32) {
        0x63
    }

    fn encode(&self, encoder: &mut PacketEncoder) {
        let ghost start = encoder@;
        encoder.write_varint(self.entity_id);
        encoder.write_f64_bits(self.x);
        encoder.write_f64_bits(self.y);
        encoder.write_f64_bits(self.z);
        encoder.write_angle(self.yaw);
        encoder.write_angle(self.pitch);
        encoder.write_bool(self.on_ground);
        proof {
            assert(encoder@ =~= start + self.spec_bytes());
            assert(encoder@.skip(start.len() as int) =~= self.spec_bytes());
        }
    }
}

/// Entities to be removed from the client.
#[derive(Clone, Debug)]
pub struct C38RemoveEntities {
    pub entities: Vec<i32>,
}

impl C38RemoveEntities {
    pub open spec fn spec_bytes(&self) -> Seq<u8> {
        varint::spec_encode(self.entities@.len() as i32) + varints(self.entities@)
    }
}

impl ClientBoundPacket for C38RemoveEntities {
    open spec fn spec_packet_id() -> i32 {
        0x38
    }

    open spec fn encoded_as(&self, bytes: Seq<u8>) -> bool {
        bytes == self.spec_bytes()
    }

    fn packet_id() -> (id: i32) {
        0x38
    }

    fn encode(&self, encoder: &mut PacketEncoder) {
        let ghost start = encoder@;
        encoder.write_varint(self.entities.len() as i32);
        write_varints(encoder, &self.entities);
        proof {
            assert(encoder@ =~= start + self.spec_bytes());
            assert(encoder@.skip(start.len() as int) =~= self.spec_bytes());
        }
    }
}

/// Entries of a chunk section, stored through a palette.
#[derive(Clone, Debug)]
pub enum C1FPalettedContainer {
    /// Every entry is the same value.
    Single(i32),
    /// Entries index into a palette; 4 to 8 bits for blocks, 0 to 3 for biomes.
    Indirect { bits_per_entry: u8, palette: Vec<i32>, data_array: Vec<i64> },
    /// Entries are global ids; 9 bits or more for blocks, 4 or more for biomes.
    Direct { bits_per_entry: u8, data_array: Vec<i64> },
}

impl C1FPalettedContainer {
    /// The bits per entry, then for a single value the value and an empty
    /// array; otherwise the palette's length (its entries are not written) and
    /// the data array with its length.
    pub open spec fn spec_bytes(&self) -> Seq<u8> {
        match self {
            C1FPalettedContainer::Single(v) => be_bytes(0, 1) + varint::spec_encode(*v) + varint::spec_encode(0),
            C1FPalettedContainer::Indirect { bits_per_entry, palette, data_array } => be_bytes(
                *bits_per_entry as nat,
                1,
            ) + varint::spec_encode(palette@.len() as i32) + varint::spec_encode(data_array@.len() as i32)
                + longs(data_array@),
            C1FPalettedContainer::Direct { bits_per_entry, data_array } => be_bytes(*bits_per_entry as nat, 1)
                + varint::spec_encode(data_array@.len() as i32) + longs(data_array@),
        }
    }

    pub fn encode(&self, encoder: &mut PacketEncoder)
        ensures
            final(encoder)@ == old(encoder)@ + self.spec_bytes(),
    {
        let ghost start = encoder@;
        match self {
            C1FPalettedContainer::Single(v) => {
                encoder.write_u8(0);
                encoder.write_varint(*v);
                encoder.write_varint(0);
            },
            C1FPalettedContainer::Indirect { bits_per_entry, palette, data_array } => {
                encoder.write_u8(*bits_per_entry);
                encoder.write_varint(palette.len() as i32);
                encoder.write_varint(data_array.len() as i32);
                write_longs(encoder, data_array);
            },
            C1FPalettedContainer::Direct { bits_per_entry, data_array } => {
                encoder.write_u8(*bits_per_entry);
                encoder.write_varint(data_array.len() as i32);
                write_longs(encoder, data_array);
            },
        }
        proof {
            assert(encoder@ =~= start + self.spec_bytes());
        }
    }
}

/// A 16x16x16 section of a chunk.
#[derive(Clone, Debug)]
pub struct C1FSection {
    pub block_count: i16,
    pub block_states: C1FPalettedContainer,
    pub biomes: C1FPalettedContainer,
}

impl C1FSection {
    pub open spec fn spec_bytes(&self) -> Seq<u8> {
        be_bytes((self.block_count as u16) as nat, 2) + self.block_states.spec_bytes() + self.biomes.spec_bytes()
    }

    pub fn encode(&self, encoder: &mut PacketEncoder)
        ensures
            final(encoder)@ == old(encoder)@ + self.spec_bytes(),
    {
        let ghost start = encoder@;
        encoder.write_i16(self.block_count);
        self.block_states.encode(encoder);
        self.biomes.encode(encoder);
        proof {
            assert(encoder@ =~= start + self.spec_bytes());
        }
    }
}

/// One block of a section update: its coordinates inside the section (low
/// four bits each) and its new state.
#[derive(Clone, Copy, Debug)]
pub struct C3DBlockChange {
    pub x: u8,
    pub y: u8,
    pub z: u8,
    pub block_id: i32,
}

impl C3DBlockChange {
    /// The packed number: the state above twelve bits of x, z and y.
    pub open spec fn spec_packed(self) -> i64 {
        (self.block_id * 0x1000 + (self.x % 16) * 0x100 + (self.z % 16) * 0x10 + self.y % 16) as i64
    }

    fn packed(&self) -> (v: i64)
        ensures
            v == self.spec_packed(),
    {
        let b = self.block_id as i64;
        let x = self.x as i64;
        let y = self.y as i64;
        let z = self.z as i64;
        let v = (b << 12) | (x & 0xF) << 8 | (z & 0xF) << 4 | (y & 0xF);
        assert(v == b * 0x1000 + (x % 16) * 0x100 + (z % 16) * 0x10 + y % 16) by (bit_vector)
            requires
                v == (b << 12) | (x & 0xF) << 8 | (z & 0xF) << 4 | (y & 0xF),
                -0x8000_0000 <= b < 0x8000_0000,
                0 <= x < 256,
                0 <= y < 256,
                0 <= z < 256,
        ;
        v
    }
}

/// The packed position of a section: 22 bits of x, 22 bits of z, 20 bits of y.
pub open spec fn section_position(x: i32, y: i32, z: i32) -> u64 {
    (((x as u64) % 0x40_0000) * 0x400_0000_0000 + ((z as u64) % 0x40_0000) * 0x10_0000 + (y as u64)
        % 0x10_0000) as u64
}

/// Several blocks of one section changed at once.
#[derive(Clone, Debug)]
pub struct C3DUpdateSectionBlocks {
    pub section_x: i32,
    pub section_y: i32,
    pub section_z: i32,
    pub inverted_trust_edges: bool,
    pub blocks: Vec<C3DBlockChange>,
}

impl C3DUpdateSectionBlocks {
    pub open spec fn spec_bytes(&self) -> Seq<u8> {
        be_bytes(section_position(self.section_x, self.section_y, self.section_z) as nat, 8) + be_bytes(
            if self.inverted_trust_edges {
                1
            } else {
                0
            },
            1,
        ) + varint::spec_encode(self.blocks@.len() as i32) + flat_map(
            self.blocks@,
            |b: C3DBlockChange| varlong::spec_encode(b.spec_packed()),
        )
    }
}

impl ClientBoundPacket for C3DUpdateSectionBlocks {
    open spec fn spec_packet_id() -> i32 {
        0x3D
    }

    open spec fn encoded_as(&self, bytes: Seq<u8>) -> bool {
        bytes == self.spec_bytes()
    }

    fn packet_id() -> (id: i32) {
        0x3D
    }

    fn encode(&self, encoder: &mut PacketEncoder) {
        let ghost start = encoder@;
        let x = self.section_x;
        let y = self.section_y;
        let z = self.section_z;
        let packed = ((x as u64 & 0x3FFFFF) << 42) | ((z as u64 & 0x3FFFFF) << 20) | (y as u64 & 0x0FFFFF);
        assert(packed == ((x as u64) % 0x40_0000) * 0x400_0000_0000 + ((z as u64) % 0x40_0000) * 0x10_0000
            + (y as u64) % 0x10_0000) by (bit_vector)
            requires
                packed == ((x as u64 & 0x3FFFFF) << 42) | ((z as u64 & 0x3FFFFF) << 20) | (y as u64 & 0x0FFFFF),
        ;
        encoder.write_u64(packed);
        encoder.write_bool(self.inverted_trust_edges);
        encoder.write_varint(self.blocks.len() as i32);
        let ghost head = encoder@;
        let ghost f = |b: C3DBlockChange| varlong::spec_encode(b.spec_packed());
        let mut i: usize = 0;
        while i < self.blocks.len()
            invariant
                i <= self.blocks.len(),
                encoder@ == head + flat_map(self.blocks@.take(i as int), f),
                f == (|b: C3DBlockChange| varlong::spec_encode(b.spec_packed())),
            decreases self.blocks.len() - i,
        {
            proof {
                lemma_flat_map_step(self.blocks@, i as int, f);
            }
            let v = self.blocks[i].packed();
            encoder.write_varlong(v);
            i = i + 1;
            proof {
                assert(encoder@ =~= head + flat_map(self.blocks@.take(i as int), f));
            }
        }
        proof {
            lemma_take_all(self.blocks@);
            assert(encoder@ =~= start + self.spec_bytes());
            assert(encoder@.skip(start.len() as int) =~= self.spec_bytes());
        }
    }
}

/// A flag, then the text where there is one.
pub open spec fn opt_string_bytes(o: Option<Seq<char>>) -> Seq<u8> {
    match o {
        Some(t) => be_bytes(1, 1) + string::spec_encode(t),
        None => be_bytes(0, 1),
    }
}

pub open spec fn opt_view(o: Option<String>) -> Option<Seq<char>> {
    match o {
        Some(t) => Some(t@),
        None => None,
    }
}

fn write_opt_string(encoder: &mut PacketEncoder, o: &Option<String>)
    ensures
        final(encoder)@ == old(encoder)@ + opt_string_bytes(opt_view(*o)),
{
    let ghost start = encoder@;
    encoder.write_bool(o.is_some());
    if let Some(t) = o {
        encoder.write_string(t.as_str());
    }
    proof {
        assert(encoder@ =~= start + opt_string_bytes(opt_view(*o)));
    }
}

impl C2FPlayerAbilities {
    /// The abilities with their flags packed: 0x01 invulnerable, 0x02 flying,
    /// 0x04 may fly, 0x08 creative.
    pub fn new(
        invulnerable: bool,
        flying: bool,
        allow_flying: bool,
        creative_mode: bool,
        flying_speed: u32,
        fov_modifier: u32,
    ) -> (p: Self)
        ensures
            p.flags == (if invulnerable { 1u8 } else { 0 }) + (if flying { 2u8 } else { 0 }) + (if allow_flying {
                4u8
            } else {
                0
            }) + (if creative_mode { 8u8 } else { 0 }),
            p.flying_speed == flying_speed,
            p.fov_modifier == fov_modifier,
    {
        let a: u8 = if invulnerable { 1 } else { 0 };
        let b: u8 = if flying { 1 } else { 0 };
        let c: u8 = if allow_flying { 1 } else { 0 };
        let d: u8 = if creative_mode { 1 } else { 0 };
        let fa: u8 = a * 0x01;
        let fb: u8 = b * 0x02;
        let fc: u8 = c * 0x04;
        let fd: u8 = d * 0x08;
        let flags = fa | fb | fc | fd;
        assert(flags == fa + fb + fc + fd) by (bit_vector)
            requires
                flags == fa | fb | fc | fd,
                fa == 0 || fa == 1,
                fb == 0 || fb == 2,
                fc == 0 || fc == 4,
                fd == 0 || fd == 8,
        ;
        C2FPlayerAbilities { flags, flying_speed, fov_modifier }
    }
}

/// Builds a plugin message: the data is written through the encoder.
pub struct C15PluginMessageBuilder {
    pub channel: Identifier,
    pub encoder: PacketEncoder,
}

impl C15PluginMessageBuilder {
    pub fn new(channel: Identifier) -> (b: Self)
        ensures
            b.channel@ == channel@,
            b.encoder@ == Seq::<u8>::empty(),
    {
        C15PluginMessageBuilder { channel, encoder: PacketEncoder::new() }
    }

    /// The message with what was written as its data.
    pub fn build(self) -> (m: C15PluginMessage)
        ensures
            m.channel@ == self.channel@,
            m.data@ == self.encoder@,
    {
        C15PluginMessage { channel: self.channel, data: self.encoder.consume() }
    }
}

/// A chat message from a player; chat components are JSON text, the sender's
/// UUID is its 128-bit value.
#[derive(Clone, Debug)]
pub struct C30PlayerChatMessage {
    /// The message as the client signed it.
    pub signed_chat_content: String,
    /// What the server made of it, if anything.
    pub unsigned_chat_content: Option<String>,
    /// 0: chat, 1: system, 2: game info, 3: say, 4: msg, 5: team msg, 6: emote, 7: tellraw.
    pub kind: i32,
    /// `None` is written as zero.
    pub sender_uuid: Option<u128>,
    pub sender_display_name: String,
    pub sender_team_name: Option<String>,
    pub timestamp: i64,
    pub salt: i64,
    pub message_signature: Vec<u8>,
}

impl C30PlayerChatMessage {
    pub open spec fn spec_bytes(&self) -> Seq<u8> {
        string::spec_encode(self.signed_chat_content@) + opt_string_bytes(opt_view(self.unsigned_chat_content))
            + varint::spec_encode(self.kind) + be_bytes(
            match self.sender_uuid {
                Some(u) => u as nat,
                None => 0,
            },
            16,
        ) + string::spec_encode(self.sender_display_name@) + opt_string_bytes(opt_view(self.sender_team_name))
            + be_bytes((self.timestamp as u64) as nat, 8) + be_bytes((self.salt as u64) as nat, 8)
            + varint::spec_encode(self.message_signature@.len() as i32) + self.message_signature@
    }
}

impl ClientBoundPacket for C30PlayerChatMessage {
    open spec fn spec_packet_id() -> i32 {
        0x30
    }

    open spec fn encoded_as(&self, bytes: Seq<u8>) -> bool {
        bytes == self.spec_bytes()
    }

    fn packet_id() -> (id: i32) {
        0x30
    }

    fn encode(&self, encoder: &mut PacketEncoder) {
        let ghost start = encoder@;
        encoder.write_string(self.signed_chat_content.as_str());
        write_opt_string(encoder, &self.unsigned_chat_content);
        encoder.write_varint(self.kind);
        let uuid = match self.sender_uuid {
            Some(u) => u,
            None => 0,
        };
        encoder.write_uuid(uuid);
        encoder.write_string(self.sender_display_name.as_str());
        write_opt_string(encoder, &self.sender_team_name);
        encoder.write_i64(self.timestamp);
        encoder.write_i64(self.salt);
        encoder.write_varint(self.message_signature.len() as i32);
        encoder.write_bytes(self.message_signature.as_slice());
        proof {
            assert(encoder@ =~= start + self.spec_bytes());
            assert(encoder@.skip(start.len() as int) =~= self.spec_bytes());
        }
    }
}

/// A property of a player in the player list, such as its skin.
#[derive(Clone, Debug)]
pub struct C32PlayerInfoAddPlayerProperty {
    pub name: String,
    pub value: String,
    pub signature: Option<String>,
}

impl C32PlayerInfoAddPlayerProperty {
    pub open spec fn spec_bytes(&self) -> Seq<u8> {
        string::spec_encode(self.name@) + string::spec_encode(self.value@) + opt_string_bytes(
            opt_view(self.signature),
        )
    }

    pub fn encode(&self, encoder: &mut PacketEncoder)
        ensures
            final(encoder)@ == old(encoder)@ + self.spec_bytes(),
    {
        let ghost start = encoder@;
        encoder.write_string(self.name.as_str());
        encoder.write_string(self.value.as_str());
        write_opt_string(encoder, &self.signature);
        proof {
            assert(encoder@ =~= start + self.spec_bytes());
        }
    }
}

/// A player added to the player list.
#[derive(Clone, Debug)]
pub struct C34AddPlayer {
    pub uuid: u128,
    pub name: String,
    pub properties: Vec<C32PlayerInfoAddPlayerProperty>,
    pub gamemode: i32,
    /// In milliseconds.
    pub ping: i32,
    pub display_name: Option<String>,
}

impl C34AddPlayer {
    /// The properties follow the name without a count; the signature data
    /// is always absent.
    pub open spec fn spec_bytes(&self) -> Seq<u8> {
        be_bytes(self.uuid as nat, 16) + string::spec_encode(self.name@) + flat_map(
            self.properties@,
            |p: C32PlayerInfoAddPlayerProperty| p.spec_bytes(),
        ) + varint::spec_encode(self.gamemode) + varint::spec_encode(self.ping) + opt_string_bytes(
            opt_view(self.display_name),
        ) + be_bytes(0, 1)
    }

    pub fn encode(&self, encoder: &mut PacketEncoder)
        ensures
            final(encoder)@ == old(encoder)@ + self.spec_bytes(),
    {
        let ghost start = encoder@;
        encoder.write_uuid(self.uuid);
        encoder.write_string(self.name.as_str());
        let ghost head = encoder@;
        let ghost f = |p: C32PlayerInfoAddPlayerProperty| p.spec_bytes();
        let mut i: usize = 0;
        while i < self.properties.len()
            invariant
                i <= self.properties.len(),
                encoder@ == head + flat_map(self.properties@.take(i as int), f),
                f == (|p: C32PlayerInfoAddPlayerProperty| p.spec_bytes()),
            decreases self.properties.len() - i,
        {
            proof {
                lemma_flat_map_step(self.properties@, i as int, f);
            }
            self.properties[i].encode(encoder);
            i = i + 1;
            proof {
                assert(encoder@ =~= head + flat_map(self.properties@.take(i as int), f));
            }
        }
        proof {
            lemma_take_all(self.properties@);
        }
        encoder.write_varint(self.gamemode);
        encoder.write_varint(self.ping);
        write_opt_string(encoder, &self.display_name);
        encoder.write_bool(false);
        proof {
            assert(encoder@ =~= start + self.spec_bytes());
        }
    }
}

/// A player's new game mode.
#[derive(Clone, Copy, Debug)]
pub struct C34UpdateGamemode {
    pub uuid: u128,
    pub gamemode: i32,
}

impl C34UpdateGamemode {
    pub open spec fn spec_bytes(&self) -> Seq<u8> {
        be_bytes(self.uuid as nat, 16) + varint::spec_encode(self.gamemode)
    }

    pub fn encode(&self, encoder: &mut PacketEncoder)
        ensures
            final(encoder)@ == old(encoder)@ + self.spec_bytes(),
    {
        let ghost start = encoder@;
        encoder.write_uuid(self.uuid);
        encoder.write_varint(self.gamemode);
        proof {
            assert(encoder@ =~= start + self.spec_bytes());
        }
    }
}

/// A player's new latency.
#[derive(Clone, Copy, Debug)]
pub struct C34UpdateLatency {
    pub uuid: u128,
    /// In milliseconds.
    pub ping: i32,
}

impl C34UpdateLatency {
    pub open spec fn spec_bytes(&self) -> Seq<u8> {
        be_bytes(self.uuid as nat, 16) + varint::spec_encode(self.ping)
    }

    pub fn encode(&self, encoder: &mut PacketEncoder)
        ensures
            final(encoder)@ == old(encoder)@ + self.spec_bytes(),
    {
        let ghost start = encoder@;
        encoder.write_uuid(self.uuid);
        encoder.write_varint(self.ping);
        proof {
            assert(encoder@ =~= start + self.spec_bytes());
        }
    }
}

/// A player's new display name, or none.
#[derive(Clone, Debug)]
pub struct C34UpdateDisplayName {
    pub uuid: u128,
    pub display_name: Option<String>,
}

impl C34UpdateDisplayName {
    pub open spec fn spec_bytes(&self) -> Seq<u8> {
        be_bytes(self.uuid as nat, 16) + opt_string_bytes(opt_view(self.display_name))
    }

    pub fn encode(&self, encoder: &mut PacketEncoder)
        ensures
            final(encoder)@ == old(encoder)@ + self.spec_bytes(),
    {
        let ghost start = encoder@;
        encoder.write_uuid(self.uuid);
        write_opt_string(encoder, &self.display_name);
        proof {
            assert(encoder@ =~= start + self.spec_bytes());
        }
    }
}

/// A player removed from the list.
#[derive(Clone, Copy, Debug)]
pub struct C34RemovePlayer {
    pub uuid: u128,
}

impl C34RemovePlayer {
    pub open spec fn spec_bytes(&self) -> Seq<u8> {
        be_bytes(self.uuid as nat, 16)
    }

    pub fn encode(&self, encoder: &mut PacketEncoder)
        ensures
            final(encoder)@ == old(encoder)@ + self.spec_bytes(),
    {
        encoder.write_uuid(self.uuid);
    }
}

/// Updates the player list.
#[derive(Clone, Debug)]
pub enum C34PlayerInfo {
    AddPlayers { players: Vec<C34AddPlayer> },
    UpdateGamemodes { players: Vec<C34UpdateGamemode> },
    UpdateLatencies { players: Vec<C34UpdateLatency> },
    UpdateDisplayNames { players: Vec<C34UpdateDisplayName> },
    RemovePlayers { players: Vec<C34RemovePlayer> },
}

impl C34PlayerInfo {
    /// The action's number (0 to 4 in the order of the variants), the number
    /// of players, then each player.
    pub open spec fn spec_bytes(&self) -> Seq<u8> {
        match self {
            C34PlayerInfo::AddPlayers { players } => varint::spec_encode(0) + varint::spec_encode(
                players@.len() as i32,
            ) + flat_map(players@, |p: C34AddPlayer| p.spec_bytes()),
            C34PlayerInfo::UpdateGamemodes { players } => varint::spec_encode(1) + varint::spec_encode(
                players@.len() as i32,
            ) + flat_map(players@, |p: C34UpdateGamemode| p.spec_bytes()),
            C34PlayerInfo::UpdateLatencies { players } => varint::spec_encode(2) + varint::spec_encode(
                players@.len() as i32,
            ) + flat_map(players@, |p: C34UpdateLatency| p.spec_bytes()),
            C34PlayerInfo::UpdateDisplayNames { players } => varint::spec_encode(3) + varint::spec_encode(
                players@.len() as i32,
            ) + flat_map(players@, |p: C34UpdateDisplayName| p.spec_bytes()),
            C34PlayerInfo::RemovePlayers { players } => varint::spec_encode(4) + varint::spec_encode(
                players@.len() as i32,
            ) + flat_map(players@, |p: C34RemovePlayer| p.spec_bytes()),
        }
    }
}

fn write_c34addplayers(encoder: &mut PacketEncoder, players: &Vec<C34AddPlayer>)
    ensures
        final(encoder)@ == old(encoder)@ + flat_map(players@, |p: C34AddPlayer| p.spec_bytes()),
{
    let ghost start = encoder@;
    let ghost f = |p: C34AddPlayer| p.spec_bytes();
    let mut i: usize = 0;
    while i < players.len()
        invariant
            i <= players.len(),
            encoder@ == start + flat_map(players@.take(i as int), f),
            f == (|p: C34AddPlayer| p.spec_bytes()),
        decreases players.len() - i,
    {
        proof {
            lemma_flat_map_step(players@, i as int, f);
        }
        players[i].encode(encoder);
        i = i + 1;
        proof {
            assert(encoder@ =~= start + flat_map(players@.take(i as int), f));
        }
    }
    proof {
        lemma_take_all(players@);
    }
}

fn write_c34updategamemodes(encoder: &mut PacketEncoder, players: &Vec<C34UpdateGamemode>)
    ensures
        final(encoder)@ == old(encoder)@ + flat_map(players@, |p: C34UpdateGamemode| p.spec_bytes()),
{
    let ghost start = encoder@;
    let ghost f = |p: C34UpdateGamemode| p.spec_bytes();
    let mut i: usize = 0;
    while i < players.len()
        invariant
            i <= players.len(),
            encoder@ == start + flat_map(players@.take(i as int), f),
            f == (|p: C34UpdateGamemode| p.spec_bytes()),
        decreases players.len() - i,
    {
        proof {
            lemma_flat_map_step(players@, i as int, f);
        }
        players[i].encode(encoder);
        i = i + 1;
        proof {
            assert(encoder@ =~= start + flat_map(players@.take(i as int), f));
        }
    }
    proof {
        lemma_take_all(players@);
    }
}

fn write_c34updatelatencys(encoder: &mut PacketEncoder, players: &Vec<C34UpdateLatency>)
    ensures
        final(encoder)@ == old(encoder)@ + flat_map(players@, |p: C34UpdateLatency| p.spec_bytes()),
{
    let ghost start = encoder@;
    let ghost f = |p: C34UpdateLatency| p.spec_bytes();
    let mut i: usize = 0;
    while i < players.len()
        invariant
            i <= players.len(),
            encoder@ == start + flat_map(players@.take(i as int), f),
            f == (|p: C34UpdateLatency| p.spec_bytes()),
        decreases players.len() - i,
    {
        proof {
            lemma_flat_map_step(players@, i as int, f);
        }
        players[i].encode(encoder);
        i = i + 1;
        proof {
            assert(encoder@ =~= start + flat_map(players@.take(i as int), f));
        }
    }
    proof {
        lemma_take_all(players@);
    }
}

fn write_c34updatedisplaynames(encoder: &mut PacketEncoder, players: &Vec<C34UpdateDisplayName>)
    ensures
        final(encoder)@ == old(encoder)@ + flat_map(players@, |p: C34UpdateDisplayName| p.spec_bytes()),
{
    let ghost start = encoder@;
    let ghost f = |p: C34UpdateDisplayName| p.spec_bytes();
    let mut i: usize = 0;
    while i < players.len()
        invariant
            i <= players.len(),
            encoder@ == start + flat_map(players@.take(i as int), f),
            f == (|p: C34UpdateDisplayName| p.spec_bytes()),
        decreases players.len() - i,
    {
        proof {
            lemma_flat_map_step(players@, i as int, f);
        }
        players[i].encode(encoder);
        i = i + 1;
        proof {
            assert(encoder@ =~= start + flat_map(players@.take(i as int), f));
        }
    }
    proof {
        lemma_take_all(players@);
    }
}

fn write_c34removeplayers(encoder: &mut PacketEncoder, players: &Vec<C34RemovePlayer>)
    ensures
        final(encoder)@ == old(encoder)@ + flat_map(players@, |p: C34RemovePlayer| p.spec_bytes()),
{
    let ghost start = encoder@;
    let ghost f = |p: C34RemovePlayer| p.spec_bytes();
    let mut i: usize = 0;
    while i < players.len()
        invariant
            i <= players.len(),
            encoder@ == start + flat_map(players@.take(i as int), f),
            f == (|p: C34RemovePlayer| p.spec_bytes()),
        decreases players.len() - i,
    {
        proof {
            lemma_flat_map_step(players@, i as int, f);
        }
        players[i].encode(encoder);
        i = i + 1;
        proof {
            assert(encoder@ =~= start + flat_map(players@.take(i as int), f));
        }
    }
    proof {
        lemma_take_all(players@);
    }
}

impl ClientBoundPacket for C34PlayerInfo {
    open spec fn spec_packet_id() -> i32 {
        0x34
    }

    open spec fn encoded_as(&self, bytes: Seq<u8>) -> bool {
        bytes == self.spec_bytes()
    }

    fn packet_id() -> (id: i32) {
        0x34
    }

    fn encode(&self, encoder: &mut PacketEncoder) {
        let ghost start = encoder@;
        match self {
            C34PlayerInfo::AddPlayers { players } => {
                encoder.write_varint(0);
                encoder.write_varint(players.len() as i32);
                write_c34addplayers(encoder, players);
            },
            C34PlayerInfo::UpdateGamemodes { players } => {
                encoder.write_varint(1);
                encoder.write_varint(players.len() as i32);
                write_c34updategamemodes(encoder, players);
            },
            C34PlayerInfo::UpdateLatencies { players } => {
                encoder.write_varint(2);
                encoder.write_varint(players.len() as i32);
                write_c34updatelatencys(encoder, players);
            },
            C34PlayerInfo::UpdateDisplayNames { players } => {
                encoder.write_varint(3);
                encoder.write_varint(players.len() as i32);
                write_c34updatedisplaynames(encoder, players);
            },
            C34PlayerInfo::RemovePlayers { players } => {
                encoder.write_varint(4);
                encoder.write_varint(players.len() as i32);
                write_c34removeplayers(encoder, players);
            },
        }
        proof {
            assert(encoder@ =~= start + self.spec_bytes());
            assert(encoder@.skip(start.len() as int) =~= self.spec_bytes());
        }
    }
}

/// Slots one after the other, each encoded as `slot_encoded` says.
pub open spec fn slots_encoded(vs: Seq<SlotView>, bytes: Seq<u8>) -> bool
    decreases vs.len(),
{
    if vs.len() == 0 {
        bytes.len() == 0
    } else {
        exists|k: int|
            0 <= k <= bytes.len() && slots_encoded(vs.drop_last(), #[trigger] bytes.take(k))
                && slot_encoded(vs.last(), bytes.skip(k))
    }
}

pub open spec fn slot_views(v: Seq<Slot>) -> Seq<SlotView> {
    v.map_values(|s: Slot| s@)
}

/// Appends the slots, returning nothing; their bytes are as `slots_encoded`
/// says.
fn write_slots(encoder: &mut PacketEncoder, slots: &Vec<Slot>)
    ensures
        old(encoder)@.len() <= final(encoder)@.len(),
        final(encoder)@.take(old(encoder)@.len() as int) == old(encoder)@,
        slots_encoded(slot_views(slots@), final(encoder)@.skip(old(encoder)@.len() as int)),
{
    let ghost start = encoder@;
    let mut i: usize = 0;
    assert(slot_views(slots@).take(0) =~= Seq::<SlotView>::empty());
    assert(encoder@.skip(start.len() as int) =~= Seq::<u8>::empty());
    while i < slots.len()
        invariant
            i <= slots.len(),
            start.len() <= encoder@.len(),
            encoder@.take(start.len() as int) == start,
            slots_encoded(slot_views(slots@).take(i as int), encoder@.skip(start.len() as int)),
        decreases slots.len() - i,
    {
        let ghost before = encoder@;
        let bytes = slots[i].encode();
        encoder.write_bytes(bytes.as_slice());
        proof {
            let b = encoder@.skip(start.len() as int);
            let k = before.len() - start.len();
            let vs = slot_views(slots@).take(i + 1);
            assert(vs.drop_last() =~= slot_views(slots@).take(i as int));
            assert(b.take(k) =~= before.skip(start.len() as int));
            assert(b.skip(k) =~= bytes@);
            assert(vs.last() == slots@[i as int]@);
            assert(slots_encoded(vs, b));
            assert(encoder@.take(start.len() as int) =~= start);
        }
        i = i + 1;
    }
    proof {
        assert(slot_views(slots@).take(slots@.len() as int) =~= slot_views(slots@));
    }
}

/// The contents of a window.
#[derive(Clone, Debug)]
pub struct C11SetContainerContent {
    /// 0 for the player's inventory.
    pub window_id: u8,
    pub state_id: i32,
    pub slots: Vec<Slot>,
    /// The item on the cursor.
    pub carried_item: Slot,
}

impl C11SetContainerContent {
    /// The bytes in front of the slots.
    pub open spec fn spec_head(&self) -> Seq<u8> {
        be_bytes(self.window_id as nat, 1) + varint::spec_encode(self.state_id) + varint::spec_encode(
            self.slots@.len() as i32,
        )
    }
}

impl ClientBoundPacket for C11SetContainerContent {
    open spec fn spec_packet_id() -> i32 {
        0x11
    }

    /// The head, the slots, then the carried item.
    open spec fn encoded_as(&self, bytes: Seq<u8>) -> bool {
        let h = self.spec_head().len() as int;
        exists|k: int|
            h <= k <= bytes.len() && bytes.take(h) == self.spec_head() && slots_encoded(
                slot_views(self.slots@),
                #[trigger] bytes.subrange(h, k),
            ) && slot_encoded(self.carried_item@, bytes.skip(k))
    }

    fn packet_id() -> (id: i32) {
        0x11
    }

    fn encode(&self, encoder: &mut PacketEncoder) {
        let ghost start = encoder@;
        encoder.write_u8(self.window_id);
        encoder.write_varint(self.state_id);
        encoder.write_varint(self.slots.len() as i32);
        let ghost head = encoder@;
        write_slots(encoder, &self.slots);
        let ghost mid = encoder@;
        let carried = self.carried_item.encode();
        encoder.write_bytes(carried.as_slice());
        proof {
            let b = encoder@.skip(start.len() as int);
            let h = self.spec_head().len() as int;
            let k = mid.len() - start.len();
            assert(head =~= start + self.spec_head());
            assert(encoder@.take(mid.len() as int) =~= mid);
            lemma_prefix_trans(encoder@, mid, head);
            lemma_prefix_window(encoder@, head, start.len() as int, head.len() as int);
            assert(head.subrange(start.len() as int, head.len() as int) =~= self.spec_head());
            assert(b.take(h) =~= encoder@.subrange(start.len() as int, head.len() as int));
            assert(head.take(start.len() as int) =~= start);
            lemma_prefix_trans(encoder@, head, start);
            assert(b.subrange(h, k) =~= mid.skip(head.len() as int));
            assert(b.skip(k) =~= carried@);
        }
    }
}

/// One slot of a window.
#[derive(Clone, Debug)]
pub struct C13SetContainerSlot {
    /// 0 for the player's inventory.
    pub window_id: u8,
    pub state_id: i32,
    /// The slot's number.
    pub slot: i16,
    pub slot_data: Slot,
}

impl C13SetContainerSlot {
    pub open spec fn spec_head(&self) -> Seq<u8> {
        be_bytes(self.window_id as nat, 1) + varint::spec_encode(self.state_id) + be_bytes(
            (self.slot as u16) as nat,
            2,
        )
    }
}

impl ClientBoundPacket for C13SetContainerSlot {
    open spec fn spec_packet_id() -> i32 {
        0x13
    }

    open spec fn encoded_as(&self, bytes: Seq<u8>) -> bool {
        let h = self.spec_head().len() as int;
        h <= bytes.len() && bytes.take(h) == self.spec_head() && slot_encoded(self.slot_data@, bytes.skip(h))
    }

    fn packet_id() -> (id: i32) {
        0x13
    }

    fn encode(&self, encoder: &mut PacketEncoder) {
        let ghost start = encoder@;
        encoder.write_u8(self.window_id);
        encoder.write_varint(self.state_id);
        encoder.write_i16(self.slot);
        let data = self.slot_data.encode();
        encoder.write_bytes(data.as_slice());
        proof {
            let b = encoder@.skip(start.len() as int);
            let h = self.spec_head().len() as int;
            assert(b.take(h) =~= self.spec_head());
            assert(b.skip(h) =~= data@);
            assert(encoder@.take(start.len() as int) =~= start);
        }
    }
}

/// A place on an entity where equipment goes.
#[derive(Clone, Copy, Debug, PartialEq, Eq, Structural)]
pub enum C47EntityEquipmentSlot {
    MainHand,
    OffHand,
    Feet,
    Legs,
    Chest,
    Head,
}

impl C47EntityEquipmentSlot {
    /// 0 to 5 in the order of the variants.
    pub open spec fn spec_number(self) -> u8 {
        match self {
            C47EntityEquipmentSlot::MainHand => 0,
            C47EntityEquipmentSlot::OffHand => 1,
            C47EntityEquipmentSlot::Feet => 2,
            C47EntityEquipmentSlot::Legs => 3,
            C47EntityEquipmentSlot::Chest => 4,
            C47EntityEquipmentSlot::Head => 5,
        }
    }

    pub fn number(self) -> (n: u8)
        ensures
            n == self.spec_number(),
    {
        match self {
            C47EntityEquipmentSlot::MainHand => 0,
            C47EntityEquipmentSlot::OffHand => 1,
            C47EntityEquipmentSlot::Feet => 2,
            C47EntityEquipmentSlot::Legs => 3,
            C47EntityEquipmentSlot::Chest => 4,
            C47EntityEquipmentSlot::Head => 5,
        }
    }
}

/// The byte in front of an equipment entry: the place, with the top bit set
/// on every entry but the last.
pub open spec fn equipment_byte(place: C47EntityEquipmentSlot, last: bool) -> u8 {
    (place.spec_number() + if last { 0u8 } else { 0x80u8 }) as u8
}

/// Entries of equipment, each its byte and then the slot.
pub open spec fn equipment_encoded(e: Seq<(C47EntityEquipmentSlot, SlotView)>, total: nat, bytes: Seq<u8>) -> bool
    decreases e.len(),
{
    if e.len() == 0 {
        bytes.len() == 0
    } else {
        exists|k: int|
            0 <= k < bytes.len() && equipment_encoded(e.drop_last(), total, #[trigger] bytes.take(k))
                && bytes[k] == equipment_byte(e.last().0, e.len() == total) && slot_encoded(
                e.last().1,
                bytes.skip(k + 1),
            )
    }
}

pub open spec fn equipment_views(v: Seq<(C47EntityEquipmentSlot, Slot)>) -> Seq<(C47EntityEquipmentSlot, SlotView)> {
    v.map_values(|e: (C47EntityEquipmentSlot, Slot)| (e.0, e.1@))
}

/// Changes some of an entity's equipment.
#[derive(Clone, Debug)]
pub struct C50EntityEquipment {
    pub entity_id: i32,
    pub equipment: Vec<(C47EntityEquipmentSlot, Slot)>,
}

impl ClientBoundPacket for C50EntityEquipment {
    open spec fn spec_packet_id() -> i32 {
        0x50
    }

    open spec fn encoded_as(&self, bytes: Seq<u8>) -> bool {
        let h = varint::spec_encode(self.entity_id).len() as int;
        &&& h <= bytes.len()
        &&& bytes.take(h) == varint::spec_encode(self.entity_id)
        &&& equipment_encoded(
            equipment_views(self.equipment@),
            self.equipment@.len(),
            bytes.skip(h),
        )
    }

    fn packet_id() -> (id: i32) {
        0x50
    }

    fn encode(&self, encoder: &mut PacketEncoder) {
        let ghost start = encoder@;
        encoder.write_varint(self.entity_id);
        let ghost head = encoder@;
        let n = self.equipment.len();
        let ghost all = equipment_views(self.equipment@);
        let mut i: usize = 0;
        assert(all.take(0) =~= Seq::<(C47EntityEquipmentSlot, SlotView)>::empty());
        assert(encoder@.skip(head.len() as int) =~= Seq::<u8>::empty());
        while i < n
            invariant
                n == self.equipment@.len(),
                all == equipment_views(self.equipment@),
                i <= n,
                head.len() <= encoder@.len(),
                encoder@.take(head.len() as int) == head,
                equipment_encoded(all.take(i as int), n as nat, encoder@.skip(head.len() as int)),
            decreases n - i,
        {
            let ghost before = encoder@;
            let place = self.equipment[i].0.number();
            let flag: u8 = if i == n - 1 { 0 } else { 0x80 };
            let byte = place | flag;
            assert(byte == place + flag) by (bit_vector)
                requires
                    byte == place | flag,
                    place < 6,
                    flag == 0 || flag == 0x80,
            ;
            encoder.write_u8(byte);
            let bytes = self.equipment[i].1.encode();
            encoder.write_bytes(bytes.as_slice());
            proof {
                lemma_be_bytes_one(byte as nat);
                let b = encoder@.skip(head.len() as int);
                let k = before.len() - head.len();
                let es = all.take(i + 1);
                assert(es.drop_last() =~= all.take(i as int));
                assert(b.take(k) =~= before.skip(head.len() as int));
                assert(b[k] == byte);
                assert(b.skip(k + 1) =~= bytes@);
                assert(equipment_encoded(es, n as nat, b));
                assert(encoder@.take(head.len() as int) =~= head);
            }
            i = i + 1;
        }
        proof {
            assert(all.take(n as int) =~= all);
            assert(head =~= start + varint::spec_encode(self.entity_id));
            lemma_prefix_window(encoder@, head, start.len() as int, head.len() as int);
            assert(head.subrange(start.len() as int, head.len() as int) =~= varint::spec_encode(
                self.entity_id,
            ));
            assert(encoder@.skip(start.len() as int).take(head.len() - start.len()) =~= encoder@.subrange(
                start.len() as int,
                head.len() as int,
            ));
            assert(encoder@.skip(start.len() as int).skip(head.len() - start.len()) =~= encoder@.skip(
                head.len() as int,
            ));
            assert(encoder@.take(start.len() as int) =~= start);
        }
    }
}

/// Byte strings one after the other.
pub open spec fn concat_bytes(s: Seq<Seq<u8>>) -> Seq<u8>
    decreases s.len(),
{
    if s.len() == 0 {
        Seq::empty()
    } else {
        concat_bytes(s.drop_last()) + s.last()
    }
}

/// `order` numbers the nodes reached from `root` in `graph`, the root first,
/// and `encs` holds each one's encoding with references resolved to numbers.
pub open spec fn graph_encoding(graph: &CommandGraph, root: usize, order: Seq<usize>, encs: Seq<Seq<u8>>) -> bool {
    &&& distinct(order)
    &&& order.len() == encs.len()
    &&& order.len() >= 1
    &&& order[0] == root
    &&& forall|i: int| 0 <= i < order.len() ==> #[trigger] order[i] < graph.spec_nodes().len()
    &&& forall|i: int|
        0 <= i < order.len() ==> refs_in(graph.spec_nodes()[#[trigger] order[i] as int], order) && encs[i]
            == node_bytes(graph.spec_nodes()[order[i] as int], order)
}

/// The commands of the server: a graph, and the id of its root.
pub struct C0FCommands {
    graph: CommandGraph,
    root_node: usize,
}

impl C0FCommands {
    #[verifier::type_invariant]
    spec fn inv(self) -> bool {
        self.root_node < self.graph.spec_nodes().len()
    }

    pub closed spec fn spec_graph(&self) -> &CommandGraph {
        &self.graph
    }

    pub closed spec fn spec_root(&self) -> usize {
        self.root_node
    }

    /// The packet for `graph` with `root_node` as its root; `None` where the
    /// graph has no such node.
    pub fn new(graph: CommandGraph, root_node: usize) -> (c: Option<Self>)
        ensures
            root_node < graph.spec_nodes().len() <==> c is Some,
            c matches Some(c) ==> c.spec_graph() == graph && c.spec_root() == root_node,
    {
        if root_node < graph.nodes_len() {
            Some(C0FCommands { graph, root_node })
        } else {
            None
        }
    }
}

impl ClientBoundPacket for C0FCommands {
    open spec fn spec_packet_id() -> i32 {
        0x0F
    }

    /// The number of nodes, the nodes in the order they were numbered (the
    /// root first), then the root's number, 0.
    open spec fn encoded_as(&self, bytes: Seq<u8>) -> bool {
        exists|order: Seq<usize>, encs: Seq<Seq<u8>>|
            #[trigger] graph_encoding(self.spec_graph(), self.spec_root(), order, encs) && bytes
                == varint::spec_encode(order.len() as i32) + concat_bytes(encs) + varint::spec_encode(0)
    }

    fn packet_id() -> (id: i32) {
        0x0F
    }

    fn encode(&self, encoder: &mut PacketEncoder) {
        proof {
            use_type_invariant(self);
        }
        let ghost start = encoder@;
        let mut graph_encoder = GraphEncoder::new();
        let ghost fresh = graph_encoder;
        let root_index = graph_encoder.add_node(&self.graph, self.root_node);
        let ghost order = graph_encoder.spec_order();
        let ghost encs = graph_encoder.spec_encoded();
        let nodes = graph_encoder.encode();
        proof {
            assert(nodes@.map_values(|e: Vec<u8>| e@) == encs);
            assert(order.len() >= 1);
            assert(order[root_index as int] == self.root_node);
            assert(root_index == 0);
            assert forall|i: int| 0 <= i < order.len() implies refs_in(
                self.graph.spec_nodes()[#[trigger] order[i] as int],
                order,
            ) && encs[i] == node_bytes(self.graph.spec_nodes()[order[i] as int], order) by {
                assert(graph_encoder.complete(&self.graph, i));
            }
            assert(graph_encoding(&self.graph, self.root_node, order, encs));
            assert(graph_encoding(self.spec_graph(), self.spec_root(), order, encs));
            assert(nodes@.len() == order.len());
        }
        encoder.write_varint(nodes.len() as i32);
        let ghost head = encoder@;
        let mut i: usize = 0;
        while i < nodes.len()
            invariant
                i <= nodes.len(),
                nodes@.map_values(|e: Vec<u8>| e@) == encs,
                encoder@ == head + concat_bytes(encs.take(i as int)),
            decreases nodes.len() - i,
        {
            proof {
                assert(encs.take(i + 1).drop_last() =~= encs.take(i as int));
                assert(encs[i as int] == nodes@[i as int]@);
            }
            encoder.write_bytes(nodes[i].as_slice());
            i = i + 1;
            proof {
                assert(encoder@ =~= head + concat_bytes(encs.take(i as int)));
            }
        }
        encoder.write_varint(root_index);
        proof {
            assert(encs.take(encs.len() as int) =~= encs);
            let b = encoder@.skip(start.len() as int);
            assert(b =~= varint::spec_encode(order.len() as i32) + concat_bytes(encs) + varint::spec_encode(0));
            assert(encoder@.take(start.len() as int) =~= start);
        }
    }
}

/// Metadata entries one after the other, each its key and then its value.
pub open spec fn metadata_encoded(entries: Seq<(u8, MetadataValue)>, bytes: Seq<u8>) -> bool
    decreases entries.len(),
{
    if entries.len() == 0 {
        bytes.len() == 0
    } else {
        exists|k: int|
            0 <= k < bytes.len() && metadata_encoded(entries.drop_last(), #[trigger] bytes.take(k))
                && bytes[k] == entries.last().0 && entries.last().1.encoded_as(bytes.skip(k + 1))
    }
}

/// Updates some metadata of an entity. The entries are written in the order
/// of the vector.
#[derive(Clone, Debug)]
pub struct C4DSetEntityMetadata {
    pub entity_id: i32,
    pub metadata: Vec<(u8, MetadataValue)>,
}

impl ClientBoundPacket for C4DSetEntityMetadata {
    open spec fn spec_packet_id() -> i32 {
        0x4D
    }

    /// The entity, the entries, then 0xFF.
    open spec fn encoded_as(&self, bytes: Seq<u8>) -> bool {
        let h = varint::spec_encode(self.entity_id).len() as int;
        &&& h + 1 <= bytes.len()
        &&& bytes.take(h) == varint::spec_encode(self.entity_id)
        &&& metadata_encoded(self.metadata@, bytes.subrange(h, bytes.len() - 1))
        &&& bytes.last() == 0xFF
    }

    fn packet_id() -> (id: i32) {
        0x4D
    }

    fn encode(&self, encoder: &mut PacketEncoder) {
        let ghost start = encoder@;
        encoder.write_varint(self.entity_id);
        let ghost head = encoder@;
        let mut i: usize = 0;
        assert(self.metadata@.take(0) =~= Seq::<(u8, MetadataValue)>::empty());
        assert(encoder@.skip(head.len() as int) =~= Seq::<u8>::empty());
        while i < self.metadata.len()
            invariant
                i <= self.metadata.len(),
                head.len() <= encoder@.len(),
                encoder@.take(head.len() as int) == head,
                metadata_encoded(self.metadata@.take(i as int), encoder@.skip(head.len() as int)),
            decreases self.metadata.len() - i,
        {
            let ghost before = encoder@;
            let key = self.metadata[i].0;
            encoder.write_u8(key);
            let bytes = self.metadata[i].1.encode();
            encoder.write_bytes(bytes.as_slice());
            proof {
                lemma_be_bytes_one(key as nat);
                let b = encoder@.skip(head.len() as int);
                let k = before.len() - head.len();
                let es = self.metadata@.take(i + 1);
                assert(es.drop_last() =~= self.metadata@.take(i as int));
                assert(b.take(k) =~= before.skip(head.len() as int));
                assert(b[k] == key);
                assert(b.skip(k + 1) =~= bytes@);
                assert(metadata_encoded(es, b));
                assert(encoder@.take(head.len() as int) =~= head);
            }
            i = i + 1;
        }
        let ghost body = encoder@;
        encoder.write_u8(0xFF);
        proof {
            lemma_be_bytes_one(0xFF);
            assert(self.metadata@.take(self.metadata@.len() as int) =~= self.metadata@);
            assert(head =~= start + varint::spec_encode(self.entity_id));
            let b = encoder@.skip(start.len() as int);
            let h = varint::spec_encode(self.entity_id).len() as int;
            assert(encoder@.take(body.len() as int) =~= body);
            lemma_prefix_trans(encoder@, body, head);
            lemma_prefix_window(encoder@, head, start.len() as int, head.len() as int);
            assert(head.subrange(start.len() as int, head.len() as int) =~= varint::spec_encode(self.entity_id));
            assert(b.take(h) =~= encoder@.subrange(start.len() as int, head.len() as int));
            assert(b.subrange(h, b.len() - 1) =~= body.skip(head.len() as int));
            assert(head.take(start.len() as int) =~= start);
            lemma_prefix_trans(encoder@, head, start);
        }
    }
}

/// The bytes of a bit set: its length in longs, then the longs.
pub open spec fn bitset_bytes(b: BitSet) -> Seq<u8> {
    varint::spec_encode(b.longs@.len() as i32) + flat_map(b.longs@, |v: u64| be_bytes(v as nat, 8))
}

fn write_bitset(encoder: &mut PacketEncoder, b: &BitSet)
    ensures
        final(encoder)@ == old(encoder)@ + bitset_bytes(*b),
{
    let ghost start = encoder@;
    encoder.write_varint(b.longs.len() as i32);
    let ghost head = encoder@;
    let ghost f = |v: u64| be_bytes(v as nat, 8);
    let mut i: usize = 0;
    while i < b.longs.len()
        invariant
            i <= b.longs.len(),
            encoder@ == head + flat_map(b.longs@.take(i as int), f),
            f == (|v: u64| be_bytes(v as nat, 8)),
        decreases b.longs.len() - i,
    {
        proof {
            lemma_flat_map_step(b.longs@, i as int, f);
        }
        encoder.write_u64(b.longs[i]);
        i = i + 1;
        proof {
            assert(encoder@ =~= head + flat_map(b.longs@.take(i as int), f));
        }
    }
    proof {
        lemma_take_all(b.longs@);
        assert(encoder@ =~= start + bitset_bytes(*b));
    }
}

/// Light arrays: their number, then each one's bytes.
pub open spec fn light_bytes(arrays: Seq<Vec<u8>>) -> Seq<u8> {
    varint::spec_encode(arrays.len() as i32) + flat_map(arrays, |a: Vec<u8>| a@)
}

fn write_light(encoder: &mut PacketEncoder, arrays: &Vec<Vec<u8>>)
    ensures
        final(encoder)@ == old(encoder)@ + light_bytes(arrays@),
{
    let ghost start = encoder@;
    encoder.write_varint(arrays.len() as i32);
    let ghost head = encoder@;
    let ghost f = |a: Vec<u8>| a@;
    let mut i: usize = 0;
    while i < arrays.len()
        invariant
            i <= arrays.len(),
            encoder@ == head + flat_map(arrays@.take(i as int), f),
            f == (|a: Vec<u8>| a@),
        decreases arrays.len() - i,
    {
        proof {
            lemma_flat_map_step(arrays@, i as int, f);
        }
        encoder.write_bytes(arrays[i].as_slice());
        i = i + 1;
        proof {
            assert(encoder@ =~= head + flat_map(arrays@.take(i as int), f));
        }
    }
    proof {
        lemma_take_all(arrays@);
        assert(encoder@ =~= start + light_bytes(arrays@));
    }
}

/// A chunk column with its light.
#[derive(Clone, Debug)]
pub struct C1FChunkDataAndUpdateLight {
    pub chunk_x: i32,
    pub chunk_z: i32,
    /// The height maps, as NBT.
    pub heightmaps: nbt::Blob,
    /// The sections, bottom to top.
    pub chunk_sections: Vec<C1FSection>,
    pub trust_edges: bool,
    pub sky_light_mask: BitSet,
    pub block_light_mask: BitSet,
    pub empty_sky_light_mask: BitSet,
    pub empty_block_light_mask: BitSet,
    /// One array of 2048 bytes per bit set in the sky light mask.
    pub sky_light_array: Vec<Vec<u8>>,
    /// One array of 2048 bytes per bit set in the block light mask.
    pub block_light_array: Vec<Vec<u8>>,
}

impl C1FChunkDataAndUpdateLight {
    /// Everything after the height maps: the sections with their total
    /// length, no block entities, the flag, the four masks and the two lists
    /// of light arrays.
    pub open spec fn spec_tail(&self) -> Seq<u8> {
        let sections = flat_map(self.chunk_sections@, |c: C1FSection| c.spec_bytes());
        varint::spec_encode(sections.len() as i32) + sections + varint::spec_encode(0) + be_bytes(
            if self.trust_edges {
                1
            } else {
                0
            },
            1,
        ) + bitset_bytes(self.sky_light_mask) + bitset_bytes(self.block_light_mask) + bitset_bytes(
            self.empty_sky_light_mask,
        ) + bitset_bytes(self.empty_block_light_mask) + light_bytes(self.sky_light_array@) + light_bytes(
            self.block_light_array@,
        )
    }
}

impl ClientBoundPacket for C1FChunkDataAndUpdateLight {
    open spec fn spec_packet_id() -> i32 {
        0x1F
    }

    /// The coordinates, the height maps as an unnamed NBT compound (its
    /// entries in the order of the blob's hash map, not stated), then the
    /// tail.
    open spec fn encoded_as(&self, bytes: Seq<u8>) -> bool {
        exists|h: Seq<u8>|
            #![trigger unnamed_compound_shape(h)]
            unnamed_compound_shape(h) && bytes == be_bytes((self.chunk_x as u32) as nat, 4) + be_bytes(
                (self.chunk_z as u32) as nat,
                4,
            ) + h + self.spec_tail()
    }

    fn packet_id() -> (id: i32) {
        0x1F
    }

    fn encode(&self, encoder: &mut PacketEncoder) {
        let ghost start = encoder@;
        encoder.write_i32(self.chunk_x);
        encoder.write_i32(self.chunk_z);
        let ghost coords = encoder@;
        let heightmaps = blob_bytes(&self.heightmaps);
        encoder.write_bytes(heightmaps.as_slice());
        let ghost mid = encoder@;
        self.encode_tail(encoder);
        proof {
            assert(encoder@ =~= mid + self.spec_tail());
            assert(mid =~= coords + heightmaps@);
            assert(coords =~= start + be_bytes((self.chunk_x as u32) as nat, 4) + be_bytes(
                (self.chunk_z as u32) as nat,
                4,
            ));
            let b = encoder@.skip(start.len() as int);
            assert(b =~= be_bytes((self.chunk_x as u32) as nat, 4) + be_bytes((self.chunk_z as u32) as nat, 4)
                + heightmaps@ + self.spec_tail());
            assert(unnamed_compound_shape(heightmaps@));
            assert(encoder@.take(start.len() as int) =~= start);
        }
    }
}

impl C1FChunkDataAndUpdateLight {
    fn encode_sections(&self) -> (bytes: Vec<u8>)
        ensures
            bytes@ == flat_map(self.chunk_sections@, |c: C1FSection| c.spec_bytes()),
    {
        let mut sections = PacketEncoder::new();
        let ghost f = |c: C1FSection| c.spec_bytes();
        let mut i: usize = 0;
        while i < self.chunk_sections.len()
            invariant
                i <= self.chunk_sections.len(),
                sections@ == flat_map(self.chunk_sections@.take(i as int), f),
                f == (|c: C1FSection| c.spec_bytes()),
            decreases self.chunk_sections.len() - i,
        {
            proof {
                lemma_flat_map_step(self.chunk_sections@, i as int, f);
            }
            self.chunk_sections[i].encode(&mut sections);
            i = i + 1;
        }
        proof {
            lemma_take_all(self.chunk_sections@);
        }
        sections.consume()
    }

    fn encode_tail(&self, encoder: &mut PacketEncoder)
        ensures
            final(encoder)@ == old(encoder)@ + self.spec_tail(),
    {
        let ghost start = encoder@;
        let chunk_data = self.encode_sections();
        encoder.write_varint(chunk_data.len() as i32);
        encoder.write_bytes(chunk_data.as_slice());
        encoder.write_varint(0);
        encoder.write_bool(self.trust_edges);
        write_bitset(encoder, &self.sky_light_mask);
        write_bitset(encoder, &self.block_light_mask);
        write_bitset(encoder, &self.empty_sky_light_mask);
        write_bitset(encoder, &self.empty_block_light_mask);
        write_light(encoder, &self.sky_light_array);
        write_light(encoder, &self.block_light_array);
        proof {
            assert(encoder@ =~= start + self.spec_tail());
        }
    }
}

/// A dimension type of the registry; floats are given by their bits.
#[derive(Clone, Debug)]
pub struct C23DimensionElement {
    pub piglin_safe: i8,
    pub has_raids: i8,
    pub monster_spawn_light_level: i32,
    pub monster_spawn_block_light_limit: i32,
    pub natural: i8,
    pub ambient_light: u32,
    pub fixed_time: Option<i64>,
    pub infiniburn: String,
    pub respawn_anchor_works: i8,
    pub has_skylight: i8,
    pub bed_works: i8,
    pub effects: String,
    pub min_y: i32,
    pub height: i32,
    pub logical_height: i32,
    pub coordinate_scale: u64,
    pub ultrawarm: i8,
    pub shrunk: i8,
}

/// A biome of the registry; floats are given by their bits.
#[derive(Clone, Debug)]
pub struct C23BiomeElement {
    pub precipitation: String,
    pub depth: u32,
    pub temperature: u32,
    pub scale: u32,
    pub downfall: u32,
    pub category: String,
    pub temperature_modifier: Option<String>,
    pub effects: C23BiomeEffects,
}

/// The colors, sounds and particles of a biome.
#[derive(Clone, Debug)]
pub struct C23BiomeEffects {
    pub sky_color: i32,
    pub water_fog_color: i32,
    pub fog_color: i32,
    pub water_color: i32,
    pub folliage_color: Option<i32>,
    pub grass_color: Option<i32>,
    pub grass_color_modifier: Option<String>,
    pub music: Option<C23BiomeMusic>,
    pub ambient_sound: Option<String>,
    pub additions_sound: Option<C23BiomeAdditionsSound>,
    pub mood_sound: Option<C23BiomeMoodSound>,
    pub particle: Option<C23BiomeParticle>,
}

/// The music of a biome.
#[derive(Clone, Debug)]
pub struct C23BiomeMusic {
    pub replace_current_music: i8,
    pub sound: String,
    pub max_delay: i32,
    pub min_delay: i32,
}

/// A sound played at random in a biome; the chance is the bits of an `f64`.
#[derive(Clone, Debug)]
pub struct C23BiomeAdditionsSound {
    pub sound: String,
    pub tick_chance: u64,
}

/// A sound played at intervals in a biome; the offset is the bits of an `f32`.
#[derive(Clone, Debug)]
pub struct C23BiomeMoodSound {
    pub sound: String,
    pub tick_delay: i32,
    pub offset: u32,
    pub block_search_extent: i32,
}

/// Particles of a biome; the probability is the bits of an `f32`.
#[derive(Clone, Debug)]
pub struct C23BiomeParticle {
    pub probability: u32,
    pub options: C23BiomeParticleOptions,
}

/// The kind of a biome's particle.
#[derive(Clone, Debug)]
pub struct C23BiomeParticleOptions {
    pub kind: String,
}

/// The registries sent at login. Their NBT form is an empty compound: the
/// entries are not written.
#[derive(Clone, Debug)]
pub struct C23RegistryCodec {
    pub dimension_types: Vec<(Identifier, C23DimensionElement)>,
    pub biomes: Vec<(Identifier, C23BiomeElement)>,
}

impl C23RegistryCodec {
    pub open spec fn spec_bytes(&self) -> Seq<u8> {
        crate::data_types::slot::empty_blob_bytes()
    }

    pub fn encode(&self, encoder: &mut PacketEncoder)
        ensures
            final(encoder)@ == old(encoder)@ + self.spec_bytes(),
    {
        let bytes = empty_compound_nbt();
        encoder.write_bytes(bytes.as_slice());
    }
}

/// The identifiers, each as a string.
pub open spec fn identifiers_bytes(ids: Seq<Identifier>) -> Seq<u8> {
    flat_map(ids, |i: Identifier| string::spec_encode(i@))
}

/// Where a player died: the dimension and the position.
pub open spec fn death_bytes(d: Option<(Identifier, Position)>) -> Seq<u8> {
    match d {
        Some(p) => be_bytes(1, 1) + string::spec_encode(p.0@) + be_bytes(p.1.spec_encode() as nat, 8),
        None => be_bytes(0, 1),
    }
}

/// Joins the player to the game.
#[derive(Clone, Debug)]
pub struct C23Login {
    pub entity_id: i32,
    pub is_hardcore: bool,
    /// 0: survival, 1: creative, 2: adventure, 3: spectator.
    pub gamemode: i8,
    /// -1 when there is none.
    pub previous_gamemode: i8,
    pub dimension_names: Vec<Identifier>,
    pub registry_codec: C23RegistryCodec,
    pub dimension_type: Identifier,
    pub dimension_name: Identifier,
    /// The first 8 bytes of the SHA-256 hash of the seed.
    pub hashed_seed: u64,
    pub max_players: i32,
    pub view_distance: i32,
    pub simulation_distance: i32,
    pub reduced_debug_info: bool,
    pub enable_respawn_screen: bool,
    pub is_debug: bool,
    pub is_flat: bool,
    pub death_location: Option<(Identifier, Position)>,
}

fn write_death(encoder: &mut PacketEncoder, d: &Option<(Identifier, Position)>)
    ensures
        final(encoder)@ == old(encoder)@ + death_bytes(*d),
{
    let ghost start = encoder@;
    match d {
        Some(p) => {
            encoder.write_bool(true);
            encoder.write_string(p.0.as_str());
            encoder.write_u64(p.1.encode());
        },
        None => {
            encoder.write_bool(false);
        },
    }
    proof {
        assert(encoder@ =~= start + death_bytes(*d));
    }
}

impl C23Login {
    /// The fields before the dimension names, with their count.
    pub open spec fn spec_head(&self) -> Seq<u8> {
        be_bytes((self.entity_id as u32) as nat, 4) + be_bytes(if self.is_hardcore { 1 } else { 0 }, 1)
            + be_bytes((self.gamemode as u8) as nat, 1) + be_bytes((self.previous_gamemode as u8) as nat, 1)
            + varint::spec_encode(self.dimension_names@.len() as i32)
    }

    /// The fields after the registries.
    pub open spec fn spec_tail(&self) -> Seq<u8> {
        string::spec_encode(self.dimension_type@) + string::spec_encode(self.dimension_name@) + be_bytes(
            self.hashed_seed as nat,
            8,
        ) + varint::spec_encode(self.max_players) + varint::spec_encode(self.view_distance)
            + varint::spec_encode(self.simulation_distance) + be_bytes(
            if self.reduced_debug_info {
                1
            } else {
                0
            },
            1,
        ) + be_bytes(if self.enable_respawn_screen { 1 } else { 0 }, 1) + be_bytes(
            if self.is_debug {
                1
            } else {
                0
            },
            1,
        ) + be_bytes(if self.is_flat { 1 } else { 0 }, 1) + death_bytes(self.death_location)
    }

    pub open spec fn spec_bytes(&self) -> Seq<u8> {
        self.spec_head() + identifiers_bytes(self.dimension_names@) + self.registry_codec.spec_bytes()
            + self.spec_tail()
    }

    fn encode_head(&self, encoder: &mut PacketEncoder)
        ensures
            final(encoder)@ == old(encoder)@ + self.spec_head(),
    {
        let ghost start = encoder@;
        encoder.write_i32(self.entity_id);
        encoder.write_bool(self.is_hardcore);
        encoder.write_i8(self.gamemode);
        encoder.write_i8(self.previous_gamemode);
        encoder.write_varint(self.dimension_names.len() as i32);
        proof {
            assert(encoder@ =~= start + self.spec_head());
        }
    }

    fn encode_names(&self, encoder: &mut PacketEncoder)
        ensures
            final(encoder)@ == old(encoder)@ + identifiers_bytes(self.dimension_names@),
    {
        let ghost head = encoder@;
        let ghost f = |i: Identifier| string::spec_encode(i@);
        let mut i: usize = 0;
        while i < self.dimension_names.len()
            invariant
                i <= self.dimension_names.len(),
                encoder@ == head + flat_map(self.dimension_names@.take(i as int), f),
                f == (|i: Identifier| string::spec_encode(i@)),
            decreases self.dimension_names.len() - i,
        {
            proof {
                lemma_flat_map_step(self.dimension_names@, i as int, f);
            }
            encoder.write_string(self.dimension_names[i].as_str());
            i = i + 1;
            proof {
                assert(encoder@ =~= head + flat_map(self.dimension_names@.take(i as int), f));
            }
        }
        proof {
            lemma_take_all(self.dimension_names@);
        }
    }

    #[verifier::rlimit(40)]
    fn encode_tail(&self, encoder: &mut PacketEncoder)
        ensures
            final(encoder)@ == old(encoder)@ + self.spec_tail(),
    {
        let ghost start = encoder@;
        encoder.write_string(self.dimension_type.as_str());
        encoder.write_string(self.dimension_name.as_str());
        encoder.write_u64(self.hashed_seed);
        encoder.write_varint(self.max_players);
        encoder.write_varint(self.view_distance);
        encoder.write_varint(self.simulation_distance);
        encoder.write_bool(self.reduced_debug_info);
        encoder.write_bool(self.enable_respawn_screen);
        encoder.write_bool(self.is_debug);
        encoder.write_bool(self.is_flat);
        write_death(encoder, &self.death_location);
        proof {
            assert(encoder@ =~= start + self.spec_tail());
        }
    }
}

impl ClientBoundPacket for C23Login {
    open spec fn spec_packet_id() -> i32 {
        0x23
    }

    open spec fn encoded_as(&self, bytes: Seq<u8>) -> bool {
        bytes == self.spec_bytes()
    }

    fn packet_id() -> (id: i32) {
        0x23
    }

    fn encode(&self, encoder: &mut PacketEncoder) {
        let ghost start = encoder@;
        self.encode_head(encoder);
        self.encode_names(encoder);
        self.registry_codec.encode(encoder);
        self.encode_tail(encoder);
        proof {
            assert(encoder@ =~= start + self.spec_bytes());
            assert(encoder@.skip(start.len() as int) =~= self.spec_bytes());
        }
    }
}

} // verus!
