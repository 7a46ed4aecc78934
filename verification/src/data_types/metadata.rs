//! Entity metadata values and their encoding.
use super::encoder::fixed::{be_bytes, lemma_be_bytes_one};
use super::encoder::string::read_string_at;
use super::encoder::{
    outcome_is, parsed_then, read_or_panic, read_u32_at, read_u8_at, read_varint_at, string, varint, PacketDecoder, PacketEncoder,
    Parsed,
};
use crate::{DecodingError, DecodingErrorView, DecodingResult};
use super::slot::{slot_encoded, SlotView};
use super::{Particle, Pose, Position, Slot};
use super::encoder::fixed::{lemma_be_bytes_len, lemma_pow256_values};
use super::encoder::roundtrip::{fixed_roundtrip, string_roundtrip, u8_roundtrip, varint_roundtrip};
use vstd::prelude::*;
use vstd::utf8::encode_utf8;

verus! {

/// One metadata value of an entity. Floats are given by their bits, chat
/// components by their JSON text, UUIDs by their 128-bit value and NBT values
/// by their payload as NBT writes it.
#[derive(Clone, Debug)]
pub enum MetadataValue {
    Byte(u8),
    VarInt(i32),
    Float(u32),
    String(String),
    Chat(String),
    OptChat(Option<String>),
    Slot(Slot),
    Boolean(bool),
    Rotation(u32, u32, u32),
    Position(Position),
    Direction(i32),
    OptUUID(Option<u128>),
    OptPosition(Option<Position>),
    OptBlockID(Option<i32>),
    NBT(Vec<u8>),
    Particle(Particle),
    OptVarInt(Option<i32>),
    Pose(Pose),
    VillagerData { kind: i32, profession: i32, level: i32 },
}

/// A flag byte, then the text where there is one.
pub open spec fn opt_text_bytes(o: Option<String>) -> Seq<u8> {
    match o {
        Some(t) => be_bytes(1, 1) + string::spec_encode(t@),
        None => be_bytes(0, 1),
    }
}

impl MetadataValue {
    /// The type number written in front of the value.
    pub open spec fn spec_type(&self) -> u8 {
        match self {
            MetadataValue::Byte(_) => 0,
            MetadataValue::VarInt(_) => 1,
            MetadataValue::Float(_) => 2,
            MetadataValue::String(_) => 3,
            MetadataValue::Chat(_) => 4,
            MetadataValue::OptChat(_) => 5,
            MetadataValue::Slot(_) => 6,
            MetadataValue::Boolean(_) => 7,
            MetadataValue::Rotation(..) => 8,
            MetadataValue::Position(_) => 9,
            MetadataValue::OptPosition(_) => 10,
            MetadataValue::Direction(_) => 11,
            MetadataValue::OptUUID(_) => 12,
            MetadataValue::OptBlockID(_) => 13,
            MetadataValue::NBT(_) => 14,
            MetadataValue::Particle(_) => 15,
            MetadataValue::VillagerData { .. } => 16,
            MetadataValue::OptVarInt(_) => 17,
            MetadataValue::Pose(_) => 18,
        }
    }

    /// The value's bytes after the type number, for every kind but a slot.
    /// The villager data is written kind, level, profession.
    pub open spec fn spec_payload(&self) -> Seq<u8> {
        match self {
            MetadataValue::Byte(b) => be_bytes(*b as nat, 1),
            MetadataValue::VarInt(v) => varint::spec_encode(*v),
            MetadataValue::Float(bits) => be_bytes(*bits as nat, 4),
            MetadataValue::String(t) => string::spec_encode(t@),
            MetadataValue::Chat(t) => string::spec_encode(t@),
            MetadataValue::OptChat(o) => opt_text_bytes(*o),
            MetadataValue::Slot(_) => Seq::empty(),
            MetadataValue::Boolean(b) => be_bytes(if *b { 1 } else { 0 }, 1),
            MetadataValue::Rotation(x, y, z) => be_bytes(*x as nat, 4) + be_bytes(*y as nat, 4) + be_bytes(
                *z as nat,
                4,
            ),
            MetadataValue::Position(p) => be_bytes(p.spec_encode() as nat, 8),
            MetadataValue::OptPosition(o) => match o {
                Some(p) => be_bytes(1, 1) + be_bytes(p.spec_encode() as nat, 8),
                None => be_bytes(0, 1),
            },
            MetadataValue::Direction(d) => be_bytes((*d as u32) as nat, 4),
            MetadataValue::OptUUID(o) => match o {
                Some(u) => be_bytes(1, 1) + be_bytes(*u as nat, 16),
                None => be_bytes(0, 1),
            },
            MetadataValue::OptBlockID(o) => match o {
                Some(id) => be_bytes(1, 1) + varint::spec_encode(*id),
                None => be_bytes(0, 1),
            },
            MetadataValue::NBT(payload) => payload@,
            MetadataValue::Particle(p) => p.spec_encode(),
            MetadataValue::VillagerData { kind, profession, level } => varint::spec_encode(*kind)
                + varint::spec_encode(*level) + varint::spec_encode(*profession),
            MetadataValue::OptVarInt(o) => match o {
                Some(v) => be_bytes(1, 1) + varint::spec_encode(*v),
                None => be_bytes(0, 1),
            },
            MetadataValue::Pose(p) => varint::spec_encode(p.spec_number() as i32),
        }
    }

    /// Whether `bytes` encode the value: its type number, then its payload,
    /// or for a slot the slot's encoding.
    pub open spec fn encoded_as(&self, bytes: Seq<u8>) -> bool {
        &&& bytes.len() >= 1
        &&& bytes[0] == self.spec_type()
        &&& match self {
            MetadataValue::Slot(s) => slot_encoded(s@, bytes.skip(1)),
            _ => bytes.skip(1) == self.spec_payload(),
        }
    }

    pub fn encode(&self) -> (bytes: Vec<u8>)
        ensures
            self.encoded_as(bytes@),
    {
        let mut data = PacketEncoder::new();
        let ghost start = data@;
        match self {
            MetadataValue::Byte(b) => {
                data.write_u8(0);
                data.write_u8(*b);
                proof {
                    assert(data@ =~= be_bytes(self.spec_type() as nat, 1) + self.spec_payload());
                    lemma_be_bytes_one(self.spec_type() as nat);
                    assert(data@.skip(1) =~= self.spec_payload());
                }
            },
            MetadataValue::VarInt(v) => {
                data.write_u8(1);
                data.write_varint(*v);
                proof {
                    assert(data@ =~= be_bytes(self.spec_type() as nat, 1) + self.spec_payload());
                    lemma_be_bytes_one(self.spec_type() as nat);
                    assert(data@.skip(1) =~= self.spec_payload());
                }
            },
            MetadataValue::Float(bits) => {
                data.write_u8(2);
                data.write_f32_bits(*bits);
                proof {
                    assert(data@ =~= be_bytes(self.spec_type() as nat, 1) + self.spec_payload());
                    lemma_be_bytes_one(self.spec_type() as nat);
                    assert(data@.skip(1) =~= self.spec_payload());
                }
            },
            MetadataValue::String(t) => {
                data.write_u8(3);
                data.write_string(t.as_str());
                proof {
                    assert(data@ =~= be_bytes(self.spec_type() as nat, 1) + self.spec_payload());
                    lemma_be_bytes_one(self.spec_type() as nat);
                    assert(data@.skip(1) =~= self.spec_payload());
                }
            },
            MetadataValue::Chat(t) => {
                data.write_u8(4);
                data.write_string(t.as_str());
                proof {
                    assert(data@ =~= be_bytes(self.spec_type() as nat, 1) + self.spec_payload());
                    lemma_be_bytes_one(self.spec_type() as nat);
                    assert(data@.skip(1) =~= self.spec_payload());
                }
            },
            MetadataValue::OptChat(o) => {
                data.write_u8(5);
                match o {
                    Some(t) => {
                        data.write_bool(true);
                        data.write_string(t.as_str());
                    },
                    None => {
                        data.write_bool(false);
                    },
                }
                proof {
                    assert(data@ =~= be_bytes(self.spec_type() as nat, 1) + self.spec_payload());
                    lemma_be_bytes_one(self.spec_type() as nat);
                    assert(data@.skip(1) =~= self.spec_payload());
                }
            },
            MetadataValue::Slot(s) => {
                data.write_u8(6);
                let bytes = s.encode();
                data.write_bytes(bytes.as_slice());
                proof {
                    assert(data@ =~= be_bytes(6, 1) + bytes@);
                    lemma_be_bytes_one(6);
                    assert(data@.skip(1) =~= bytes@);
                    assert(slot_encoded(s@, data@.skip(1)));
                }
            },
            MetadataValue::Boolean(b) => {
                data.write_u8(7);
                data.write_u8(if *b { 1 } else { 0 });
                proof {
                    assert(data@ =~= be_bytes(self.spec_type() as nat, 1) + self.spec_payload());
                    lemma_be_bytes_one(self.spec_type() as nat);
                    assert(data@.skip(1) =~= self.spec_payload());
                }
            },
            MetadataValue::Rotation(x, y, z) => {
                data.write_u8(8);
                data.write_f32_bits(*x);
                data.write_f32_bits(*y);
                data.write_f32_bits(*z);
                proof {
                    assert(data@ =~= be_bytes(self.spec_type() as nat, 1) + self.spec_payload());
                    lemma_be_bytes_one(self.spec_type() as nat);
                    assert(data@.skip(1) =~= self.spec_payload());
                }
            },
            MetadataValue::Position(p) => {
                data.write_u8(9);
                data.write_u64(p.encode());
                proof {
                    assert(data@ =~= be_bytes(self.spec_type() as nat, 1) + self.spec_payload());
                    lemma_be_bytes_one(self.spec_type() as nat);
                    assert(data@.skip(1) =~= self.spec_payload());
                }
            },
            MetadataValue::OptPosition(o) => {
                data.write_u8(10);
                match o {
                    Some(p) => {
                        data.write_bool(true);
                        data.write_u64(p.encode());
                    },
                    None => {
                        data.write_bool(false);
                    },
                }
                proof {
                    assert(data@ =~= be_bytes(self.spec_type() as nat, 1) + self.spec_payload());
                    lemma_be_bytes_one(self.spec_type() as nat);
                    assert(data@.skip(1) =~= self.spec_payload());
                }
            },
            MetadataValue::Direction(d) => {
                data.write_u8(11);
                data.write_i32(*d);
                proof {
                    assert(data@ =~= be_bytes(self.spec_type() as nat, 1) + self.spec_payload());
                    lemma_be_bytes_one(self.spec_type() as nat);
                    assert(data@.skip(1) =~= self.spec_payload());
                }
            },
            MetadataValue::OptUUID(o) => {
                data.write_u8(12);
                match o {
                    Some(u) => {
                        data.write_u8(1);
                        data.write_uuid(*u);
                    },
                    None => {
                        data.write_u8(0);
                    },
                }
                proof {
                    assert(data@ =~= be_bytes(self.spec_type() as nat, 1) + self.spec_payload());
                    lemma_be_bytes_one(self.spec_type() as nat);
                    assert(data@.skip(1) =~= self.spec_payload());
                }
            },
            MetadataValue::OptBlockID(o) => {
                data.write_u8(13);
                match o {
                    Some(id) => {
                        data.write_u8(1);
                        data.write_varint(*id);
                    },
                    None => {
                        data.write_u8(0);
                    },
                }
                proof {
                    assert(data@ =~= be_bytes(self.spec_type() as nat, 1) + self.spec_payload());
                    lemma_be_bytes_one(self.spec_type() as nat);
                    assert(data@.skip(1) =~= self.spec_payload());
                }
            },
            MetadataValue::NBT(payload) => {
                data.write_u8(14);
                data.write_bytes(payload.as_slice());
                proof {
                    assert(data@ =~= be_bytes(self.spec_type() as nat, 1) + self.spec_payload());
                    lemma_be_bytes_one(self.spec_type() as nat);
                    assert(data@.skip(1) =~= self.spec_payload());
                }
            },
            MetadataValue::Particle(p) => {
                data.write_u8(15);
                let bytes = p.encode();
                data.write_bytes(bytes.as_slice());
                proof {
                    assert(data@ =~= be_bytes(self.spec_type() as nat, 1) + self.spec_payload());
                    lemma_be_bytes_one(self.spec_type() as nat);
                    assert(data@.skip(1) =~= self.spec_payload());
                }
            },
            MetadataValue::VillagerData { kind, profession, level } => {
                data.write_u8(16);
                data.write_varint(*kind);
                data.write_varint(*level);
                data.write_varint(*profession);
                proof {
                    assert(data@ =~= be_bytes(self.spec_type() as nat, 1) + self.spec_payload());
                    lemma_be_bytes_one(self.spec_type() as nat);
                    assert(data@.skip(1) =~= self.spec_payload());
                }
            },
            MetadataValue::OptVarInt(o) => {
                data.write_u8(17);
                match o {
                    Some(v) => {
                        data.write_bool(true);
                        data.write_varint(*v);
                    },
                    None => {
                        data.write_bool(false);
                    },
                }
                proof {
                    assert(data@ =~= be_bytes(self.spec_type() as nat, 1) + self.spec_payload());
                    lemma_be_bytes_one(self.spec_type() as nat);
                    assert(data@.skip(1) =~= self.spec_payload());
                }
            },
            MetadataValue::Pose(p) => {
                data.write_u8(18);
                data.write_varint(p.encode() as i32);
                proof {
                    assert(data@ =~= be_bytes(self.spec_type() as nat, 1) + self.spec_payload());
                    lemma_be_bytes_one(self.spec_type() as nat);
                    assert(data@.skip(1) =~= self.spec_payload());
                }
            },
        }
        let bytes = data.consume();
        proof {
            lemma_be_bytes_one(self.spec_type() as nat);
            assert(bytes@[0] == self.spec_type());
            if let MetadataValue::Slot(_) = self {
            } else {
                assert(bytes@.skip(1) =~= self.spec_payload());
            }
        }
        bytes
    }
}

/// What reading a metadata value gives: its type as a VarInt, then the value
/// for the types 0 (byte), 1 (VarInt), 2 (float), 3 (string) and 7 (boolean,
/// true when the byte is 1). The other known types, 4 to 18, are not
/// implemented: reading them panics; any other type is an error.
pub open spec fn read_metadata_at(s: Seq<u8>, pos: nat) -> Parsed<MetadataView> {
    parsed_then(read_varint_at(s, pos), |kind: i32, p: nat|
    if kind == 0 {
        parsed_then(read_u8_at(s, p), |b: u8, p: nat| Parsed::Value { value: MetadataView::Byte(b), pos: p })
    } else if kind == 1 {
        parsed_then(read_varint_at(s, p), |v: i32, p: nat| Parsed::Value { value: MetadataView::VarInt(v), pos: p })
    } else if kind == 2 {
        parsed_then(read_u32_at(s, p), |v: u32, p: nat| Parsed::Value { value: MetadataView::Float(v), pos: p })
    } else if kind == 3 {
        parsed_then(read_string_at(s, p), |t: Seq<char>, p: nat| Parsed::Value { value: MetadataView::String(t), pos: p })
    } else if kind == 7 {
        parsed_then(read_u8_at(s, p), |b: u8, p: nat| Parsed::Value { value: MetadataView::Boolean(b == 1), pos: p })
    } else if 0 <= kind <= 18 {
        Parsed::Panic
    } else {
        Parsed::Failed {
            error: DecodingErrorView::ParseError { data_type: "metadata value"@, message: "invalid type"@ },
            pos: p,
        }
    })
}

/// A decoded metadata value of one of the types that can be read.
pub enum MetadataView {
    Byte(u8),
    VarInt(i32),
    Float(u32),
    String(Seq<char>),
    Boolean(bool),
    Other,
}

impl View for MetadataValue {
    type V = MetadataView;

    open spec fn view(&self) -> MetadataView {
        match self {
            MetadataValue::Byte(b) => MetadataView::Byte(*b),
            MetadataValue::VarInt(v) => MetadataView::VarInt(*v),
            MetadataValue::Float(v) => MetadataView::Float(*v),
            MetadataValue::String(t) => MetadataView::String(t@),
            MetadataValue::Boolean(b) => MetadataView::Boolean(*b),
            _ => MetadataView::Other,
        }
    }
}

impl MetadataValue {
    /// Reads a metadata value from `stream`.
    pub fn decode_sync(stream: &mut PacketDecoder) -> (r: DecodingResult<MetadataValue>)
        ensures
            read_or_panic(r, *old(stream), *final(stream), read_metadata_at(old(stream).bytes(), old(stream).pos())),
    {
        let kind = match stream.read_varint() {
            Ok(v) => v,
            Err(e) => return Err(e),
        };
        if kind == 0 {
            match stream.read_u8() {
                Ok(b) => Ok(MetadataValue::Byte(b)),
                Err(e) => Err(e),
            }
        } else if kind == 1 {
            match stream.read_varint() {
                Ok(v) => Ok(MetadataValue::VarInt(v)),
                Err(e) => Err(e),
            }
        } else if kind == 2 {
            match stream.read_f32_bits() {
                Ok(v) => Ok(MetadataValue::Float(v)),
                Err(e) => Err(e),
            }
        } else if kind == 3 {
            match stream.read_string() {
                Ok(t) => Ok(MetadataValue::String(t)),
                Err(e) => Err(e),
            }
        } else if kind == 7 {
            match stream.read_u8() {
                Ok(b) => Ok(MetadataValue::Boolean(b == 1)),
                Err(e) => Err(e),
            }
        } else if 0 <= kind && kind <= 18 {
            stream.mark_panicked();
            Err(DecodingError::NotEnoughBytes)
        } else {
            Err(DecodingError::parse_error("metadata value", "invalid type"))
        }
    }
}

/// A value of a type that can be read comes back from its encoding.
pub proof fn metadata_roundtrip(m: MetadataValue, bytes: Seq<u8>, before: Seq<u8>, after: Seq<u8>)
    requires
        m.encoded_as(bytes),
        !(m@ is Other),
        m matches MetadataValue::String(t) ==> encode_utf8(t@).len() <= i32::MAX,
    ensures
        read_metadata_at(before + bytes + after, before.len()) == (Parsed::Value {
            value: m@,
            pos: before.len() + bytes.len(),
        }),
{
    let t = m.spec_type();
    let payload = bytes.skip(1);
    assert(bytes =~= seq![t] + payload);
    let tail = payload + after;
    assert(varint::spec_encode(t as i32) == seq![t]) by {
        assert((t as i32 as u32) as nat == t as nat);
    }
    varint_roundtrip(t as i32, before, tail);
    assert(before + bytes + after =~= before + varint::spec_encode(t as i32) + tail);
    let p = before.len() + 1;
    let s = before + bytes + after;
    assert(s =~= (before + seq![t]) + payload + after);
    match m {
        MetadataValue::Byte(b) => {
            u8_roundtrip(b, before + seq![t], after);
            lemma_be_bytes_len(b as nat, 1);
        },
        MetadataValue::VarInt(v) => {
            varint_roundtrip(v, before + seq![t], after);
        },
        MetadataValue::Float(bits) => {
            lemma_pow256_values();
            fixed_roundtrip(bits as nat, 4, before + seq![t], after);
            lemma_be_bytes_len(bits as nat, 4);
        },
        MetadataValue::String(text) => {
            string_roundtrip(text@, before + seq![t], after);
        },
        MetadataValue::Boolean(b) => {
            lemma_pow256_values();
            fixed_roundtrip(if b { 1 } else { 0 }, 1, before + seq![t], after);
            lemma_be_bytes_len(if b { 1 } else { 0 }, 1);
        },
        _ => {},
    }
}

} // verus!
