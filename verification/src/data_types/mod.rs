//! The protocol's data types.
pub mod bitbuffer;
pub mod bitset;
pub mod command_data;
pub mod encoder;
pub mod identifier;
pub mod metadata;
pub mod nbt_scan;
pub mod slot;

pub use identifier::Identifier;
pub use metadata::MetadataValue;
pub use slot::Slot;

use crate::{DecodingError, DecodingResult};
use encoder::{outcome_is, read_varint_at, varint, PacketDecoder, Parsed};
use vstd::prelude::*;

verus! {

/// A block position: 26 bits of x, 26 bits of z and 12 bits of y.
#[derive(Clone, Copy, Debug, PartialEq, Eq, Hash, Structural)]
pub struct Position {
    pub x: i32,
    pub y: i32,
    pub z: i32,
}

/// The low `26` bits of `v`, as an unsigned number.
pub open spec fn low26(v: i32) -> int {
    ((v as u64) % 0x400_0000) as int
}

/// A 26-bit two's-complement field read as a signed number.
pub open spec fn signed26(f: int) -> int {
    if f < 0x200_0000 { f } else { f - 0x400_0000 }
}

impl Position {
    /// The packed form: x in the top 26 bits, z in the next 26, y in the low 12.
    pub open spec fn spec_encode(self) -> u64 {
        (low26(self.x) * 0x40_0000_0000 + low26(self.z) * 0x1000 + (self.y as u64) % 0x1000) as u64
    }

    /// The position that a packed value stands for (the value read as signed).
    pub open spec fn spec_decode(bits: i64) -> Position {
        Position {
            x: (bits / 0x40_0000_0000) as i32,
            y: (bits % 0x1000) as i32,
            z: signed26((bits / 0x1000) % 0x400_0000) as i32,
        }
    }

    pub fn encode(&self) -> (r: u64)
        ensures
            r == self.spec_encode(),
    {
        let x = self.x;
        let y = self.y;
        let z = self.z;
        let r = ((x as u64 & 0x3FFFFFF) << 38) | ((z as u64 & 0x3FFFFFF) << 12) | (y as u64 & 0xFFF);
        assert(r == ((x as u64) % 0x400_0000) * 0x40_0000_0000 + ((z as u64) % 0x400_0000) * 0x1000
            + (y as u64) % 0x1000) by (bit_vector)
            requires
                r == ((x as u64 & 0x3FFFFFF) << 38) | ((z as u64 & 0x3FFFFFF) << 12) | (y as u64 & 0xFFF),
        ;
        r
    }

    pub fn decode(bits: i64) -> (p: Position)
        ensures
            p == Position::spec_decode(bits),
    {
        let x = bits >> 38;
        let y = bits & 0xFFF;
        let z = (bits << 26) >> 38;
        assert(x == bits / 0x40_0000_0000) by (bit_vector)
            requires x == bits >> 38;
        assert(y == bits % 0x1000) by (bit_vector)
            requires y == bits & 0xFFF;
        assert(z == if (bits / 0x1000) % 0x400_0000 < 0x200_0000 {
            (bits / 0x1000) % 0x400_0000
        } else {
            (bits / 0x1000) % 0x400_0000 - 0x400_0000
        }) by (bit_vector)
            requires z == (bits << 26) >> 38;
        Position { x: x as i32, y: y as i32, z: z as i32 }
    }
}

/// A particle: its id and one number of data.
#[derive(Clone, Copy, Debug, PartialEq, Eq, Hash, Structural)]
pub struct Particle {
    pub id: i32,
    pub data: i32,
}

impl View for Particle {
    type V = Particle;

    open spec fn view(&self) -> Particle {
        *self
    }
}

/// Two VarInts: the id, then the data.
pub open spec fn read_particle_at(s: Seq<u8>, pos: nat) -> Parsed<Particle> {
    match read_varint_at(s, pos) {
        Parsed::Value { value: id, pos: p } => match read_varint_at(s, p) {
            Parsed::Value { value: data, pos: q } => Parsed::Value { value: Particle { id, data }, pos: q },
            Parsed::Failed { error, pos } => Parsed::Failed { error, pos },
            Parsed::Panic => Parsed::Panic,
        },
        Parsed::Failed { error, pos } => Parsed::Failed { error, pos },
        Parsed::Panic => Parsed::Panic,
    }
}

impl Particle {
    pub open spec fn spec_encode(self) -> Seq<u8> {
        varint::spec_encode(self.id) + varint::spec_encode(self.data)
    }

    pub fn encode(&self) -> (bytes: Vec<u8>)
        ensures
            bytes@ == self.spec_encode(),
    {
        let mut data = encoder::PacketEncoder::new();
        data.write_varint(self.id);
        data.write_varint(self.data);
        data.consume()
    }

    pub fn decode_sync(stream: &mut PacketDecoder) -> (r: DecodingResult<Particle>)
        ensures
            final(stream).bytes() == old(stream).bytes(),
            outcome_is(r, final(stream).pos(), read_particle_at(old(stream).bytes(), old(stream).pos())),
    {
        let id = match stream.read_varint() {
            Ok(v) => v,
            Err(e) => return Err(e),
        };
        let data = match stream.read_varint() {
            Ok(v) => v,
            Err(e) => return Err(e),
        };
        Ok(Particle { id, data })
    }

    /// Reads a particle from the front of `buffer`.
    pub fn decode(buffer: &[u8]) -> (r: DecodingResult<Particle>)
        ensures
            read_particle_at(buffer@, 0) matches Parsed::Value { value, .. } ==> r == Ok::<
                Particle,
                DecodingError,
            >(value),
            read_particle_at(buffer@, 0) matches Parsed::Failed { error, .. } ==> r matches Err(e)
                && e@ == error,
    {
        let mut stream = PacketDecoder::from_bytes(vstd::slice::slice_to_vec(buffer));
        Particle::decode_sync(&mut stream)
    }
}

/// An entity's pose.
#[derive(Clone, Copy, Debug, PartialEq, Eq, Structural)]
pub enum Pose {
    Standing,
    FallFlying,
    Sleeping,
    Swimming,
    SpinAttack,
    Sneaking,
    Dying,
}

impl Pose {
    /// The pose's number on the wire, 0 to 6 in the order of the variants.
    pub open spec fn spec_number(self) -> u8 {
        match self {
            Pose::Standing => 0,
            Pose::FallFlying => 1,
            Pose::Sleeping => 2,
            Pose::Swimming => 3,
            Pose::SpinAttack => 4,
            Pose::Sneaking => 5,
            Pose::Dying => 6,
        }
    }

    pub fn encode(&self) -> (n: u8)
        ensures
            n == self.spec_number(),
    {
        match self {
            Pose::Standing => 0,
            Pose::FallFlying => 1,
            Pose::Sleeping => 2,
            Pose::Swimming => 3,
            Pose::SpinAttack => 4,
            Pose::Sneaking => 5,
            Pose::Dying => 6,
        }
    }

    /// The pose numbered `data`; numbers beyond 6 are not poses.
    pub fn decode(data: u8) -> (p: Pose)
        requires
            data <= 6,
        ensures
            p.spec_number() == data,
    {
        match data {
            0 => Pose::Standing,
            1 => Pose::FallFlying,
            2 => Pose::Sleeping,
            3 => Pose::Swimming,
            4 => Pose::SpinAttack,
            5 => Pose::Sneaking,
            _ => Pose::Dying,
        }
    }
}

/// Every pose is decoded from its own number.
pub proof fn pose_roundtrip(p: Pose)
    ensures
        p.spec_number() <= 6,
        forall|q: Pose| q.spec_number() == p.spec_number() ==> q == p,
{
}

proof fn lemma_casts_agree(v: i32, w: i64)
    by (bit_vector)
    requires
        w == v as i64,
    ensures
        (v as u64) == (w as u64),
{
}

proof fn lemma_unpack_packed(x: i64, y: i64, z: i64, e: u64, b: i64)
    requires
        -0x200_0000 <= x < 0x200_0000,
        -0x200_0000 <= z < 0x200_0000,
        0 <= y < 0x1000,
        e == ((x as u64) % 0x400_0000) * 0x40_0000_0000 + ((z as u64) % 0x400_0000) * 0x1000
            + (y as u64) % 0x1000,
        b == e as i64,
    ensures
        b / 0x40_0000_0000 == x,
        b % 0x1000 == y,
        z == signed26((b / 0x1000) % 0x400_0000),
{
    assert(e == (((x as u64) & 0x3FFFFFF) << 38) | (((z as u64) & 0x3FFFFFF) << 12) | ((y as u64)
        & 0xFFF)) by (bit_vector)
        requires
            e == ((x as u64) % 0x400_0000) * 0x40_0000_0000 + ((z as u64) % 0x400_0000) * 0x1000
                + (y as u64) % 0x1000,
    ;
    assert(b / 0x40_0000_0000 == x) by (bit_vector)
        requires
            -0x200_0000 <= x < 0x200_0000,
            e == (((x as u64) & 0x3FFFFFF) << 38) | (((z as u64) & 0x3FFFFFF) << 12) | ((y as u64) & 0xFFF),
            b == e as i64,
    ;
    assert(y == b % 0x1000) by (bit_vector)
        requires
            0 <= y < 0x1000,
            e == (((x as u64) & 0x3FFFFFF) << 38) | (((z as u64) & 0x3FFFFFF) << 12) | ((y as u64) & 0xFFF),
            b == e as i64,
    ;
    assert(z == if (b / 0x1000) % 0x400_0000 < 0x200_0000 {
        (b / 0x1000) % 0x400_0000
    } else {
        (b / 0x1000) % 0x400_0000 - 0x400_0000
    }) by (bit_vector)
        requires
            -0x200_0000 <= z < 0x200_0000,
            e == (((x as u64) & 0x3FFFFFF) << 38) | (((z as u64) & 0x3FFFFFF) << 12) | ((y as u64) & 0xFFF),
            b == e as i64,
    ;
}

/// Packing a position and reading the packed value back gives the same
/// position, whenever x and z fit in 26 signed bits and y in 12 unsigned bits.
pub proof fn position_roundtrip(p: Position)
    requires
        -0x200_0000 <= p.x < 0x200_0000,
        -0x200_0000 <= p.z < 0x200_0000,
        0 <= p.y < 0x1000,
    ensures
        Position::spec_decode(p.spec_encode() as i64) == p,
{
    let (x, y, z) = (p.x as i64, p.y as i64, p.z as i64);
    lemma_casts_agree(p.x, x);
    lemma_casts_agree(p.y, y);
    lemma_casts_agree(p.z, z);
    let e = p.spec_encode();
    let sum = low26(p.x) * 0x40_0000_0000 + low26(p.z) * 0x1000 + (p.y as u64) % 0x1000;
    assert(0 <= sum < 0x1_0000_0000_0000_0000) by (nonlinear_arith)
        requires
            sum == low26(p.x) * 0x40_0000_0000 + low26(p.z) * 0x1000 + (p.y as u64) % 0x1000,
            0 <= low26(p.x) < 0x400_0000,
            0 <= low26(p.z) < 0x400_0000,
            0 <= (p.y as u64) % 0x1000 < 0x1000,
    ;
    assert(e == sum);
    lemma_unpack_packed(x, y, z, e, e as i64);
}

proof fn lemma_repack(bits: i64, x: i64, y: i64, z: i64)
    requires
        x == bits >> 38,
        y == bits & 0xFFF,
        z == (bits << 26) >> 38,
    ensures
        x == bits / 0x40_0000_0000,
        y == bits % 0x1000,
        z == signed26((bits / 0x1000) % 0x400_0000),
        -0x200_0000 <= x < 0x200_0000,
        -0x200_0000 <= z < 0x200_0000,
        0 <= y < 0x1000,
        ((x as u64) % 0x400_0000) * 0x40_0000_0000 + ((z as u64) % 0x400_0000) * 0x1000 + (y as u64)
            % 0x1000 == bits as u64,
{
    assert(x == bits / 0x40_0000_0000) by (bit_vector)
        requires
            x == bits >> 38,
    ;
    assert(y == bits % 0x1000) by (bit_vector)
        requires
            y == bits & 0xFFF,
    ;
    assert(z == if (bits / 0x1000) % 0x400_0000 < 0x200_0000 {
        (bits / 0x1000) % 0x400_0000
    } else {
        (bits / 0x1000) % 0x400_0000 - 0x400_0000
    }) by (bit_vector)
        requires
            z == (bits << 26) >> 38,
    ;
    assert(-0x200_0000 <= x < 0x200_0000 && -0x200_0000 <= z < 0x200_0000 && 0 <= y < 0x1000)
        by (bit_vector)
        requires
            x == bits >> 38,
            y == bits & 0xFFF,
            z == (bits << 26) >> 38,
    ;
    assert(((x as u64) % 0x400_0000) * 0x40_0000_0000 + ((z as u64) % 0x400_0000) * 0x1000 + (y
        as u64) % 0x1000 == bits as u64) by (bit_vector)
        requires
            x == bits >> 38,
            y == bits & 0xFFF,
            z == (bits << 26) >> 38,
    ;
}

/// Reading any 64-bit value as a position and packing it again gives the same
/// bits.
pub proof fn position_repack(bits: i64)
    ensures
        Position::spec_decode(bits).spec_encode() == bits as u64,
{
    let (x, y, z) = (bits >> 38, bits & 0xFFF, (bits << 26) >> 38);
    lemma_repack(bits, x, y, z);
    let p = Position::spec_decode(bits);
    assert(p.x == x && p.y == y && p.z == z);
    lemma_casts_agree(p.x, x);
    lemma_casts_agree(p.y, y);
    lemma_casts_agree(p.z, z);
}

} // verus!
