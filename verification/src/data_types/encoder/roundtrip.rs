//! What a read gives back of a write: each reader of `PacketDecoder`, at the
//! position where the bytes of the matching writer of `PacketEncoder` start,
//! returns the written value and stops right after them, whatever comes
//! before and after.
use super::fixed::{be_bytes, lemma_be_bytes_len, lemma_be_roundtrip, lemma_pow256_values, pow256};
use super::var_num::{lemma_var_bytes_len, lemma_var_roundtrip, pow128, var_bytes};
use super::{
    read_bool_at, read_fixed, read_i16_at, read_i32_at, read_i64_at, read_u128_at, read_u16_at,
    read_u8_at, read_varint_at, read_varlong_at, string, varint, varlong, Parsed,
};
use vstd::arithmetic::div_mod::lemma_small_mod;
use vstd::prelude::*;
use vstd::utf8::{encode_utf8, encode_utf8_decode_utf8, encode_utf8_valid_utf8};

verus! {

/// `k` bytes of `v` in network order read back as `v`, for `v` below `256^k`.
pub proof fn fixed_roundtrip(v: nat, k: nat, before: Seq<u8>, after: Seq<u8>)
    requires
        v < pow256(k),
    ensures
        read_fixed(before + be_bytes(v, k) + after, before.len(), k) == (Parsed::Value {
            value: v,
            pos: before.len() + k,
        }),
{
    lemma_be_bytes_len(v, k);
    lemma_be_roundtrip(v, k);
    lemma_small_mod(v, pow256(k));
    let s = before + be_bytes(v, k) + after;
    assert(s.subrange(before.len() as int, (before.len() + k) as int) =~= be_bytes(v, k));
}

/// A byte written with `write_u8` reads back with `read_u8`.
pub proof fn u8_roundtrip(v: u8, before: Seq<u8>, after: Seq<u8>)
    ensures
        read_u8_at(before + be_bytes(v as nat, 1) + after, before.len()) == (Parsed::Value {
            value: v,
            pos: before.len() + 1,
        }),
{
    lemma_pow256_values();
    fixed_roundtrip(v as nat, 1, before, after);
}

/// A boolean written with `write_bool` reads back with `read_bool`.
pub proof fn bool_roundtrip(v: bool, before: Seq<u8>, after: Seq<u8>)
    ensures
        read_bool_at(before + be_bytes(if v { 1 } else { 0 }, 1) + after, before.len()) == (
        Parsed::Value { value: v, pos: before.len() + 1 }),
{
    lemma_pow256_values();
    fixed_roundtrip(if v { 1 } else { 0 }, 1, before, after);
}

/// An `i16` written with `write_i16` reads back with `read_i16`.
pub proof fn i16_roundtrip(v: i16, before: Seq<u8>, after: Seq<u8>)
    ensures
        read_i16_at(before + be_bytes((v as u16) as nat, 2) + after, before.len()) == (
        Parsed::Value { value: v, pos: before.len() + 2 }),
{
    lemma_pow256_values();
    fixed_roundtrip((v as u16) as nat, 2, before, after);
    assert(((v as u16) as i16) == v) by (bit_vector);
}

/// A `u16` written with `write_u16` reads back with `read_u16`.
pub proof fn u16_roundtrip(v: u16, before: Seq<u8>, after: Seq<u8>)
    ensures
        read_u16_at(before + be_bytes(v as nat, 2) + after, before.len()) == (Parsed::Value {
            value: v,
            pos: before.len() + 2,
        }),
{
    lemma_pow256_values();
    fixed_roundtrip(v as nat, 2, before, after);
}

/// An `i32` written with `write_i32` reads back with `read_i32`.
pub proof fn i32_roundtrip(v: i32, before: Seq<u8>, after: Seq<u8>)
    ensures
        read_i32_at(before + be_bytes((v as u32) as nat, 4) + after, before.len()) == (
        Parsed::Value { value: v, pos: before.len() + 4 }),
{
    lemma_pow256_values();
    fixed_roundtrip((v as u32) as nat, 4, before, after);
    assert(((v as u32) as i32) == v) by (bit_vector);
}

/// An `i64` written with `write_i64` reads back with `read_i64`.
pub proof fn i64_roundtrip(v: i64, before: Seq<u8>, after: Seq<u8>)
    ensures
        read_i64_at(before + be_bytes((v as u64) as nat, 8) + after, before.len()) == (
        Parsed::Value { value: v, pos: before.len() + 8 }),
{
    lemma_pow256_values();
    fixed_roundtrip((v as u64) as nat, 8, before, after);
    assert(((v as u64) as i64) == v) by (bit_vector);
}

/// A UUID written with `write_uuid` reads back with `read_uuid`.
pub proof fn uuid_roundtrip(v: u128, before: Seq<u8>, after: Seq<u8>)
    ensures
        read_u128_at(before + be_bytes(v as nat, 16) + after, before.len()) == (Parsed::Value {
            value: v,
            pos: before.len() + 16,
        }),
{
    lemma_pow256_values();
    fixed_roundtrip(v as nat, 16, before, after);
}

/// A VarInt written with `write_varint` reads back with `read_varint`.
pub proof fn varint_roundtrip(v: i32, before: Seq<u8>, after: Seq<u8>)
    ensures
        read_varint_at(before + varint::spec_encode(v) + after, before.len()) == (Parsed::Value {
            value: v,
            pos: before.len() + varint::spec_encode(v).len(),
        }),
{
    let b = (v as u32) as nat;
    assert(pow128(5) == 0x800000000) by {
        reveal_with_fuel(pow128, 6);
    }
    lemma_var_bytes_len(b, 5);
    let s = before + var_bytes(b) + after;
    assert(s.skip(before.len() as int) =~= var_bytes(b) + after);
    lemma_var_roundtrip(b, after, 5);
    assert(((v as u32) as i32) == v) by (bit_vector);
}

/// A VarLong written with `write_varlong` reads back with `read_varlong`.
pub proof fn varlong_roundtrip(v: i64, before: Seq<u8>, after: Seq<u8>)
    ensures
        read_varlong_at(before + varlong::spec_encode(v) + after, before.len()) == (Parsed::Value {
            value: v,
            pos: before.len() + varlong::spec_encode(v).len(),
        }),
{
    let b = (v as u64) as nat;
    assert(pow128(10) == 0x400000000000000000) by {
        reveal_with_fuel(pow128, 11);
    }
    lemma_var_bytes_len(b, 10);
    let s = before + var_bytes(b) + after;
    assert(s.skip(before.len() as int) =~= var_bytes(b) + after);
    lemma_var_roundtrip(b, after, 10);
    assert(((v as u64) as i64) == v) by (bit_vector);
}

/// A string written with `write_string` reads back with `read_string`, as
/// long as its UTF-8 length fits in a VarInt.
pub proof fn string_roundtrip(text: Seq<char>, before: Seq<u8>, after: Seq<u8>)
    requires
        encode_utf8(text).len() <= i32::MAX,
    ensures
        string::read_string_at(before + string::spec_encode(text) + after, before.len()) == (
        Parsed::Value { value: text, pos: before.len() + string::spec_encode(text).len() }),
{
    let bytes = encode_utf8(text);
    let n = bytes.len() as i32;
    let head = varint::spec_encode(n);
    varint_roundtrip(n, before, bytes + after);
    let s = before + string::spec_encode(text) + after;
    assert(s =~= before + head + (bytes + after));
    let p = before.len() + head.len();
    assert(s.subrange(p as int, p + n) =~= bytes);
    encode_utf8_valid_utf8(text);
    encode_utf8_decode_utf8(text);
}

} // verus!
