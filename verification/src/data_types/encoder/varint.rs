//! 32-bit variable-length integers (VarInt).
use super::var_num::{lemma_pow128_mono, lemma_var_bytes_len, pow128, var_bytes, write_var};
use super::{outcome_is, read_varint_at, PacketDecoder, Parsed};
use crate::{DecodingError, DecodingResult};
use vstd::prelude::*;

verus! {

/// A VarInt never takes more than this many bytes.
pub const MAX_BYTE_SIZE: usize = 5;

/// The encoding of `v`: its two's-complement bits, seven at a time.
pub open spec fn spec_encode(v: i32) -> Seq<u8> {
    var_bytes((v as u32) as nat)
}

/// Appends the encoding of `val` to `bytes` and returns its length.
pub fn encode_into(val: i32, bytes: &mut Vec<u8>) -> (written: usize)
    ensures
        final(bytes)@ == old(bytes)@ + spec_encode(val),
        written == spec_encode(val).len(),
        1 <= written <= MAX_BYTE_SIZE,
{
    proof {
        lemma_pow128_mono(5, 5);
        assert(pow128(5) == 0x800000000) by {
            reveal_with_fuel(pow128, 6);
        }
        lemma_var_bytes_len((val as u32) as nat, 5);
    }
    write_var((val as u32) as u64, bytes)
}

/// The encoding of `value`.
pub fn encode(value: i32) -> (bytes: Vec<u8>)
    ensures
        bytes@ == spec_encode(value),
        1 <= bytes@.len() <= MAX_BYTE_SIZE,
{
    let mut bytes = Vec::new();
    encode_into(value, &mut bytes);
    bytes
}

/// Reads a VarInt from `stream`.
pub fn decode_sync(stream: &mut PacketDecoder) -> (r: DecodingResult<i32>)
    ensures
        final(stream).bytes() == old(stream).bytes(),
        outcome_is(r, final(stream).pos(), read_varint_at(old(stream).bytes(), old(stream).pos())),
{
    stream.read_varint()
}

/// Reads a VarInt from the front of `buffer`, removing the bytes it reads
/// (also when the read fails).
pub fn decode_buf(buffer: &mut Vec<u8>) -> (r: DecodingResult<i32>)
    ensures
        ({
            let p = read_varint_at(old(buffer)@, 0);
            &&& p matches Parsed::Value { value, pos } ==> r == Ok::<i32, DecodingError>(value)
                && final(buffer)@ == old(buffer)@.skip(pos as int)
            &&& p matches Parsed::Failed { error, pos } ==> r matches Err(e) && e@ == error
                && final(buffer)@ == old(buffer)@.skip(pos as int)
            &&& !(p is Panic)
        }),
{
    let mut stream = PacketDecoder::from_bytes(buffer.clone());
    let r = stream.read_varint();
    let used = buffer.len() - stream.remaining();
    let rest = buffer.split_off(used);
    *buffer = rest;
    r
}

} // verus!
