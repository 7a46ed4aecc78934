//! 64-bit variable-length integers (VarLong).
use super::var_num::{lemma_pow128_mono, lemma_var_bytes_len, pow128, var_bytes, write_var};
use super::{outcome_is, read_varlong_at, PacketDecoder, Parsed};
use crate::{DecodingError, DecodingResult};
use vstd::prelude::*;

verus! {

/// A VarLong never takes more than this many bytes.
pub const MAX_BYTE_SIZE: usize = 10;

/// The encoding of `v`: its two's-complement bits, seven at a time.
pub open spec fn spec_encode(v: i64) -> Seq<u8> {
    var_bytes((v as u64) as nat)
}

/// Appends the encoding of `val` to `bytes` and returns its length.
pub fn encode_into(val: i64, bytes: &mut Vec<u8>) -> (written: usize)
    ensures
        final(bytes)@ == old(bytes)@ + spec_encode(val),
        written == spec_encode(val).len(),
        1 <= written <= MAX_BYTE_SIZE,
{
    proof {
        
        assert(pow128(10) == 0x400000000000000000) by {
            reveal_with_fuel(pow128, 11);
        }
        lemma_var_bytes_len((val as u64) as nat, 10);
    }
    write_var(val as u64, bytes)
}

/// The encoding of `value`.
pub fn encode(value: i64) -> (bytes: Vec<u8>)
    ensures
        bytes@ == spec_encode(value),
        1 <= bytes@.len() <= MAX_BYTE_SIZE,
{
    let mut bytes = Vec::new();
    encode_into(value, &mut bytes);
    bytes
}

/// Reads a VarLong from `stream`.
pub fn decode_sync(stream: &mut PacketDecoder) -> (r: DecodingResult<i64>)
    ensures
        final(stream).bytes() == old(stream).bytes(),
        outcome_is(r, final(stream).pos(), read_varlong_at(old(stream).bytes(), old(stream).pos())),
{
    stream.read_varlong()
}

/// Reads a VarLong from the front of `buffer`, removing the bytes it reads
/// (also when the read fails).
pub fn decode_buf(buffer: &mut Vec<u8>) -> (r: DecodingResult<i64>)
    ensures
        ({
            let p = read_varlong_at(old(buffer)@, 0);
            &&& p matches Parsed::Value { value, pos } ==> r == Ok::<i64, DecodingError>(value)
                && final(buffer)@ == old(buffer)@.skip(pos as int)
            &&& p matches Parsed::Failed { error, pos } ==> r matches Err(e) && e@ == error
                && final(buffer)@ == old(buffer)@.skip(pos as int)
            &&& !(p is Panic)
        }),
{
    let mut stream = PacketDecoder::from_bytes(buffer.clone());
    let r = stream.read_varlong();
    let used = buffer.len() - stream.remaining();
    let rest = buffer.split_off(used);
    *buffer = rest;
    r
}

} // verus!
