//! VarInt codec reading one byte at a time from a stream.
use crate::data_types::encoder::var_num::{var_bytes, var_decode, VarDecode};
use crate::data_types::encoder::{outcome_is, read_varint_at, varint as wire_varint, PacketDecoder, Parsed};
use crate::DecodingResult;
use vstd::prelude::*;

verus! {

/// The encoding of `value`: its two's-complement bits, seven at a time.
pub fn encode(value: i32) -> (bytes: Vec<u8>)
    ensures
        bytes@ == var_bytes((value as u32) as nat),
        1 <= bytes@.len() <= 5,
{
    wire_varint::encode(value)
}

/// Whether this reader would shift a sixth byte beyond the width of `i32`,
/// which panics: five bytes with the continuation bit followed by a sixth.
pub open spec fn varint_shift_overflows(s: Seq<u8>, pos: nat) -> bool {
    var_decode(s.skip(pos as int), 5) is TooLong
}

/// Reads a VarInt from `stream`, one byte at a time; running out of bytes is
/// `NotEnoughBytes`.
pub fn decode_sync(stream: &mut PacketDecoder) -> (r: DecodingResult<i32>)
    requires
        !varint_shift_overflows(old(stream).bytes(), old(stream).pos()),
    ensures
        final(stream).bytes() == old(stream).bytes(),
        outcome_is(r, final(stream).pos(), read_varint_at(old(stream).bytes(), old(stream).pos())),
{
    stream.read_varint()
}

/// Reads a VarInt from the front of `buffer`.
pub fn decode(buffer: &[u8]) -> (r: DecodingResult<i32>)
    requires
        !varint_shift_overflows(buffer@, 0),
    ensures
        ({
            let p = read_varint_at(buffer@, 0);
            &&& p matches Parsed::Value { value, .. } ==> r matches Ok(v) && v == value
            &&& p matches Parsed::Failed { error, .. } ==> r matches Err(e) && e@ == error
        }),
{
    let mut copy: Vec<u8> = Vec::new();
    copy.extend_from_slice(buffer);
    assert(copy@ =~= buffer@);
    let mut stream = PacketDecoder::from_bytes(copy);
    decode_sync(&mut stream)
}

} // verus!
