//! String codec reading one byte at a time from a stream.
use super::varint::{self, varint_shift_overflows};
use crate::data_types::encoder::string::{spec_encode, utf8_lossy};
use crate::data_types::encoder::{outcome_is, read_varint_at, PacketDecoder, Parsed};
use crate::{DecodingError, DecodingErrorView, DecodingResult};
use vstd::prelude::*;

verus! {

/// The encoding of `string`: its UTF-8 length as a VarInt, then its bytes.
pub fn encode_string(string: &str) -> (data: Vec<u8>)
    ensures
        data@ == spec_encode(string@),
{
    let mut data = Vec::new();
    let text = string.as_bytes();
    let mut len_bytes = varint::encode(text.len() as i32);
    data.append(&mut len_bytes);
    data.extend_from_slice(text);
    proof {
        assert(data@ =~= spec_encode(string@));
    }
    data
}

/// Reading a string that must be complete: a length longer than the input
/// fails with `NotEnoughBytes` and leaves the reader at the end; a negative
/// length, or a length VarInt of six bytes, makes reading panic.
pub open spec fn read_full_string_at(s: Seq<u8>, pos: nat) -> Parsed<Seq<char>> {
    if varint_shift_overflows(s, pos) {
        Parsed::Panic
    } else {
        match read_varint_at(s, pos) {
            Parsed::Value { value, pos: p } => if value < 0 {
                Parsed::Panic
            } else if p + value <= s.len() {
                Parsed::Value {
                    value: utf8_lossy(s.subrange(p as int, p + value)),
                    pos: (p + value) as nat,
                }
            } else {
                Parsed::Failed { error: DecodingErrorView::NotEnoughBytes, pos: s.len() }
            },
            Parsed::Failed { error, pos: p } => Parsed::Failed { error, pos: p },
            Parsed::Panic => Parsed::Panic,
        }
    }
}

/// Reads a string from `stream`, byte by byte.
pub fn decode_string_sync(stream: &mut PacketDecoder) -> (r: DecodingResult<String>)
    requires
        !(read_full_string_at(old(stream).bytes(), old(stream).pos()) is Panic),
    ensures
        final(stream).bytes() == old(stream).bytes(),
        outcome_is(r, final(stream).pos(), read_full_string_at(old(stream).bytes(), old(stream).pos())),
{
    let size = match varint::decode_sync(stream) {
        Ok(size) => size,
        Err(e) => return Err(e),
    };
    let available = stream.remaining();
    if (size as usize) <= available {
        match stream.read_bytes(size as usize) {
            Ok(data) => Ok(crate::data_types::encoder::string::lossy_string(data.as_slice())),
            Err(e) => Err(e),
        }
    } else {
        stream.skip_by(available);
        Err(DecodingError::NotEnoughBytes)
    }
}

} // verus!
