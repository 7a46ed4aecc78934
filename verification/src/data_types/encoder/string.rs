//! Strings: their UTF-8 byte length as a VarInt, then the bytes.
use super::{read_or_panic, read_varint_at, varint, PacketDecoder, Parsed};
use crate::{DecodingError, DecodingResult};
use vstd::prelude::*;
use vstd::utf8::{decode_utf8, encode_utf8, valid_utf8};

verus! {

/// The characters that `String::from_utf8_lossy` makes of `bytes` that are
/// not well-formed UTF-8.
pub uninterp spec fn utf8_repaired(bytes: Seq<u8>) -> Seq<char>;

/// The characters that `String::from_utf8_lossy` makes of `bytes`: the
/// decoded text where they are well-formed UTF-8.
pub open spec fn utf8_lossy(bytes: Seq<u8>) -> Seq<char> {
    if valid_utf8(bytes) {
        decode_utf8(bytes)
    } else {
        utf8_repaired(bytes)
    }
}

/// Calls `String::from_utf8_lossy`, which turns bytes into text, putting
/// U+FFFD in place of every ill-formed sequence. Claimed: on well-formed
/// UTF-8 the result is the decoded text (the function's documentation: valid
/// UTF-8 is returned without change), and otherwise `utf8_repaired` of the
/// bytes.
#[verifier::external_body]
pub(crate) fn lossy_string(bytes: &[u8]) -> (s: String)
    ensures
        valid_utf8(bytes@) ==> s@ == decode_utf8(bytes@),
        !valid_utf8(bytes@) ==> s@ == utf8_repaired(bytes@),
{
    String::from_utf8_lossy(bytes).into_owned()
}

/// The encoding of the text `text`.
pub open spec fn spec_encode(text: Seq<char>) -> Seq<u8> {
    varint::spec_encode(encode_utf8(text).len() as i32) + encode_utf8(text)
}

/// Reading a string: a negative length would need an allocation beyond
/// what memory can hold, so reading panics; a length beyond the input takes what is
/// there.
pub open spec fn read_string_at(s: Seq<u8>, pos: nat) -> Parsed<Seq<char>> {
    match read_varint_at(s, pos) {
        Parsed::Value { value, pos: p } => if value < 0 {
            Parsed::Panic
        } else {
            let n = if value <= s.len() - p { value as nat } else { (s.len() - p) as nat };
            Parsed::Value { value: utf8_lossy(s.subrange(p as int, (p + n) as int)), pos: p + n }
        },
        Parsed::Failed { error, pos: p } => Parsed::Failed { error, pos: p },
        Parsed::Panic => Parsed::Panic,
    }
}

/// Appends the encoding of `string` to `bytes`.
pub fn encode_into(string: &str, bytes: &mut Vec<u8>)
    ensures
        final(bytes)@ == old(bytes)@ + spec_encode(string@),
{
    let text = string.as_bytes();
    varint::encode_into(text.len() as i32, bytes);
    bytes.extend_from_slice(text);
    proof {
        assert(final(bytes)@ =~= old(bytes)@ + spec_encode(string@));
    }
}

/// The encoding of `string`.
pub fn encode(string: &str) -> (bytes: Vec<u8>)
    ensures
        bytes@ == spec_encode(string@),
{
    let mut bytes = Vec::new();
    encode_into(string, &mut bytes);
    bytes
}

/// Reads a string from `stream`.
pub fn decode_sync(stream: &mut PacketDecoder) -> (r: DecodingResult<String>)
    ensures
        read_or_panic(r, *old(stream), *final(stream), read_string_at(old(stream).bytes(), old(stream).pos())),
{
    let size = match stream.read_varint() {
        Ok(size) => size,
        Err(e) => return Err(e),
    };
    if size < 0 {
        stream.mark_panicked();
        return Err(DecodingError::NotEnoughBytes);
    }
    let available = stream.remaining();
    let n = if (size as usize) <= available { size as usize } else { available };
    let data = match stream.read_bytes(n) {
        Ok(data) => data,
        Err(e) => return Err(e),
    };
    Ok(lossy_string(data.as_slice()))
}

} // verus!
