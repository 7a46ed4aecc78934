//! Inventory slots: empty, or an item with a count and NBT data.
use super::encoder::fixed::lemma_be_bytes_one;
use super::encoder::{outcome_is, parsed_then, read_or_panic, read_u8_at, read_varint_at, varint, PacketDecoder, PacketEncoder, Parsed};
use super::nbt_scan::{nbt_reader_returns, scan_blob, scan_nbt, ScanOutcome};
use crate::{DecodingError, DecodingErrorView, DecodingResult};
use vstd::prelude::*;

verus! {

/// NBT data: a named compound of values.
#[verifier::external_type_specification]
#[verifier::external_body]
pub struct ExBlob(nbt::Blob);

/// `Clone::clone` on a blob: a copy of its title and its map. Nothing is
/// claimed of the copy.
pub assume_specification[ <nbt::Blob as Clone>::clone ](blob: &nbt::Blob) -> nbt::Blob;

/// Whether `nbt::Blob::from_reader` reads a blob from `bytes` without error.
pub uninterp spec fn nbt_readable(bytes: Seq<u8>) -> bool;

/// Calls `nbt::Blob::new`: an empty compound with an empty name. Nothing is
/// claimed of the value.
#[verifier::external_body]
fn empty_blob() -> nbt::Blob {
    nbt::Blob::new()
}

/// The bytes of an empty blob: the compound tag, an empty name (a zero
/// short) and the end tag.
pub open spec fn empty_blob_bytes() -> Seq<u8> {
    seq![0x0au8, 0u8, 0u8, 0u8]
}

/// Serializes an empty `nbt::Blob` with `nbt::ser::to_writer` and no header,
/// into a vector, which is also what serializing a struct without fields
/// gives. Claimed, from the source: the compound tag 0x0a, an empty name (a
/// zero short), and the end tag 0x00. Writing into a vector cannot fail.
#[verifier::external_body]
pub(crate) fn empty_compound_nbt() -> (bytes: Vec<u8>)
    ensures
        bytes@ == empty_blob_bytes(),
{
    let mut out = Vec::new();
    nbt::ser::to_writer(&mut out, &nbt::Blob::new(), None).unwrap();
    out
}

/// The I/O error that `nbt` turns its "incomplete value" error into, by its
/// own conversion. Nothing is claimed of the value.
#[verifier::external_body]
fn incomplete_nbt_error() -> std::io::Error {
    std::io::Error::from(nbt::Error::IncompleteNbtValue)
}

/// Calls `nbt::Blob::from_reader` on the bytes. Claimed: it succeeds exactly
/// when `nbt_readable` holds of the bytes (the reader is a pure function of
/// its input). The error is nbt's error turned into an I/O error by nbt's own
/// conversion. Nothing is claimed of the blob.
///
/// The reader hands every array and list length to an allocation before it
/// reads the elements, and recurses once per level of nesting; it is only
/// called on bytes whose walk (`nbt_reader_returns`) ends or stops at an
/// error before any length is negative or larger than the rest of the input,
/// and before the nesting gets deeper than the walk's limit.
#[verifier::external_body]
fn read_blob(bytes: &[u8]) -> (r: Result<nbt::Blob, std::io::Error>)
    requires
        nbt_reader_returns(bytes@),
    ensures
        r is Ok <==> nbt_readable(bytes@),
{
    nbt::Blob::from_reader(&mut std::io::Cursor::new(bytes)).map_err(std::io::Error::from)
}

/// Whether `h` has the shape of an unnamed compound: the compound tag, an
/// empty name (a zero short), the entries, and the end tag.
pub open spec fn unnamed_compound_shape(h: Seq<u8>) -> bool {
    &&& h.len() >= 4
    &&& h.take(3) == seq![0x0au8, 0u8, 0u8]
    &&& h.last() == 0
}

/// Calls `nbt::ser::to_writer` with no header into a vector. Writing into a
/// vector cannot fail and every NBT value has a representation, so the unwrap
/// does not fire. Claimed, from `nbt`'s serializer: a blob is written as a map,
/// which starts with the compound tag and, without a header, a zero short for
/// its name, and which ends with the end tag. The entries in between follow
/// the order in which the blob's hash map is walked, so nothing more is
/// claimed of them.
#[verifier::external_body]
pub(crate) fn blob_bytes(blob: &nbt::Blob) -> (out: Vec<u8>)
    ensures
        unnamed_compound_shape(out@),
{
    let mut out = Vec::new();
    nbt::ser::to_writer(&mut out, blob, None).unwrap();
    out
}

/// An inventory slot.
#[derive(Clone, Debug)]
pub enum Slot {
    NotPresent,
    Present { item_id: i32, item_count: u8, nbt: nbt::Blob },
}

/// A slot without its NBT data.
pub enum SlotView {
    NotPresent,
    Present { item_id: i32, item_count: u8 },
}

impl View for Slot {
    type V = SlotView;

    open spec fn view(&self) -> SlotView {
        match self {
            Slot::NotPresent => SlotView::NotPresent,
            Slot::Present { item_id, item_count, .. } => SlotView::Present {
                item_id: *item_id,
                item_count: *item_count,
            },
        }
    }
}

/// Reading a slot: a flag byte, 1 for an item; then the item's id and count,
/// and the NBT data, which takes everything that is left. The reader looks
/// at the first byte of that rest, so an empty rest panics; a rest that starts
/// with zero is an empty blob. Otherwise the NBT reader panics on a negative
/// length, and fails with an I/O error where a length promises more elements
/// than bytes remain (it runs out of input after allocating for them; here
/// that error is given without running it). Nesting deeper than the walk
/// follows is refused before the reader runs, since each level is one more
/// recursive call of the reader.
pub open spec fn read_slot_at(s: Seq<u8>, pos: nat) -> Parsed<SlotView> {
    parsed_then(read_u8_at(s, pos), |flag: u8, p: nat|
    if flag != 1 {
        Parsed::Value { value: SlotView::NotPresent, pos: p }
    } else {
        parsed_then(read_varint_at(s, p), |item_id: i32, p: nat|
        parsed_then(read_u8_at(s, p), |item_count: u8, p: nat|
        if p >= s.len() {
            Parsed::Panic
        } else if s[p as int] == 0 {
            Parsed::Value { value: SlotView::Present { item_id, item_count }, pos: s.len() }
        } else if scan_blob(s.skip(p as int)) is Negative {
            Parsed::Panic
        } else if scan_blob(s.skip(p as int)) is Refused {
            Parsed::Failed { error: nbt_refused(), pos: s.len() }
        } else if scan_blob(s.skip(p as int)) is Overrun {
            Parsed::Failed { error: DecodingErrorView::IoError, pos: s.len() }
        } else if nbt_readable(s.skip(p as int)) {
            Parsed::Value { value: SlotView::Present { item_id, item_count }, pos: s.len() }
        } else {
            Parsed::Failed { error: DecodingErrorView::IoError, pos: s.len() }
        }))
    })
}

/// The error for NBT data nested deeper than the walk follows.
pub open spec fn nbt_refused() -> DecodingErrorView {
    DecodingErrorView::ParseError { data_type: "NBT"@, message: "nesting too deep"@ }
}

/// The bytes in front of a slot's NBT data.
pub open spec fn slot_head(v: SlotView) -> Seq<u8> {
    match v {
        SlotView::NotPresent => seq![0u8],
        SlotView::Present { item_id, item_count } => seq![1u8] + varint::spec_encode(item_id) + seq![
            item_count,
        ],
    }
}

/// Whether `bytes` encode a slot that looks like `v`: its head, and for an
/// item some NBT data after it.
pub open spec fn slot_encoded(v: SlotView, bytes: Seq<u8>) -> bool {
    &&& bytes.len() >= slot_head(v).len()
    &&& bytes.take(slot_head(v).len() as int) == slot_head(v)
    &&& v is NotPresent ==> bytes == slot_head(v)
}

impl Slot {
    pub fn decode_sync(stream: &mut PacketDecoder) -> (r: DecodingResult<Slot>)
        ensures
            read_or_panic(r, *old(stream), *final(stream), read_slot_at(old(stream).bytes(), old(stream).pos())),
    {
        let flag = match stream.read_u8() {
            Ok(v) => v,
            Err(e) => return Err(e),
        };
        if flag != 1 {
            return Ok(Slot::NotPresent);
        }
        let item_id = match stream.read_varint() {
            Ok(v) => v,
            Err(e) => return Err(e),
        };
        let item_count = match stream.read_u8() {
            Ok(v) => v,
            Err(e) => return Err(e),
        };
        if stream.remaining() == 0 {
            stream.mark_panicked();
            return Err(DecodingError::NotEnoughBytes);
        }
        let remaining = match stream.read_to_end() {
            Ok(v) => v,
            Err(e) => return Err(e),
        };
        if remaining[0] == 0 {
            return Ok(Slot::Present { item_id, item_count, nbt: empty_blob() });
        }
        match scan_nbt(remaining.as_slice()) {
            ScanOutcome::Negative => {
                stream.mark_panicked();
                return Err(DecodingError::NotEnoughBytes);
            },
            ScanOutcome::Overrun => {
                return Err(DecodingError::IoError(incomplete_nbt_error()));
            },
            ScanOutcome::Refused => {
                proof {
                    reveal_strlit("NBT");
                    reveal_strlit("nesting too deep");
                }
                return Err(DecodingError::parse_error("NBT", "nesting too deep"));
            },
            _ => {},
        }
        match read_blob(remaining.as_slice()) {
            Ok(nbt) => Ok(Slot::Present { item_id, item_count, nbt }),
            Err(e) => Err(DecodingError::IoError(e)),
        }
    }

    /// Reads a slot from `buffer`.
    pub fn decode(buffer: &[u8]) -> (r: DecodingResult<Slot>)
        requires
            !(read_slot_at(buffer@, 0) is Panic),
        ensures
            read_slot_at(buffer@, 0) matches Parsed::Value { value, .. } ==> r matches Ok(v) && v@
                == value,
            read_slot_at(buffer@, 0) matches Parsed::Failed { error, .. } ==> r matches Err(e) && e@
                == error,
    {
        let mut stream = PacketDecoder::from_bytes(vstd::slice::slice_to_vec(buffer));
        Slot::decode_sync(&mut stream)
    }

    /// The flag, and for an item its id, its count and its NBT data.
    pub fn encode(&self) -> (bytes: Vec<u8>)
        ensures
            slot_encoded(self@, bytes@),
    {
        let mut encoder = PacketEncoder::new();
        match self {
            Slot::NotPresent => {
                encoder.write_bool(false);
            },
            Slot::Present { item_id, item_count, nbt } => {
                encoder.write_bool(true);
                encoder.write_varint(*item_id);
                encoder.write_u8(*item_count);
                proof {
                    lemma_be_bytes_one(*item_count as nat);
                }
                let tail = blob_bytes(nbt);
                encoder.write_bytes(tail.as_slice());
            },
        }
        let bytes = encoder.consume();
        proof {
            lemma_be_bytes_one(0);
            lemma_be_bytes_one(1);
            assert(bytes@.take(slot_head(self@).len() as int) =~= slot_head(self@));
        }
        bytes
    }

    pub fn is_present(&self) -> (b: bool)
        ensures
            b == (self@ is Present),
    {
        match self {
            Slot::NotPresent => false,
            Slot::Present { .. } => true,
        }
    }
}

impl Default for Slot {
    fn default() -> (s: Slot)
        ensures
            s@ is NotPresent,
    {
        Slot::NotPresent
    }
}

} // verus!
