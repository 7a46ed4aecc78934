//! Writing and reading the protocol's primitive values.
pub mod fixed;
pub mod roundtrip;
pub mod string;
pub mod var_num;
pub mod varint;
pub mod varlong;

use crate::{DecodingError, DecodingErrorView, DecodingResult};
use fixed::{be_bytes, be_read, be_value, be_vec, lemma_be_value_bound, lemma_pow256_mono, lemma_pow256_values};
use var_num::{lemma_var_decode_bound, read_var, var_decode, VarDecode, VarOutcome};
use vstd::prelude::*;

verus! {

/// What reading a value at position `pos` of a byte sequence gives.
pub enum Parsed<T> {
    /// The value and the position after it.
    Value { value: T, pos: nat },
    /// The error and the position the reader was left at.
    Failed { error: DecodingErrorView, pos: nat },
    /// Input the reader cannot take: it panics on it.
    Panic,
}

pub open spec fn parsed_map<A, B>(p: Parsed<A>, f: spec_fn(A) -> B) -> Parsed<B> {
    match p {
        Parsed::Value { value, pos } => Parsed::Value { value: f(value), pos },
        Parsed::Failed { error, pos } => Parsed::Failed { error, pos },
        Parsed::Panic => Parsed::Panic,
    }
}

/// Reads on with `f` after `p` succeeded; failures and panics carry through.
pub open spec fn parsed_then<A, B>(p: Parsed<A>, f: spec_fn(A, nat) -> Parsed<B>) -> Parsed<B> {
    match p {
        Parsed::Value { value, pos } => f(value, pos),
        Parsed::Failed { error, pos } => Parsed::Failed { error, pos },
        Parsed::Panic => Parsed::Panic,
    }
}

/// A result and the reader's new position agree with what the input gives.
pub open spec fn outcome_is<T: View>(r: DecodingResult<T>, new_pos: nat, p: Parsed<T::V>) -> bool {
    match p {
        Parsed::Value { value, pos } => r matches Ok(v) && v@ == value && new_pos == pos,
        Parsed::Failed { error, pos } => r matches Err(e) && e@ == error && new_pos == pos,
        Parsed::Panic => false,
    }
}

/// A read that may meet input on which reading panics:
/// there the result is an error and the decoder is marked as panicked;
/// elsewhere the read is exact and the mark stays as it was.
pub open spec fn read_or_panic<T: View>(
    r: DecodingResult<T>,
    before: PacketDecoder,
    after: PacketDecoder,
    p: Parsed<T::V>,
) -> bool {
    &&& after.bytes() == before.bytes()
    &&& match p {
        Parsed::Panic => r is Err && after.panicked(),
        _ => outcome_is(r, after.pos(), p) && after.panicked() == before.panicked(),
    }
}

/// `k` bytes in network order; the reader is left at the end when they are
/// not all there.
pub open spec fn read_fixed(s: Seq<u8>, pos: nat, k: nat) -> Parsed<nat> {
    if pos + k <= s.len() {
        Parsed::Value { value: be_value(s.subrange(pos as int, (pos + k) as int)), pos: pos + k }
    } else {
        Parsed::Failed { error: DecodingErrorView::NotEnoughBytes, pos: s.len() }
    }
}

/// The error for a variable-length number longer than its limit.
pub open spec fn too_many_bytes() -> DecodingErrorView {
    DecodingErrorView::ParseError { data_type: "varint or varlong"@, message: "too many bytes"@ }
}

/// A variable-length number with at most `limit` continuation bytes.
pub open spec fn read_var_at(s: Seq<u8>, pos: nat, limit: nat) -> Parsed<nat> {
    match var_decode(s.skip(pos as int), limit) {
        VarDecode::Done { value, len } => Parsed::Value { value, pos: pos + len },
        VarDecode::EndOfInput => Parsed::Failed { error: DecodingErrorView::NotEnoughBytes, pos: s.len() },
        VarDecode::TooLong => Parsed::Failed { error: too_many_bytes(), pos: pos + limit + 1 },
    }
}

pub open spec fn read_u8_at(s: Seq<u8>, pos: nat) -> Parsed<u8> {
    parsed_map(read_fixed(s, pos, 1), |v: nat| v as u8)
}

pub open spec fn read_i8_at(s: Seq<u8>, pos: nat) -> Parsed<i8> {
    parsed_map(read_fixed(s, pos, 1), |v: nat| (v as u8) as i8)
}

pub open spec fn read_u16_at(s: Seq<u8>, pos: nat) -> Parsed<u16> {
    parsed_map(read_fixed(s, pos, 2), |v: nat| v as u16)
}

pub open spec fn read_i16_at(s: Seq<u8>, pos: nat) -> Parsed<i16> {
    parsed_map(read_fixed(s, pos, 2), |v: nat| (v as u16) as i16)
}

pub open spec fn read_u32_at(s: Seq<u8>, pos: nat) -> Parsed<u32> {
    parsed_map(read_fixed(s, pos, 4), |v: nat| v as u32)
}

pub open spec fn read_i32_at(s: Seq<u8>, pos: nat) -> Parsed<i32> {
    parsed_map(read_fixed(s, pos, 4), |v: nat| (v as u32) as i32)
}

pub open spec fn read_u64_at(s: Seq<u8>, pos: nat) -> Parsed<u64> {
    parsed_map(read_fixed(s, pos, 8), |v: nat| v as u64)
}

pub open spec fn read_i64_at(s: Seq<u8>, pos: nat) -> Parsed<i64> {
    parsed_map(read_fixed(s, pos, 8), |v: nat| (v as u64) as i64)
}

pub open spec fn read_u128_at(s: Seq<u8>, pos: nat) -> Parsed<u128> {
    parsed_map(read_fixed(s, pos, 16), |v: nat| v as u128)
}

/// A boolean is one byte, true exactly when it is 1.
pub open spec fn read_bool_at(s: Seq<u8>, pos: nat) -> Parsed<bool> {
    parsed_map(read_fixed(s, pos, 1), |v: nat| v == 1)
}

pub open spec fn read_varint_at(s: Seq<u8>, pos: nat) -> Parsed<i32> {
    parsed_map(read_var_at(s, pos, 5), |v: nat| (v as u32) as i32)
}

pub open spec fn read_varlong_at(s: Seq<u8>, pos: nat) -> Parsed<i64> {
    parsed_map(read_var_at(s, pos, 10), |v: nat| (v as u64) as i64)
}

/// `n` raw bytes; a count beyond what a vector can hold panics.
pub open spec fn read_bytes_at(s: Seq<u8>, pos: nat, n: nat) -> Parsed<Seq<u8>> {
    if n > isize::MAX {
        Parsed::Panic
    } else if pos + n <= s.len() {
        Parsed::Value { value: s.subrange(pos as int, (pos + n) as int), pos: pos + n }
    } else {
        Parsed::Failed { error: DecodingErrorView::NotEnoughBytes, pos: s.len() }
    }
}

/// A byte array with its length as a VarInt in front; a negative length
/// would need an allocation beyond what memory can hold: reading panics.
pub open spec fn read_len_bytes_at(s: Seq<u8>, pos: nat) -> Parsed<Seq<u8>> {
    parsed_then(read_varint_at(s, pos), |len: i32, p: nat|
        if len < 0 {
            Parsed::Panic
        } else {
            read_bytes_at(s, p, len as nat)
        })
}

/// Builds packets byte by byte.
pub struct PacketEncoder {
    data: Vec<u8>,
}

impl View for PacketEncoder {
    type V = Seq<u8>;

    closed spec fn view(&self) -> Seq<u8> {
        self.data@
    }
}

impl PacketEncoder {
    pub fn new() -> (e: Self)
        ensures
            e@ == Seq::<u8>::empty(),
    {
        PacketEncoder { data: Vec::new() }
    }

    /// An encoder that writes into `storage`, which must be empty.
    pub fn with_storage(storage: Vec<u8>) -> (e: Self)
        requires
            storage@.len() == 0,
        ensures
            e@ == Seq::<u8>::empty(),
    {
        PacketEncoder { data: storage }
    }

    /// The bytes written so far.
    pub fn consume(self) -> (bytes: Vec<u8>)
        ensures
            bytes@ == self@,
    {
        self.data
    }

    pub fn write_bytes(&mut self, bytes: &[u8])
        ensures
            final(self)@ == old(self)@ + bytes@,
    {
        self.data.extend_from_slice(bytes);
    }

    pub fn write_u8(&mut self, v: u8)
        ensures
            final(self)@ == old(self)@ + be_bytes(v as nat, 1),
    {
        let b = be_vec(v as u128, 1);
        self.write_bytes(b.as_slice());
    }

    pub fn write_i8(&mut self, v: i8)
        ensures
            final(self)@ == old(self)@ + be_bytes((v as u8) as nat, 1),
    {
        self.write_u8(v as u8);
    }

    pub fn write_u16(&mut self, v: u16)
        ensures
            final(self)@ == old(self)@ + be_bytes(v as nat, 2),
    {
        let b = be_vec(v as u128, 2);
        self.write_bytes(b.as_slice());
    }

    pub fn write_i16(&mut self, v: i16)
        ensures
            final(self)@ == old(self)@ + be_bytes((v as u16) as nat, 2),
    {
        self.write_u16(v as u16);
    }

    pub fn write_u32(&mut self, v: u32)
        ensures
            final(self)@ == old(self)@ + be_bytes(v as nat, 4),
    {
        let b = be_vec(v as u128, 4);
        self.write_bytes(b.as_slice());
    }

    pub fn write_i32(&mut self, v: i32)
        ensures
            final(self)@ == old(self)@ + be_bytes((v as u32) as nat, 4),
    {
        self.write_u32(v as u32);
    }

    pub fn write_u64(&mut self, v: u64)
        ensures
            final(self)@ == old(self)@ + be_bytes(v as nat, 8),
    {
        let b = be_vec(v as u128, 8);
        self.write_bytes(b.as_slice());
    }

    pub fn write_i64(&mut self, v: i64)
        ensures
            final(self)@ == old(self)@ + be_bytes((v as u64) as nat, 8),
    {
        self.write_u64(v as u64);
    }

    /// A 32-bit float, given by its bits (`f32::to_bits`).
    pub fn write_f32_bits(&mut self, bits: u32)
        ensures
            final(self)@ == old(self)@ + be_bytes(bits as nat, 4),
    {
        self.write_u32(bits);
    }

    /// A 64-bit float, given by its bits (`f64::to_bits`).
    pub fn write_f64_bits(&mut self, bits: u64)
        ensures
            final(self)@ == old(self)@ + be_bytes(bits as nat, 8),
    {
        self.write_u64(bits);
    }

    pub fn write_angle(&mut self, v: u8)
        ensures
            final(self)@ == old(self)@ + be_bytes(v as nat, 1),
    {
        self.write_u8(v);
    }

    pub fn write_bool(&mut self, v: bool)
        ensures
            final(self)@ == old(self)@ + be_bytes(if v { 1 } else { 0 }, 1),
    {
        self.write_u8(if v { 1 } else { 0 });
    }

    pub fn write_varint(&mut self, v: i32)
        ensures
            final(self)@ == old(self)@ + varint::spec_encode(v),
    {
        varint::encode_into(v, &mut self.data);
    }

    pub fn write_varlong(&mut self, v: i64)
        ensures
            final(self)@ == old(self)@ + varlong::spec_encode(v),
    {
        varlong::encode_into(v, &mut self.data);
    }

    pub fn write_string(&mut self, text: &str)
        ensures
            final(self)@ == old(self)@ + string::spec_encode(text@),
    {
        string::encode_into(text, &mut self.data);
    }

    /// A UUID, given as its 128-bit value (`Uuid::as_u128`).
    pub fn write_uuid(&mut self, uuid: u128)
        ensures
            final(self)@ == old(self)@ + be_bytes(uuid as nat, 16),
    {
        let b = be_vec(uuid, 16);
        self.write_bytes(b.as_slice());
    }
}

/// Reads a packet's bytes front to back.
pub struct PacketDecoder {
    data: Vec<u8>,
    pos: usize,
    /// Whether a read met input on which reading panics.
    panicked: bool,
}

impl PacketDecoder {
    #[verifier::type_invariant]
    spec fn inv(self) -> bool {
        self.pos <= self.data.len()
    }

    /// All the bytes, read or not.
    pub closed spec fn bytes(&self) -> Seq<u8> {
        self.data@
    }

    /// How many bytes have been read.
    pub closed spec fn pos(&self) -> nat {
        self.pos as nat
    }

    /// Whether a read met input on which reading panics; reads after that
    /// are not to be trusted.
    pub closed spec fn panicked(&self) -> bool {
        self.panicked
    }

    pub fn has_panicked(&self) -> (b: bool)
        ensures
            b == self.panicked(),
    {
        self.panicked
    }

    /// A decoder at the start of `data`.
    pub fn from_bytes(data: Vec<u8>) -> (d: Self)
        ensures
            d.bytes() == data@,
            d.pos() == 0,
            !d.panicked(),
    {
        PacketDecoder { data, pos: 0, panicked: false }
    }

    pub fn remaining(&self) -> (n: usize)
        ensures
            self.pos() <= self.bytes().len(),
            n == self.bytes().len() - self.pos(),
    {
        proof {
            use_type_invariant(self);
        }
        self.data.len() - self.pos
    }

    fn read_fixed(&mut self, k: usize) -> (r: DecodingResult<u128>)
        requires
            k <= 16,
        ensures
            final(self).bytes() == old(self).bytes(),
            final(self).panicked() == old(self).panicked(),
            match read_fixed(old(self).bytes(), old(self).pos(), k as nat) {
                Parsed::Value { value, pos } => r matches Ok(x) && x as nat == value && final(self).pos() == pos,
                Parsed::Failed { error, pos } => r matches Err(e) && e@ == error && final(self).pos() == pos,
                Parsed::Panic => false,
            },
    {
        proof {
            use_type_invariant(&*self);
        }
        if k <= self.data.len() - self.pos {
            let v = be_read(self.data.as_slice(), self.pos, k);
            proof {
                lemma_be_value_bound(self.data@.subrange(self.pos as int, self.pos + k));
                lemma_pow256_mono(k as nat, 16);
                lemma_pow256_values();
            }
            self.pos = self.pos + k;
            Ok(v)
        } else {
            self.pos = self.data.len();
            Err(DecodingError::NotEnoughBytes)
        }
    }

    pub fn read_u8(&mut self) -> (r: DecodingResult<u8>)
        ensures
            final(self).bytes() == old(self).bytes(),
            final(self).panicked() == old(self).panicked(),
            outcome_is(r, final(self).pos(), read_u8_at(old(self).bytes(), old(self).pos())),
    {
        match self.read_fixed(1) {
            Ok(v) => Ok(v as u8),
            Err(e) => Err(e),
        }
    }

    pub fn read_i8(&mut self) -> (r: DecodingResult<i8>)
        ensures
            final(self).bytes() == old(self).bytes(),
            final(self).panicked() == old(self).panicked(),
            outcome_is(r, final(self).pos(), read_i8_at(old(self).bytes(), old(self).pos())),
    {
        match self.read_fixed(1) {
            Ok(v) => Ok((v as u8) as i8),
            Err(e) => Err(e),
        }
    }

    pub fn read_u16(&mut self) -> (r: DecodingResult<u16>)
        ensures
            final(self).bytes() == old(self).bytes(),
            final(self).panicked() == old(self).panicked(),
            outcome_is(r, final(self).pos(), read_u16_at(old(self).bytes(), old(self).pos())),
    {
        match self.read_fixed(2) {
            Ok(v) => Ok(v as u16),
            Err(e) => Err(e),
        }
    }

    pub fn read_i16(&mut self) -> (r: DecodingResult<i16>)
        ensures
            final(self).bytes() == old(self).bytes(),
            final(self).panicked() == old(self).panicked(),
            outcome_is(r, final(self).pos(), read_i16_at(old(self).bytes(), old(self).pos())),
    {
        match self.read_fixed(2) {
            Ok(v) => Ok((v as u16) as i16),
            Err(e) => Err(e),
        }
    }

    pub fn read_u32(&mut self) -> (r: DecodingResult<u32>)
        ensures
            final(self).bytes() == old(self).bytes(),
            final(self).panicked() == old(self).panicked(),
            outcome_is(r, final(self).pos(), read_u32_at(old(self).bytes(), old(self).pos())),
    {
        match self.read_fixed(4) {
            Ok(v) => Ok(v as u32),
            Err(e) => Err(e),
        }
    }

    pub fn read_i32(&mut self) -> (r: DecodingResult<i32>)
        ensures
            final(self).bytes() == old(self).bytes(),
            final(self).panicked() == old(self).panicked(),
            outcome_is(r, final(self).pos(), read_i32_at(old(self).bytes(), old(self).pos())),
    {
        match self.read_fixed(4) {
            Ok(v) => Ok((v as u32) as i32),
            Err(e) => Err(e),
        }
    }

    pub fn read_u64(&mut self) -> (r: DecodingResult<u64>)
        ensures
            final(self).bytes() == old(self).bytes(),
            final(self).panicked() == old(self).panicked(),
            outcome_is(r, final(self).pos(), read_u64_at(old(self).bytes(), old(self).pos())),
    {
        match self.read_fixed(8) {
            Ok(v) => Ok(v as u64),
            Err(e) => Err(e),
        }
    }

    pub fn read_i64(&mut self) -> (r: DecodingResult<i64>)
        ensures
            final(self).bytes() == old(self).bytes(),
            final(self).panicked() == old(self).panicked(),
            outcome_is(r, final(self).pos(), read_i64_at(old(self).bytes(), old(self).pos())),
    {
        match self.read_fixed(8) {
            Ok(v) => Ok((v as u64) as i64),
            Err(e) => Err(e),
        }
    }

    /// A 32-bit float, returned as its bits (for `f32::from_bits`).
    pub fn read_f32_bits(&mut self) -> (r: DecodingResult<u32>)
        ensures
            final(self).bytes() == old(self).bytes(),
            final(self).panicked() == old(self).panicked(),
            outcome_is(r, final(self).pos(), read_u32_at(old(self).bytes(), old(self).pos())),
    {
        self.read_u32()
    }

    /// A 64-bit float, returned as its bits (for `f64::from_bits`).
    pub fn read_f64_bits(&mut self) -> (r: DecodingResult<u64>)
        ensures
            final(self).bytes() == old(self).bytes(),
            final(self).panicked() == old(self).panicked(),
            outcome_is(r, final(self).pos(), read_u64_at(old(self).bytes(), old(self).pos())),
    {
        self.read_u64()
    }

    pub fn read_bool(&mut self) -> (r: DecodingResult<bool>)
        ensures
            final(self).bytes() == old(self).bytes(),
            final(self).panicked() == old(self).panicked(),
            outcome_is(r, final(self).pos(), read_bool_at(old(self).bytes(), old(self).pos())),
    {
        match self.read_fixed(1) {
            Ok(v) => Ok(v == 1),
            Err(e) => Err(e),
        }
    }

    /// Reads a variable-length number; shared by `read_varint` and `read_varlong`.
    pub(crate) fn read_var_num(&mut self, limit: usize) -> (r: DecodingResult<u128>)
        requires
            1 <= limit <= 10,
        ensures
            final(self).bytes() == old(self).bytes(),
            final(self).panicked() == old(self).panicked(),
            match read_var_at(old(self).bytes(), old(self).pos(), limit as nat) {
                Parsed::Value { value, pos } => r matches Ok(x) && x as nat == value && final(self).pos() == pos,
                Parsed::Failed { error, pos } => r matches Err(e) && e@ == error && final(self).pos() == pos,
                Parsed::Panic => false,
            },
    {
        proof {
            use_type_invariant(&*self);
        }
        let (outcome, used) = read_var(self.data.as_slice(), self.pos, limit);
        proof {
            lemma_var_decode_bound(self.data@.skip(self.pos as int), limit as nat);
        }
        match outcome {
            VarOutcome::Done(v) => {
                self.pos = self.pos + used;
                Ok(v)
            },
            VarOutcome::EndOfInput => {
                self.pos = self.data.len();
                Err(DecodingError::NotEnoughBytes)
            },
            VarOutcome::TooLong => {
                self.pos = if used <= self.data.len() - self.pos {
                    self.pos + used
                } else {
                    self.data.len()
                };
                proof {
                    assert(self.pos == old(self).pos() + limit + 1) by {
                        assert(var_decode(old(self).bytes().skip(old(self).pos() as int), limit as nat)
                            is TooLong);
                        lemma_var_too_long_len(old(self).bytes().skip(old(self).pos() as int), limit as nat);
                    }
                }
                Err(DecodingError::parse_error("varint or varlong", "too many bytes"))
            },
        }
    }

    pub fn read_varint(&mut self) -> (r: DecodingResult<i32>)
        ensures
            final(self).bytes() == old(self).bytes(),
            final(self).panicked() == old(self).panicked(),
            outcome_is(r, final(self).pos(), read_varint_at(old(self).bytes(), old(self).pos())),
    {
        match self.read_var_num(varint::MAX_BYTE_SIZE) {
            Ok(v) => Ok((v as u32) as i32),
            Err(e) => Err(e),
        }
    }

    pub fn read_varlong(&mut self) -> (r: DecodingResult<i64>)
        ensures
            final(self).bytes() == old(self).bytes(),
            final(self).panicked() == old(self).panicked(),
            outcome_is(r, final(self).pos(), read_varlong_at(old(self).bytes(), old(self).pos())),
    {
        match self.read_var_num(varlong::MAX_BYTE_SIZE) {
            Ok(v) => Ok((v as u64) as i64),
            Err(e) => Err(e),
        }
    }

    /// Takes `amount` bytes that are known to be there.
    fn take_bytes(&mut self, amount: usize) -> (out: Vec<u8>)
        requires
            old(self).pos() + amount <= old(self).bytes().len(),
        ensures
            final(self).bytes() == old(self).bytes(),
            final(self).panicked() == old(self).panicked(),
            final(self).pos() == old(self).pos() + amount,
            out@ == old(self).bytes().subrange(old(self).pos() as int, old(self).pos() + amount),
    {
        proof {
            use_type_invariant(&*self);
        }
        let mut out: Vec<u8> = Vec::new();
        let mut i: usize = 0;
        while i < amount
            invariant
                self.pos + amount <= self.data.len(),
                i <= amount,
                out@ == self.data@.subrange(self.pos as int, self.pos + i),
            decreases amount - i,
        {
            out.push(self.data[self.pos + i]);
            i = i + 1;
            assert(out@ =~= self.data@.subrange(self.pos as int, self.pos + i));
        }
        self.pos = self.pos + amount;
        out
    }

    pub fn read_bytes(&mut self, amount: usize) -> (r: DecodingResult<Vec<u8>>)
        requires
            amount <= isize::MAX,
        ensures
            final(self).bytes() == old(self).bytes(),
            final(self).panicked() == old(self).panicked(),
            outcome_is(r, final(self).pos(), read_bytes_at(old(self).bytes(), old(self).pos(), amount as nat)),
    {
        proof {
            use_type_invariant(&*self);
        }
        if amount <= self.data.len() - self.pos {
            Ok(self.take_bytes(amount))
        } else {
            self.pos = self.data.len();
            Err(DecodingError::NotEnoughBytes)
        }
    }

    /// A byte array with its length as a VarInt in front.
    pub fn read_len_bytes(&mut self) -> (r: DecodingResult<Vec<u8>>)
        ensures
            read_or_panic(r, *old(self), *final(self), read_len_bytes_at(old(self).bytes(), old(self).pos())),
    {
        let len = match self.read_varint() {
            Ok(len) => len,
            Err(e) => return Err(e),
        };
        if len < 0 {
            self.mark_panicked();
            return Err(DecodingError::NotEnoughBytes);
        }
        self.read_bytes(len as usize)
    }

    /// Everything that is left; never fails.
    pub fn read_to_end(&mut self) -> (r: DecodingResult<Vec<u8>>)
        ensures
            final(self).bytes() == old(self).bytes(),
            final(self).panicked() == old(self).panicked(),
            final(self).pos() == old(self).bytes().len(),
            r matches Ok(v) && v@ == old(self).bytes().skip(old(self).pos() as int),
    {
        proof {
            use_type_invariant(&*self);
        }
        let n = self.data.len() - self.pos;
        let r = Ok(self.take_bytes(n));
        proof {
            assert(old(self).bytes().skip(old(self).pos() as int) =~= old(self).bytes().subrange(
                old(self).pos() as int,
                old(self).pos() + n,
            ));
        }
        r
    }

    pub fn read_string(&mut self) -> (r: DecodingResult<String>)
        ensures
            read_or_panic(r, *old(self), *final(self), string::read_string_at(old(self).bytes(), old(self).pos())),
    {
        string::decode_sync(self)
    }

    /// A UUID, returned as its 128-bit value (for `Uuid::from_u128`).
    pub fn read_uuid(&mut self) -> (r: DecodingResult<u128>)
        ensures
            final(self).bytes() == old(self).bytes(),
            final(self).panicked() == old(self).panicked(),
            outcome_is(r, final(self).pos(), read_u128_at(old(self).bytes(), old(self).pos())),
    {
        match self.read_fixed(16) {
            Ok(v) => Ok(v),
            Err(e) => Err(e),
        }
    }

    /// Marks the decoder: reading panics here.
    pub(crate) fn mark_panicked(&mut self)
        ensures
            final(self).bytes() == old(self).bytes(),
            final(self).pos() == old(self).pos(),
            final(self).panicked(),
    {
        proof {
            use_type_invariant(&*self);
        }
        self.panicked = true;
    }

    /// Moves the reader forward by `n` bytes, up to the end.
    pub(crate) fn skip_by(&mut self, n: usize)
        ensures
            final(self).bytes() == old(self).bytes(),
            final(self).panicked() == old(self).panicked(),
            final(self).pos() == if old(self).pos() + n <= old(self).bytes().len() {
                old(self).pos() + n
            } else {
                old(self).bytes().len() as int
            },
    {
        proof {
            use_type_invariant(&*self);
        }
        if n <= self.data.len() - self.pos {
            self.pos = self.pos + n;
        } else {
            self.pos = self.data.len();
        }
    }
}

/// A budget-exhausted read takes the whole budget of continuation bytes plus one.
pub proof fn lemma_var_too_long_len(s: Seq<u8>, budget: nat)
    ensures
        var_decode(s, budget) is TooLong ==> s.len() >= budget + 1,
    decreases s.len(),
{
    if s.len() > 0 && budget > 0 && s[0] >= 128 {
        lemma_var_too_long_len(s.drop_first(), (budget - 1) as nat);
    }
}

} // verus!
