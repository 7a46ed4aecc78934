//! Packet framing: length prefix, optional zlib compression, packet id.
pub mod client_bound;
pub mod encoder;
pub mod encoding_laws;
pub mod server_bound;
pub mod wire_laws;
use crate::data_types::encoder::var_num::{
    lemma_var_bytes_len, lemma_var_decode_bound, lemma_var_roundtrip, pow128, read_var, var_bytes,
    var_decode, VarDecode, VarOutcome,
};
use crate::data_types::encoder::{read_varint_at, too_many_bytes, varint, Parsed};
use crate::data_types::encoder::roundtrip::varint_roundtrip;
use crate::{DecodingError, DecodingErrorView, DecodingResult};
use vstd::prelude::*;
use std::io::Write;

verus! {

/// The size from which packets are compressed; zero or less turns
/// compression off.
#[derive(Debug, Clone, Copy)]
pub struct PacketCompression(i32);

impl View for PacketCompression {
    type V = i32;

    closed spec fn view(&self) -> i32 {
        self.0
    }
}

impl PacketCompression {
    pub fn new(threshold: i32) -> (c: Self)
        ensures
            c@ == threshold,
    {
        PacketCompression(threshold)
    }

    pub fn is_enabled(&self) -> (b: bool)
        ensures
            b == (self@ > 0),
    {
        self.0 > 0
    }

    /// The threshold itself.
    pub fn threshold(&self) -> (t: i32)
        ensures
            t == self@,
    {
        self.0
    }
}

impl core::ops::Deref for PacketCompression {
    type Target = i32;

    /// The threshold.
    fn deref(&self) -> (t: &i32)
        ensures
            *t == self@,
    {
        &self.0
    }
}

impl Default for PacketCompression {
    /// Compression off.
    fn default() -> (c: Self)
        ensures
            c@ == -1,
    {
        PacketCompression(-1)
    }
}

/// A packet as an id and its encoded fields.
#[derive(Debug, Clone)]
pub struct RawPacket {
    pub packet_id: i32,
    pub data: Vec<u8>,
}

/// The bytes that `flate2`'s zlib encoder, at its fast level, writes for
/// `head` followed by `tail` before a sync flush.
pub uninterp spec fn zlib_fast(head: Seq<u8>, tail: Seq<u8>) -> Seq<u8>;

/// What `flate2`'s zlib decoder makes of `data`, or `None` where it fails.
pub uninterp spec fn zlib_inflated(data: Seq<u8>) -> Option<Seq<u8>>;

/// Compresses with `flate2::write::ZlibEncoder` at `Compression::fast()`
/// into a vector, writing `head` then `tail`, and ends with `flush_finish`.
/// Claimed: the result is `zlib_fast(head, tail)`, and inflating it gives
/// back `head` followed by `tail` (a sync flush emits all input). Writing to
/// a vector cannot fail, so the unwraps do not fire.
#[verifier::external_body]
fn zlib_compress_fast(head: &[u8], tail: &[u8]) -> (out: Vec<u8>)
    ensures
        out@ == zlib_fast(head@, tail@),
        zlib_inflated(out@) == Some(head@ + tail@),
{
    let mut compressor = flate2::write::ZlibEncoder::new(Vec::new(), flate2::Compression::fast());
    compressor.write_all(head).unwrap();
    compressor.write_all(tail).unwrap();
    compressor.flush_finish().unwrap()
}

/// Decompresses with `flate2::write::ZlibDecoder` into a vector, copying all
/// of `data` into it (`std::io::copy`) and calling `finish`. Claimed: it
/// succeeds exactly when `zlib_inflated(data)` is a value, and then returns
/// that value; the error is the decoder's I/O error.
#[verifier::external_body]
fn zlib_decompress(data: &[u8]) -> (r: Result<Vec<u8>, std::io::Error>)
    ensures
        r is Ok <==> zlib_inflated(data@) is Some,
        r matches Ok(v) ==> zlib_inflated(data@) == Some(v@),
{
    let mut uncompressed = Vec::new();
    let mut decoder = flate2::write::ZlibDecoder::new(&mut uncompressed);
    std::io::copy(&mut &data[..], &mut decoder)?;
    decoder.finish()?;
    Ok(uncompressed)
}

/// The frame body: the id and the data, behind a zero or the uncompressed
/// length and compressed when compression is on.
pub open spec fn frame_body(packet_id: i32, data: Seq<u8>, threshold: i32) -> Seq<u8> {
    let id = varint::spec_encode(packet_id);
    if threshold > 0 {
        let uncompressed_length = id.len() + data.len();
        if (uncompressed_length as i32) >= threshold {
            varint::spec_encode(uncompressed_length as i32) + zlib_fast(id, data)
        } else {
            seq![0u8] + id + data
        }
    } else {
        id + data
    }
}

/// A whole frame: the body's length as a VarInt, then the body.
pub open spec fn frame_bytes(packet_id: i32, data: Seq<u8>, threshold: i32) -> Seq<u8> {
    let body = frame_body(packet_id, data, threshold);
    varint::spec_encode(body.len() as i32) + body
}

/// `i32` division as Rust does it, rounding toward zero.
pub open spec fn div_toward_zero(a: int, b: int) -> int {
    if a >= 0 {
        a / b
    } else {
        -((-a) / b)
    }
}

/// What reading a frame gives.
pub enum FrameOutcome {
    Decoded { packet_id: i32, data: Seq<u8> },
    Failed(DecodingErrorView),
    /// The decompressor failed; its I/O error is passed on.
    InflateFailed,
    /// Input the frame reader cannot take: it panics on it.
    Panic,
}

/// The packet id and data in `t`, when the content holds `size` bytes; the
/// data is taken as if the id were a single byte.
pub open spec fn content_decode(t: Seq<u8>, size: int) -> (FrameOutcome, nat) {
    match var_decode(t, 5) {
        VarDecode::EndOfInput => (FrameOutcome::Failed(DecodingErrorView::NotEnoughBytes), t.len()),
        VarDecode::TooLong => (FrameOutcome::Failed(too_many_bytes()), 6),
        VarDecode::Done { value, len } => if size < 1 || size - 1 > t.len() - len {
            (FrameOutcome::Panic, 0)
        } else {
            (
                FrameOutcome::Decoded {
                    packet_id: (value as u32) as i32,
                    data: t.subrange(len as int, len + size - 1),
                },
                (len + size - 1) as nat,
            )
        },
    }
}

/// The error for decompressed content of the wrong size.
pub open spec fn length_mismatch() -> DecodingErrorView {
    DecodingErrorView::ParseError {
        data_type: "raw packet"@,
        message: "content length does not match"@,
    }
}

/// Reading a frame from the front of `s`, and how many bytes of `s` the
/// reader takes.
pub open spec fn frame_decode(s: Seq<u8>, threshold: i32) -> (FrameOutcome, nat) {
    let head = if s.len() <= 5 { s } else { s.take(5) };
    match var_decode(head, 5) {
        VarDecode::Done { value: length_value, len: n1 } => {
            let length = (length_value as u32) as i32;
            let rest = s.skip(n1 as int);
            if length < 0 {
                (FrameOutcome::Panic, 0)
            } else if rest.len() < length {
                (FrameOutcome::Failed(DecodingErrorView::NotEnoughBytes), n1)
            } else if threshold > 0 {
                let frame = rest.take(length as int);
                match var_decode(frame, 5) {
                    VarDecode::EndOfInput => (
                        FrameOutcome::Failed(DecodingErrorView::NotEnoughBytes),
                        n1 + frame.len(),
                    ),
                    VarDecode::TooLong => (FrameOutcome::Failed(too_many_bytes()), n1 + 6),
                    VarDecode::Done { value: cl_value, len: n2 } => {
                        let content_length = (cl_value as u32) as i32;
                        if content_length == 0 {
                            let (o, used) = content_decode(s.skip((n1 + n2) as int), length - n2);
                            (o, n1 + n2 + used)
                        } else if content_length < 0 {
                            (FrameOutcome::Panic, 0)
                        } else {
                            match zlib_inflated(frame.skip(n2 as int)) {
                                None => (FrameOutcome::InflateFailed, (n1 + length) as nat),
                                Some(u) => if u.len() != content_length {
                                    (FrameOutcome::Failed(length_mismatch()), (n1 + length) as nat)
                                } else {
                                    let (o, used) = content_decode(u, u.len() as int);
                                    if o is Panic {
                                        (FrameOutcome::Panic, 0)
                                    } else {
                                        (o, (n1 + length) as nat)
                                    }
                                },
                            }
                        }
                    },
                }
            } else {
                let (o, used) = content_decode(rest, length as int);
                (o, n1 + used)
            }
        },
        _ => (FrameOutcome::Failed(DecodingErrorView::NotEnoughBytes), head.len()),
    }
}

/// A result agrees with a frame outcome.
pub open spec fn frame_result_is(r: DecodingResult<RawPacket>, o: FrameOutcome) -> bool {
    match o {
        FrameOutcome::Decoded { packet_id, data } => r matches Ok(p) && p.packet_id == packet_id
            && p.data@ == data,
        FrameOutcome::Failed(e) => r matches Err(err) && err@ == e,
        FrameOutcome::InflateFailed => r matches Err(err) && (err@ is NotEnoughBytes
            || err@ is IoError),
        FrameOutcome::Panic => false,
    }
}

/// Copies `data[from..to]`.
fn copy_range(data: &[u8], from: usize, to: usize) -> (r: Vec<u8>)
    requires
        from <= to <= data@.len(),
    ensures
        r@ == data@.subrange(from as int, to as int),
{
    let mut out: Vec<u8> = Vec::new();
    let mut i = from;
    while i < to
        invariant
            from <= i <= to <= data@.len(),
            out@ == data@.subrange(from as int, i as int),
        decreases to - i,
    {
        out.push(data[i]);
        i = i + 1;
        assert(out@ =~= data@.subrange(from as int, i as int));
    }
    out
}

/// Reads the id and data of a packet from `t`, whose content is `size` bytes long.
fn decode_content(t: &[u8], size: usize) -> (r: (Option<DecodingResult<RawPacket>>, usize))
    ensures
        ({
            let (o, used) = content_decode(t@, size as int);
            &&& r.0 is None <==> o is Panic
            &&& r.0 matches Some(res) ==> frame_result_is(res, o) && r.1 == used
            &&& r.1 <= t@.len()
        }),
{
    let (outcome, used) = read_var(t, 0, 5);
    proof {
        lemma_content_decode_bound(t@, size as int);
    }
    proof {
        assert(t@.skip(0) == t@);
        lemma_var_decode_bound(t@, 5);
    }
    match outcome {
        VarOutcome::EndOfInput => (Some(Err(DecodingError::NotEnoughBytes)), t.len()),
        VarOutcome::TooLong => (
            Some(Err(DecodingError::parse_error("varint or varlong", "too many bytes"))),
            6,
        ),
        VarOutcome::Done(v) => {
            if size < 1 || size - 1 > t.len() - used {
                (None, 0)
            } else {
                let data = copy_range(t, used, used + (size - 1));
                (Some(Ok(RawPacket { packet_id: (v as u32) as i32, data })), used + (size - 1))
            }
        },
    }
}

impl RawPacket {
    pub fn new(packet_id: i32, data: Vec<u8>) -> (p: Self)
        ensures
            p.packet_id == packet_id,
            p.data@ == data@,
    {
        RawPacket { packet_id, data }
    }

    /// Whether encoding under `compression` compresses the packet, judged from
    /// the data length and an estimate of the id's length.
    pub fn will_compress(&self, compression: PacketCompression) -> (b: bool)
        requires
            compression@ > 0 ==> i32::MIN <= (self.data@.len() as i32) + div_toward_zero(
                self.packet_id as int,
                128,
            ) + 1 <= i32::MAX,
        ensures
            b == (compression@ > 0 && (self.data@.len() as i32) + div_toward_zero(
                self.packet_id as int,
                128,
            ) + 1 >= compression@),
    {
        compression.threshold() > 0 && self.data.len() as i32 + (self.packet_id / 128 + 1)
            >= compression.threshold()
    }

    /// Writes the framed packet into `dst`, which must be empty.
    pub fn encode(&self, compression: PacketCompression, dst: &mut Vec<u8>)
        requires
            old(dst)@.len() == 0,
            self.data@.len() <= usize::MAX - 16,
        ensures
            final(dst)@ == frame_bytes(self.packet_id, self.data@, compression@),
            0 <= self.packet_id < 128 && self.data@.len() < i32::MAX && frame_body(
                self.packet_id,
                self.data@,
                compression@,
            ).len() <= i32::MAX ==> forall|rest: Seq<u8>|
                #[trigger] frame_decode(final(dst)@ + rest, compression@) == (
                    FrameOutcome::Decoded { packet_id: self.packet_id, data: self.data@ },
                    final(dst)@.len(),
                ),
    {
        let mut body: Vec<u8> = Vec::new();
        let packet_id_varint = varint::encode(self.packet_id);
        let packet_id_varint_length = packet_id_varint.len();
        if compression.is_enabled() {
            let uncompressed_length = packet_id_varint_length + self.data.len();
            if uncompressed_length as i32 >= compression.threshold() {
                varint::encode_into(uncompressed_length as i32, &mut body);
                let compressed = zlib_compress_fast(packet_id_varint.as_slice(), self.data.as_slice());
                body.extend_from_slice(compressed.as_slice());
            } else {
                body.push(0);
                body.extend_from_slice(packet_id_varint.as_slice());
                body.extend_from_slice(self.data.as_slice());
            }
        } else {
            body.extend_from_slice(packet_id_varint.as_slice());
            body.extend_from_slice(self.data.as_slice());
        }
        proof {
            assert(body@ =~= frame_body(self.packet_id, self.data@, compression@));
        }
        varint::encode_into(body.len() as i32, dst);
        dst.extend_from_slice(body.as_slice());
        proof {
            assert(final(dst)@ =~= frame_bytes(self.packet_id, self.data@, compression@));
            if 0 <= self.packet_id < 128 && self.data@.len() < i32::MAX && frame_body(
                self.packet_id,
                self.data@,
                compression@,
            ).len() <= i32::MAX {
                assert forall|rest: Seq<u8>|
                    #[trigger] frame_decode(final(dst)@ + rest, compression@) == (
                        FrameOutcome::Decoded { packet_id: self.packet_id, data: self.data@ },
                        final(dst)@.len(),
                    ) by {
                    frame_roundtrip(self.packet_id, self.data@, compression@, rest);
                }
            }
        }
    }

    /// Reads a frame from `s` without consuming; `None` where reading
    /// panics.
    fn decode_frame(s: &[u8], compression: PacketCompression) -> (r: (Option<DecodingResult<RawPacket>>, usize))
        ensures
            ({
                let (o, used) = frame_decode(s@, compression@);
                &&& r.0 is None <==> o is Panic
                &&& r.0 matches Some(res) ==> frame_result_is(res, o) && r.1 == used
            }),
    {
        let head_len = if s.len() <= 5 { s.len() } else { 5 };
        let head = copy_range(s, 0, head_len);
        proof {
            assert(head@ == if s@.len() <= 5 { s@ } else { s@.take(5) });
            assert(head@.skip(0) == head@);
            lemma_var_decode_bound(head@, 5);
        }
        let (o1, n1) = read_var(head.as_slice(), 0, 5);
        let length_value = match o1 {
            VarOutcome::Done(v) => v,
            _ => return (Some(Err(DecodingError::NotEnoughBytes)), head_len),
        };
        let length = (length_value as u32) as i32;
        if length < 0 {
            return (None, 0);
        }
        let length = length as usize;
        if s.len() - n1 < length {
            return (Some(Err(DecodingError::NotEnoughBytes)), n1);
        }
        let ghost rest = s@.skip(n1 as int);
        if compression.threshold() > 0 {
            let frame = &s[n1..n1 + length];
            proof {
                assert(frame@ == rest.take(length as int));
                assert(frame@.skip(0) == frame@);
                lemma_var_decode_bound(frame@, 5);
            }
            let (o2, n2) = read_var(frame, 0, 5);
            match o2 {
                VarOutcome::EndOfInput => {
                    (Some(Err(DecodingError::NotEnoughBytes)), n1 + length)
                },
                VarOutcome::TooLong => {
                    (Some(Err(DecodingError::parse_error("varint or varlong", "too many bytes"))), n1 + 6)
                },
                VarOutcome::Done(cl_value) => {
                    let content_length = (cl_value as u32) as i32;
                    if content_length == 0 {
                        let tail = &s[n1 + n2..s.len()];
                        proof {
                            assert(tail@ == s@.skip(n1 + n2));
                        }
                        let (o, used) = decode_content(tail, length - n2);
                        (o, n1 + n2 + used)
                    } else if content_length < 0 {
                        (None, 0)
                    } else {
                        let compressed = &frame[n2..length];
                        proof {
                            assert(compressed@ == frame@.skip(n2 as int));
                        }
                        match zlib_decompress(compressed) {
                            Err(e) => (Some(Err(DecodingError::from_io(e))), n1 + length),
                            Ok(uncompressed) => {
                                if uncompressed.len() != content_length as usize {
                                    (
                                        Some(Err(DecodingError::parse_error("raw packet", "content length does not match"))),
                                        n1 + length,
                                    )
                                } else {
                                    let (o, _used) = decode_content(
                                        uncompressed.as_slice(),
                                        uncompressed.len(),
                                    );
                                    match o {
                                        None => (None, 0),
                                        Some(res) => (Some(res), n1 + length),
                                    }
                                }
                            },
                        }
                    }
                },
            }
        } else {
            let tail = &s[n1..s.len()];
            proof {
                assert(tail@ == rest);
            }
            let (o, used) = decode_content(tail, length);
            (o, n1 + used)
        }
    }

    /// Reads a framed packet from the front of `bytes`, removing the bytes it
    /// reads; `NotEnoughBytes` says more input is needed. Where the frame is
    /// not all there yet, its length prefix is taken all the same.
    pub fn decode(bytes: &mut Vec<u8>, compression: PacketCompression) -> (r: DecodingResult<Self>)
        requires
            !(frame_decode(old(bytes)@, compression@).0 is Panic),
        ensures
            frame_result_is(r, frame_decode(old(bytes)@, compression@).0),
            final(bytes)@ == old(bytes)@.skip(frame_decode(old(bytes)@, compression@).1 as int),
    {
        let (o, used) = Self::decode_frame(bytes.as_slice(), compression);
        match o {
            Some(res) => {
                proof {
                    frame_decode_consumed_bound(bytes@, compression@);
                }
                let rest = bytes.split_off(used);
                *bytes = rest;
                res
            },
            None => {
                proof {
                    assert(false);
                }
                Err(DecodingError::NotEnoughBytes)
            },
        }
    }

    /// Reads a framed packet like `decode`, but first finds out whether
    /// reading would panic on `bytes`: then it returns `None` and leaves
    /// `bytes` as they are.
    pub fn decode_checked(bytes: &mut Vec<u8>, compression: PacketCompression) -> (r: Option<DecodingResult<Self>>)
        ensures
            r is None <==> frame_decode(old(bytes)@, compression@).0 is Panic,
            r is None ==> final(bytes)@ == old(bytes)@,
            r matches Some(res) ==> frame_result_is(res, frame_decode(old(bytes)@, compression@).0)
                && final(bytes)@ == old(bytes)@.skip(frame_decode(old(bytes)@, compression@).1 as int),
    {
        let (o, _used) = Self::decode_frame(bytes.as_slice(), compression);
        match o {
            None => None,
            Some(_) => Some(Self::decode(bytes, compression)),
        }
    }
}

/// A frame reader never takes more bytes than it was given.
pub proof fn frame_decode_consumed_bound(s: Seq<u8>, threshold: i32)
    ensures
        frame_decode(s, threshold).1 <= s.len(),
{
    let head = if s.len() <= 5 { s } else { s.take(5) };
    lemma_var_decode_bound(head, 5);
    if let VarDecode::Done { value, len: n1 } = var_decode(head, 5) {
        let length = (value as u32) as i32;
        let rest = s.skip(n1 as int);
        if length >= 0 && rest.len() >= length {
            if threshold > 0 {
                let frame = rest.take(length as int);
                lemma_var_decode_bound(frame, 5);
                lemma_var_too_long_len(frame, 5);
                if let VarDecode::Done { value: cl, len: n2 } = var_decode(frame, 5) {
                    if (cl as u32) as i32 == 0 {
                        lemma_content_decode_bound(s.skip((n1 + n2) as int), length - n2);
                    }
                }
            } else {
                lemma_content_decode_bound(rest, length as int);
            }
        }
    }
}

proof fn lemma_content_decode_bound(t: Seq<u8>, size: int)
    ensures
        content_decode(t, size).1 <= t.len(),
{
    lemma_var_decode_bound(t, 5);
    crate::data_types::encoder::lemma_var_too_long_len(t, 5);
}

proof fn lemma_var_too_long_len(s: Seq<u8>, budget: nat)
    ensures
        var_decode(s, budget) is TooLong ==> s.len() >= budget + 1,
{
    crate::data_types::encoder::lemma_var_too_long_len(s, budget);
}

} // verus!

verus! {

/// What a frame is, read with the plain VarInt reader: its length, the
/// number of bytes that follow; without compression, the packet id and then
/// the data; with compression, below the threshold a zero byte, the packet
/// id and the data, and from the threshold on the uncompressed length
/// (the id's bytes and the data's) before the compressed bytes.
pub proof fn frame_layout(packet_id: i32, data: Seq<u8>, threshold: i32)
    requires
        frame_body(packet_id, data, threshold).len() <= i32::MAX,
    ensures
        ({
            let f = frame_bytes(packet_id, data, threshold);
            let n = (f.len() - frame_body(packet_id, data, threshold).len()) as nat;
            let id = varint::spec_encode(packet_id);
            &&& read_varint_at(f, 0) == (Parsed::Value { value: (f.len() - n) as i32, pos: n })
            &&& threshold <= 0 ==> read_varint_at(f, n) == (Parsed::Value { value: packet_id, pos: n + id.len() })
                && f.skip((n + id.len()) as int) == data
            &&& threshold > 0 && ((id.len() + data.len()) as i32) < threshold ==> f[n as int] == 0
                && read_varint_at(f, n + 1) == (Parsed::Value { value: packet_id, pos: n + 1 + id.len() })
                && f.skip((n + 1 + id.len()) as int) == data
            &&& threshold > 0 && ((id.len() + data.len()) as i32) >= threshold ==> read_varint_at(f, n)
                == (Parsed::Value {
                value: (id.len() + data.len()) as i32,
                pos: n + varint::spec_encode((id.len() + data.len()) as i32).len(),
            })
        }),
{
    let body = frame_body(packet_id, data, threshold);
    let head = varint::spec_encode(body.len() as i32);
    let f = frame_bytes(packet_id, data, threshold);
    let n = head.len();
    let id = varint::spec_encode(packet_id);
    lemma_small_i32_cast(body.len());
    varint_roundtrip(body.len() as i32, Seq::empty(), body);
    assert(Seq::<u8>::empty() + head + body =~= f);
    if threshold > 0 {
        let ul = id.len() + data.len();
        if (ul as i32) >= threshold {
            let c = zlib_fast(id, data);
            varint_roundtrip(ul as i32, head, c);
            assert(head + varint::spec_encode(ul as i32) + c =~= f);
        } else {
            varint_roundtrip(packet_id, head + seq![0u8], data);
            assert(head + seq![0u8] + id + data =~= f);
            assert(f.skip((n + 1 + id.len()) as int) =~= data);
        }
    } else {
        varint_roundtrip(packet_id, head, data);
        assert(head + id + data =~= f);
        assert(f.skip((n + id.len()) as int) =~= data);
    }
}

/// A frame is read back as the packet it was made of, under the same
/// compression, whatever bytes follow it, taking exactly the frame's bytes;
/// for packet ids that take a single byte and sizes the length fields can
/// hold, provided the compressed form inflates to what was compressed (which
/// `RawPacket::encode` learns from the compressor).
#[verifier::rlimit(40)]
#[verifier::spinoff_prover]
pub proof fn frame_roundtrip(packet_id: i32, data: Seq<u8>, threshold: i32, rest: Seq<u8>)
    requires
        0 <= packet_id < 128,
        data.len() < i32::MAX,
        frame_body(packet_id, data, threshold).len() <= i32::MAX,
        threshold > 0 && ((varint::spec_encode(packet_id).len() + data.len()) as i32) >= threshold
            ==> zlib_inflated(zlib_fast(varint::spec_encode(packet_id), data)) == Some(
            varint::spec_encode(packet_id) + data,
        ),
    ensures
        frame_decode(frame_bytes(packet_id, data, threshold) + rest, threshold) == (
            FrameOutcome::Decoded { packet_id, data },
            frame_bytes(packet_id, data, threshold).len(),
        ),
{
    let body = frame_body(packet_id, data, threshold);
    let big = body.len();
    let len_bytes = varint::spec_encode(big as i32);
    let s = frame_bytes(packet_id, data, threshold) + rest;
    assert(len_bytes == var_bytes(big)) by {
        lemma_small_i32_cast(big);
    }
    lemma_pow128_five();
    lemma_var_bytes_len(big, 5);
    let n1 = len_bytes.len();
    assert(s == len_bytes + (body + rest));
    let head = if s.len() <= 5 { s } else { s.take(5) };
    if s.len() <= 5 {
        lemma_var_roundtrip(big, body + rest, 5);
    } else {
        assert(head == len_bytes + (body + rest).take(5 - n1));
        lemma_var_roundtrip(big, (body + rest).take(5 - n1), 5);
    }
    lemma_small_i32_cast(big);
    assert(s.skip(n1 as int) == body + rest);
    let id = varint::spec_encode(packet_id);
    assert(id == seq![packet_id as u8]) by {
        assert(var_bytes(packet_id as nat) == seq![packet_id as u8]);
    }
    if threshold > 0 {
        let ul = id.len() + data.len();
        let frame = (body + rest).take(big as int);
        assert(frame == body);
        if (ul as i32) >= threshold {
            lemma_small_i32_cast(ul);
            lemma_var_bytes_len(ul, 5);
            let ul_bytes = var_bytes(ul);
            let z = zlib_fast(id, data);
            assert(body == ul_bytes + z);
            lemma_var_roundtrip(ul, z, 5);
            assert(frame.skip(ul_bytes.len() as int) == z);
            let u = id + data;
            assert(u[0] == packet_id as u8);
            assert(var_decode(u, 5) == (VarDecode::Done { value: packet_id as nat, len: 1 }));
            assert(u.subrange(1, 1 + u.len() - 1) == data);
            assert(content_decode(u, u.len() as int) == (FrameOutcome::Decoded { packet_id, data }, u.len()));
            assert(var_decode(frame, 5) == (VarDecode::Done { value: ul, len: ul_bytes.len() }));
            assert(zlib_inflated(frame.skip(ul_bytes.len() as int)) == Some(u));
            assert(frame_decode(s, threshold).0 == FrameOutcome::Decoded { packet_id, data });
        } else {
            assert(body == seq![0u8] + id + data);
            assert(var_decode(frame, 5) == (VarDecode::Done { value: 0, len: 1 }));
            let t = s.skip((n1 + 1) as int);
            assert(t == id + data + rest);
            assert(t[0] == packet_id as u8);
            assert(var_decode(t, 5) == (VarDecode::Done { value: packet_id as nat, len: 1 }));
            assert(t.subrange(1, (1 + data.len()) as int) == data);
            assert(content_decode(t, big - 1) == (FrameOutcome::Decoded { packet_id, data }, 1 + data.len()));
            assert(frame_decode(s, threshold).0 == FrameOutcome::Decoded { packet_id, data });
        }
    } else {
        assert(body == id + data);
        let t = body + rest;
        assert(t[0] == packet_id as u8);
        assert(var_decode(t, 5) == (VarDecode::Done { value: packet_id as nat, len: 1 }));
        assert(t.subrange(1, (1 + data.len()) as int) == data);
        assert(content_decode(t, big as int) == (FrameOutcome::Decoded { packet_id, data }, big));
        assert(frame_decode(s, threshold).0 == FrameOutcome::Decoded { packet_id, data });
    }
}

/// Small non-negative numbers survive the trip through `i32` and `u32`.
pub proof fn lemma_small_i32_cast(v: nat)
    requires
        v <= i32::MAX,
    ensures
        (v as i32) as u32 == v,
        ((v as u32) as i32) == v,
        varint::spec_encode(v as i32) == var_bytes(v),
{
}

proof fn lemma_pow128_five()
    ensures
        pow128(5) == 0x800000000,
{
    reveal_with_fuel(pow128, 6);
}

} // verus!
