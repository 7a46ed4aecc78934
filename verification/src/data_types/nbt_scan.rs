//! A walk over NBT bytes that finds where the data ends and whether a reader
//! that trusts its length fields can take them.
//!
//! NBT (named binary tags) is a tree of tagged values. Arrays and lists carry
//! a signed 32-bit length, which a trusting reader hands to an allocation
//! before it reads a single element: a negative length makes it panic, and a
//! huge one asks for more memory than exists. Every level of nesting is one
//! more recursive call. The walk here visits the values in the order such a
//! reader does and stops at the first thing that goes wrong.
use super::encoder::fixed::{be_read, be_value, lemma_be_value_bound, lemma_pow256_values};
use vstd::prelude::*;

verus! {

/// Whether `nbt::Value::from_reader`, asked for a value with tag `tag`,
/// reads `bytes` without error; for the string tag 8, a two-byte length and
/// that many bytes of Java's modified UTF-8.
pub uninterp spec fn nbt_value_readable(tag: u8, bytes: Seq<u8>) -> bool;

/// Calls `nbt::Value::from_reader` with `tag` on `bytes`. Claimed: it
/// succeeds exactly when `nbt_value_readable` holds of the tag and the bytes
/// (the reader is a pure function of its input). Only the string tag is
/// admitted: a string is at most 65535 bytes long, so the buffer the reader
/// fills is small and the call returns on every input.
#[verifier::external_body]
fn read_nbt_value(tag: u8, bytes: &[u8]) -> (ok: bool)
    requires
        tag == 8,
    ensures
        ok == nbt_value_readable(tag, bytes@),
{
    nbt::Value::from_reader(tag, &mut std::io::Cursor::new(bytes)).is_ok()
}

/// Where a walk over NBT bytes stops.
pub enum NbtScan {
    /// The value ends just before `end`.
    Done { end: nat },
    /// The input is cut short or malformed: the reader reports an error.
    Error,
    /// A length field is negative: the reader's allocation panics.
    Negative,
    /// A length field promised more elements than bytes remained, and the
    /// reader, having allocated for them, runs out of input: an error, but
    /// one the reader is not asked to reach.
    Overrun,
    /// The nesting is deeper than `nbt_max_depth`: the walk refuses to go on.
    Refused,
}

/// The deepest nesting the walk follows.
pub open spec fn nbt_max_depth() -> nat {
    512
}

/// The `k`-byte big-endian number at `pos`.
pub open spec fn be_at(s: Seq<u8>, pos: nat, k: nat) -> nat {
    be_value(s.subrange(pos as int, (pos + k) as int))
}

/// A value of `k` bytes.
pub open spec fn scan_fixed(s: Seq<u8>, pos: nat, k: nat) -> NbtScan {
    if pos + k <= s.len() {
        NbtScan::Done { end: pos + k }
    } else {
        NbtScan::Error
    }
}

/// An array: a signed 32-bit count, then that many elements of `k` bytes.
pub open spec fn scan_array(s: Seq<u8>, pos: nat, k: nat) -> NbtScan {
    if pos + 4 > s.len() {
        NbtScan::Error
    } else {
        let n = be_at(s, pos, 4);
        if n >= 0x8000_0000 {
            NbtScan::Negative
        } else if pos + 4 + n > s.len() {
            NbtScan::Overrun
        } else if pos + 4 + n * k > s.len() {
            NbtScan::Error
        } else {
            NbtScan::Done { end: pos + 4 + n * k }
        }
    }
}

/// A string: an unsigned 16-bit byte count, then the bytes, which must be
/// valid modified UTF-8.
pub open spec fn scan_string(s: Seq<u8>, pos: nat) -> NbtScan {
    if pos + 2 > s.len() {
        NbtScan::Error
    } else {
        let n = be_at(s, pos, 2);
        if n == 0 {
            NbtScan::Done { end: pos + 2 }
        } else if pos + 2 + n > s.len() {
            NbtScan::Error
        } else if nbt_value_readable(8, s.subrange(pos as int, (pos + 2 + n) as int)) {
            NbtScan::Done { end: pos + 2 + n }
        } else {
            NbtScan::Error
        }
    }
}

/// How a list that promised more elements than bytes remain ends: its
/// elements are read until something goes wrong, which is a panic or a
/// refusal where those come first, and else the list's overrun.
pub open spec fn overrun(r: NbtScan) -> NbtScan {
    match r {
        NbtScan::Negative => NbtScan::Negative,
        NbtScan::Refused => NbtScan::Refused,
        _ => NbtScan::Overrun,
    }
}

/// The payload of a value with tag `id` at `pos`, with `depth` more levels
/// of nesting allowed inside it.
pub open spec fn scan_value(s: Seq<u8>, pos: nat, id: u8, depth: nat) -> NbtScan
    decreases depth, 2nat, 0int,
{
    if id == 1 {
        scan_fixed(s, pos, 1)
    } else if id == 2 {
        scan_fixed(s, pos, 2)
    } else if id == 3 || id == 5 {
        scan_fixed(s, pos, 4)
    } else if id == 4 || id == 6 {
        scan_fixed(s, pos, 8)
    } else if id == 7 {
        scan_array(s, pos, 1)
    } else if id == 8 {
        scan_string(s, pos)
    } else if id == 9 {
        if pos + 5 > s.len() {
            NbtScan::Error
        } else {
            let n = be_at(s, pos + 1, 4);
            if n >= 0x8000_0000 {
                NbtScan::Negative
            } else if pos + 5 + n > s.len() {
                overrun(scan_items(s, pos + 5, s[pos as int], n, depth))
            } else {
                scan_items(s, pos + 5, s[pos as int], n, depth)
            }
        }
    } else if id == 10 {
        scan_entries(s, pos, depth)
    } else if id == 11 {
        scan_array(s, pos, 4)
    } else if id == 12 {
        scan_array(s, pos, 8)
    } else {
        NbtScan::Error
    }
}

/// The `count` remaining elements of a list, each with tag `id`.
pub open spec fn scan_items(s: Seq<u8>, pos: nat, id: u8, count: nat, depth: nat) -> NbtScan
    decreases depth, 1nat, count as int,
{
    if count == 0 {
        NbtScan::Done { end: pos }
    } else if depth == 0 {
        NbtScan::Refused
    } else {
        match scan_value(s, pos, id, (depth - 1) as nat) {
            NbtScan::Done { end } => scan_items(s, end, id, (count - 1) as nat, depth),
            other => other,
        }
    }
}

/// The remaining entries of a compound: each a tag, a name and a payload,
/// until a zero tag.
pub open spec fn scan_entries(s: Seq<u8>, pos: nat, depth: nat) -> NbtScan
    decreases depth, 1nat, s.len() - pos,
{
    if pos >= s.len() {
        NbtScan::Error
    } else if s[pos as int] == 0 {
        NbtScan::Done { end: pos + 1 }
    } else {
        match scan_string(s, pos + 1) {
            NbtScan::Done { end } => {
                if depth == 0 {
                    NbtScan::Refused
                } else {
                    match scan_value(s, end, s[pos as int], (depth - 1) as nat) {
                        NbtScan::Done { end: next } => {
                            if next <= pos || next > s.len() {
                                NbtScan::Error
                            } else {
                                scan_entries(s, next, depth)
                            }
                        },
                        other => other,
                    }
                }
            },
            other => other,
        }
    }
}

/// A whole blob: a compound tag, its name, and its entries.
pub open spec fn scan_blob(s: Seq<u8>) -> NbtScan {
    if s.len() == 0 || s[0] == 0 {
        NbtScan::Error
    } else {
        match scan_string(s, 1) {
            NbtScan::Done { end } => {
                if s[0] != 10 {
                    NbtScan::Error
                } else {
                    scan_entries(s, end, nbt_max_depth())
                }
            },
            other => other,
        }
    }
}

/// Whether a reader that trusts the length fields returns on `s`: the walk
/// ends, or stops at an error, before any length or nesting goes wrong.
pub open spec fn nbt_reader_returns(s: Seq<u8>) -> bool {
    scan_blob(s) is Done || scan_blob(s) is Error
}

/// Where a walk stopped, with the end as an index.
pub enum ScanOutcome {
    Done(usize),
    Error,
    Negative,
    Overrun,
    Refused,
}

impl View for ScanOutcome {
    type V = NbtScan;

    open spec fn view(&self) -> NbtScan {
        match self {
            ScanOutcome::Done(end) => NbtScan::Done { end: *end as nat },
            ScanOutcome::Error => NbtScan::Error,
            ScanOutcome::Negative => NbtScan::Negative,
            ScanOutcome::Overrun => NbtScan::Overrun,
            ScanOutcome::Refused => NbtScan::Refused,
        }
    }
}

/// A result whose end, if any, lies within `s`.
pub open spec fn ends_within(r: ScanOutcome, len: nat) -> bool {
    r matches ScanOutcome::Done(end) ==> end <= len
}

fn read_be(s: &[u8], pos: usize, k: usize) -> (v: u128)
    requires
        k <= 4,
        pos + k <= s.len(),
    ensures
        v == be_at(s@, pos as nat, k as nat),
        v < 0x1_0000_0000,
{
    let v = be_read(s, pos, k);
    proof {
        lemma_pow256_values();
        lemma_be_value_bound(s@.subrange(pos as int, pos + k));
        super::encoder::fixed::lemma_pow256_mono(k as nat, 4);
    }
    v
}

fn check_fixed(s: &[u8], pos: usize, k: usize) -> (r: ScanOutcome)
    requires
        pos <= s.len(),
        k <= 8,
    ensures
        r@ == scan_fixed(s@, pos as nat, k as nat),
        ends_within(r, s.len() as nat),
{
    if k <= s.len() - pos {
        ScanOutcome::Done(pos + k)
    } else {
        ScanOutcome::Error
    }
}

fn check_array(s: &[u8], pos: usize, k: usize) -> (r: ScanOutcome)
    requires
        pos <= s.len(),
        1 <= k <= 8,
    ensures
        r@ == scan_array(s@, pos as nat, k as nat),
        ends_within(r, s.len() as nat),
{
    if s.len() - pos < 4 {
        return ScanOutcome::Error;
    }
    let n = read_be(s, pos, 4);
    let rest = (s.len() - pos - 4) as u128;
    assert(n * (k as u128) <= 0x1_0000_0000 * 8) by (nonlinear_arith)
        requires
            n < 0x1_0000_0000,
            k <= 8,
    ;
    if n >= 0x8000_0000 {
        ScanOutcome::Negative
    } else if n > rest {
        ScanOutcome::Overrun
    } else if n * (k as u128) > rest {
        ScanOutcome::Error
    } else {
        ScanOutcome::Done(pos + 4 + (n * (k as u128)) as usize)
    }
}

fn check_string(s: &[u8], pos: usize) -> (r: ScanOutcome)
    requires
        pos <= s.len(),
    ensures
        r@ == scan_string(s@, pos as nat),
        ends_within(r, s.len() as nat),
{
    if s.len() - pos < 2 {
        return ScanOutcome::Error;
    }
    let n = read_be(s, pos, 2);
    if n == 0 {
        return ScanOutcome::Done(pos + 2);
    }
    if n > (s.len() - pos - 2) as u128 {
        return ScanOutcome::Error;
    }
    let end = pos + 2 + n as usize;
    let field = vstd::slice::slice_subrange(s, pos, end);
    if read_nbt_value(8, field) {
        ScanOutcome::Done(end)
    } else {
        ScanOutcome::Error
    }
}

fn check_value(s: &[u8], pos: usize, id: u8, depth: usize) -> (r: ScanOutcome)
    requires
        pos <= s.len(),
    ensures
        r@ == scan_value(s@, pos as nat, id, depth as nat),
        ends_within(r, s.len() as nat),
    decreases depth, 1nat,
{
    if id == 1 {
        check_fixed(s, pos, 1)
    } else if id == 2 {
        check_fixed(s, pos, 2)
    } else if id == 3 || id == 5 {
        check_fixed(s, pos, 4)
    } else if id == 4 || id == 6 {
        check_fixed(s, pos, 8)
    } else if id == 7 {
        check_array(s, pos, 1)
    } else if id == 8 {
        check_string(s, pos)
    } else if id == 9 {
        if s.len() - pos < 5 {
            return ScanOutcome::Error;
        }
        let n = read_be(s, pos + 1, 4);
        if n >= 0x8000_0000 {
            ScanOutcome::Negative
        } else if n > (s.len() - pos - 5) as u128 {
            match check_items(s, pos + 5, s[pos], n as usize, depth) {
                ScanOutcome::Negative => ScanOutcome::Negative,
                ScanOutcome::Refused => ScanOutcome::Refused,
                _ => ScanOutcome::Overrun,
            }
        } else {
            check_items(s, pos + 5, s[pos], n as usize, depth)
        }
    } else if id == 10 {
        check_entries(s, pos, depth)
    } else if id == 11 {
        check_array(s, pos, 4)
    } else if id == 12 {
        check_array(s, pos, 8)
    } else {
        ScanOutcome::Error
    }
}

fn check_items(s: &[u8], pos: usize, id: u8, count: usize, depth: usize) -> (r: ScanOutcome)
    requires
        pos <= s.len(),
    ensures
        r@ == scan_items(s@, pos as nat, id, count as nat, depth as nat),
        ends_within(r, s.len() as nat),
    decreases depth, 0nat,
{
    if count == 0 {
        return ScanOutcome::Done(pos);
    }
    if depth == 0 {
        return ScanOutcome::Refused;
    }
    let mut p = pos;
    let mut left = count;
    while left > 0
        invariant
            p <= s.len(),
            depth > 0,
            scan_items(s@, pos as nat, id, count as nat, depth as nat) == scan_items(
                s@,
                p as nat,
                id,
                left as nat,
                depth as nat,
            ),
        decreases left,
    {
        match check_value(s, p, id, depth - 1) {
            ScanOutcome::Done(end) => {
                p = end;
                left = left - 1;
            },
            other => {
                return other;
            },
        }
    }
    ScanOutcome::Done(p)
}

fn check_entries(s: &[u8], pos: usize, depth: usize) -> (r: ScanOutcome)
    requires
        pos <= s.len(),
    ensures
        r@ == scan_entries(s@, pos as nat, depth as nat),
        ends_within(r, s.len() as nat),
    decreases depth, 0nat,
{
    let mut p = pos;
    loop
        invariant
            p <= s.len(),
            scan_entries(s@, pos as nat, depth as nat) == scan_entries(s@, p as nat, depth as nat),
        decreases s.len() - p,
    {
        if p >= s.len() {
            return ScanOutcome::Error;
        }
        let tag = s[p];
        if tag == 0 {
            return ScanOutcome::Done(p + 1);
        }
        let name_end = match check_string(s, p + 1) {
            ScanOutcome::Done(end) => end,
            other => {
                return other;
            },
        };
        if depth == 0 {
            return ScanOutcome::Refused;
        }
        match check_value(s, name_end, tag, depth - 1) {
            ScanOutcome::Done(next) => {
                if next <= p {
                    return ScanOutcome::Error;
                }
                p = next;
            },
            other => {
                return other;
            },
        }
    }
}

/// Walks a whole blob the way a trusting reader would.
pub fn scan_nbt(s: &[u8]) -> (r: ScanOutcome)
    ensures
        r@ == scan_blob(s@),
        ends_within(r, s.len() as nat),
{
    if s.len() == 0 || s[0] == 0 {
        return ScanOutcome::Error;
    }
    match check_string(s, 1) {
        ScanOutcome::Done(end) => {
            if s[0] != 10 {
                ScanOutcome::Error
            } else {
                check_entries(s, end, 512)
            }
        },
        other => other,
    }
}

} // verus!
