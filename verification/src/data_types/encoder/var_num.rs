//! Variable-length integers as the protocol writes them: groups of seven
//! bits, least significant group first, the high bit of every byte but the
//! last one set.
use vstd::prelude::*;

verus! {

/// 128 to the power `n`.
pub open spec fn pow128(n: nat) -> nat
    decreases n,
{
    if n == 0 {
        1
    } else {
        128 * pow128((n - 1) as nat)
    }
}

/// The bytes that encode the unsigned value `v`.
pub open spec fn var_bytes(v: nat) -> Seq<u8>
    decreases v,
{
    if v < 128 {
        seq![v as u8]
    } else {
        seq![(v % 128 + 128) as u8] + var_bytes(v / 128)
    }
}

/// What reading a variable-length integer from the front of `s` gives, when
/// at most `budget` bytes may carry the continuation bit before the reader
/// gives up.
pub enum VarDecode {
    /// The value that was read and the number of bytes it took.
    Done { value: nat, len: nat },
    /// The bytes ran out before the last byte of the number.
    EndOfInput,
    /// One byte more than the budget was read.
    TooLong,
}

pub open spec fn var_decode(s: Seq<u8>, budget: nat) -> VarDecode
    decreases s.len(),
{
    if s.len() == 0 {
        VarDecode::EndOfInput
    } else if budget == 0 {
        VarDecode::TooLong
    } else if s[0] < 128 {
        VarDecode::Done { value: s[0] as nat, len: 1 }
    } else {
        match var_decode(s.drop_first(), (budget - 1) as nat) {
            VarDecode::Done { value, len } => VarDecode::Done {
                value: ((s[0] - 128) + 128 * value) as nat,
                len: len + 1,
            },
            other => other,
        }
    }
}

/// How many bytes the reader takes from `s`, whatever the outcome.
pub open spec fn var_consumed(s: Seq<u8>, budget: nat) -> nat {
    match var_decode(s, budget) {
        VarDecode::Done { len, .. } => len,
        VarDecode::EndOfInput => s.len(),
        VarDecode::TooLong => budget + 1,
    }
}

/// `r`, read after `i` bytes that carried the continuation bit and the low
/// bits `acc` (whose weight of the next group is `mult`).
pub open spec fn var_lift(r: VarDecode, acc: nat, mult: nat, i: nat) -> VarDecode {
    match r {
        VarDecode::Done { value, len } => VarDecode::Done { value: acc + mult * value, len: len + i },
        other => other,
    }
}

pub proof fn lemma_pow128_pos(n: nat)
    ensures
        pow128(n) >= 1,
    decreases n,
{
    if n > 0 {
        lemma_pow128_pos((n - 1) as nat);
    }
}

pub proof fn lemma_pow128_mono(a: nat, b: nat)
    requires
        a <= b,
    ensures
        pow128(a) <= pow128(b),
    decreases b,
{
    if a < b {
        lemma_pow128_mono(a, (b - 1) as nat);
        lemma_pow128_pos((b - 1) as nat);
    }
}

proof fn lemma_pow128_ten()
    ensures
        pow128(10) == 0x400000000000000000,
        pow128(5) == 0x800000000,
{
    reveal_with_fuel(pow128, 11);
}

/// An encoding has at most `k` bytes when the value is below `128^k`.
pub proof fn lemma_var_bytes_len(v: nat, k: nat)
    requires
        k >= 1,
        v < pow128(k),
    ensures
        var_bytes(v).len() <= k,
        var_bytes(v).len() >= 1,
    decreases v,
{
    if v >= 128 {
        assert(k >= 2) by {
            if k == 1 {
                assert(pow128(1) == 128) by {
                    reveal_with_fuel(pow128, 2);
                }
            }
        }
        assert(v / 128 < pow128((k - 1) as nat)) by {
            assert(pow128(k) == 128 * pow128((k - 1) as nat));
        }
        lemma_var_bytes_len(v / 128, (k - 1) as nat);
    }
}

/// The last byte of an encoding is the only one without the continuation bit.
pub proof fn lemma_var_bytes_shape(v: nat)
    ensures
        var_bytes(v).len() >= 1,
        var_bytes(v)[var_bytes(v).len() - 1] < 128,
        forall|i: int| 0 <= i < var_bytes(v).len() - 1 ==> var_bytes(v)[i] >= 128,
    decreases v,
{
    if v >= 128 {
        lemma_var_bytes_shape(v / 128);
        let rest = var_bytes(v / 128);
        let s = var_bytes(v);
        assert(s == seq![(v % 128 + 128) as u8] + rest);
        assert forall|i: int| 0 <= i < s.len() - 1 implies s[i] >= 128 by {
            if i > 0 {
                assert(s[i] == rest[i - 1]);
            }
        }
    }
}

/// Reading an encoding gives back the value, whatever follows it, as long as
/// the budget covers the encoding.
pub proof fn lemma_var_roundtrip(v: nat, rest: Seq<u8>, budget: nat)
    requires
        var_bytes(v).len() <= budget,
    ensures
        var_decode(var_bytes(v) + rest, budget) == (VarDecode::Done {
            value: v,
            len: var_bytes(v).len(),
        }),
    decreases v,
{
    let s = var_bytes(v) + rest;
    if v < 128 {
        assert(s[0] == v as u8);
    } else {
        lemma_var_roundtrip(v / 128, rest, (budget - 1) as nat);
        assert(s.drop_first() == var_bytes(v / 128) + rest);
        assert(s[0] == (v % 128 + 128) as u8);
        assert((s[0] - 128) + 128 * (v / 128) == v);
    }
}

/// One continuation byte at the front peels off as a lift.
proof fn lemma_var_decode_step(s: Seq<u8>, budget: nat)
    requires
        s.len() > 0,
        budget > 0,
        s[0] >= 128,
    ensures
        var_decode(s, budget) == var_lift(
            var_decode(s.drop_first(), (budget - 1) as nat),
            (s[0] - 128) as nat,
            128,
            1,
        ),
{
}

proof fn lemma_var_lift_compose(r: VarDecode, acc: nat, mult: nat, i: nat, d: nat)
    ensures
        var_lift(var_lift(r, d, 128, 1), acc, mult, i) == var_lift(r, acc + mult * d, mult * 128, i + 1),
{
    if let VarDecode::Done { value, len } = r {
        assert(acc + mult * (d + 128 * value) == (acc + mult * d) + (mult * 128) * value)
            by (nonlinear_arith);
    }
}

/// A decoded value is below `128^len`.
pub proof fn lemma_var_decode_bound(s: Seq<u8>, budget: nat)
    ensures
        var_decode(s, budget) matches VarDecode::Done { value, len } ==> value < pow128(len) && 1
            <= len <= budget && len <= s.len(),
    decreases s.len(),
{
    if s.len() > 0 && budget > 0 && s[0] >= 128 {
        lemma_var_decode_bound(s.drop_first(), (budget - 1) as nat);
        if let VarDecode::Done { value, len } = var_decode(s.drop_first(), (budget - 1) as nat) {
            assert(pow128(len + 1) == 128 * pow128(len));
            assert((s[0] - 128) + 128 * value < 128 * pow128(len)) by (nonlinear_arith)
                requires
                    s[0] - 128 < 128,
                    value < pow128(len),
            ;
        }
    } else if s.len() > 0 && budget > 0 {
        assert(pow128(1) == 128) by {
            reveal_with_fuel(pow128, 2);
        }
    }
}

/// Outcome of reading a variable-length integer from a byte slice.
pub enum VarOutcome {
    Done(u128),
    EndOfInput,
    TooLong,
}

pub open spec fn var_outcome_matches(o: VarOutcome, d: VarDecode) -> bool {
    match (o, d) {
        (VarOutcome::Done(v), VarDecode::Done { value, .. }) => v == value,
        (VarOutcome::EndOfInput, VarDecode::EndOfInput) => true,
        (VarOutcome::TooLong, VarDecode::TooLong) => true,
        _ => false,
    }
}

/// Reads a variable-length integer from `data[start..]`, taking at most
/// `limit` bytes that carry the continuation bit; returns the outcome and how
/// many bytes were taken.
pub fn read_var(data: &[u8], start: usize, limit: usize) -> (r: (VarOutcome, usize))
    requires
        start <= data@.len(),
        1 <= limit <= 10,
    ensures
        var_outcome_matches(r.0, var_decode(data@.skip(start as int), limit as nat)),
        r.1 == var_consumed(data@.skip(start as int), limit as nat),
{
    let ghost s = data@.skip(start as int);
    let mut acc: u128 = 0;
    let mut mult: u128 = 1;
    let mut i: usize = 0;
    proof {
        lemma_pow128_ten();
        assert(s.skip(0) == s);
    }
    loop
        invariant
            start <= data@.len(),
            s == data@.skip(start as int),
            1 <= limit <= 10,
            i <= limit,
            start + i <= data@.len(),
            mult == pow128(i as nat),
            acc < mult,
            pow128(10) == 0x400000000000000000,
            var_decode(s, limit as nat) == var_lift(
                var_decode(s.skip(i as int), (limit - i) as nat),
                acc as nat,
                mult as nat,
                i as nat,
            ),
            forall|j: int| 0 <= j < i ==> s[j] >= 128,
        decreases limit - i,
    {
        let ghost t = s.skip(i as int);
        if i >= data.len() - start {
            proof {
                assert(t.len() == 0);
            }
            return (VarOutcome::EndOfInput, data.len() - start);
        }
        let b = data[start + i];
        assert(t[0] == b);
        if i == limit {
            return (VarOutcome::TooLong, limit + 1);
        }
        proof {
            lemma_pow128_mono(i as nat, 10);
        }
        if b < 128 {
            assert(mult * (b as u128) <= 0x400000000000000000 * 127) by (nonlinear_arith)
                requires
                    b < 128,
                    mult <= 0x400000000000000000,
            ;
            let value = acc + mult * (b as u128);
            return (VarOutcome::Done(value), i + 1);
        }
        proof {
            lemma_var_decode_step(t, (limit - i) as nat);
            assert(t.drop_first() == s.skip(i + 1));
            lemma_var_lift_compose(
                var_decode(s.skip(i + 1), (limit - i - 1) as nat),
                acc as nat,
                mult as nat,
                i as nat,
                (b - 128) as nat,
            );
            lemma_pow128_mono((i + 1) as nat, 10);
            assert(pow128((i + 1) as nat) == 128 * pow128(i as nat));
            assert(mult * (b - 128) <= 0x400000000000000000 * 127) by (nonlinear_arith)
                requires
                    b - 128 < 128,
                    mult <= 0x400000000000000000,
            ;
            assert(acc + mult * (b - 128) < mult * 128) by (nonlinear_arith)
                requires
                    acc < mult,
                    b - 128 < 128,
            ;
        }
        acc = acc + mult * ((b - 128) as u128);
        mult = mult * 128;
        i = i + 1;
    }
}

/// Appends the encoding of `v` to `out` and returns the number of bytes
/// appended.
pub fn write_var(v: u64, out: &mut Vec<u8>) -> (written: usize)
    ensures
        final(out)@ == old(out)@ + var_bytes(v as nat),
        written == var_bytes(v as nat).len(),
        1 <= written <= 10,
{
    let mut val = v;
    let mut written: usize = 0;
    proof {
        lemma_pow128_ten();
        lemma_var_bytes_len(v as nat, 10);
    }
    loop
        invariant_except_break
            out@ + var_bytes(val as nat) == old(out)@ + var_bytes(v as nat),
            written + var_bytes(val as nat).len() == var_bytes(v as nat).len(),
            var_bytes(v as nat).len() <= 10,
        ensures
            out@ == old(out)@ + var_bytes(v as nat),
            written == var_bytes(v as nat).len(),
        decreases val,
    {
        let ghost old_out = out@;
        let low = val & 0x7f;
        let hi = val >> 7;
        assert(low == val % 128 && hi == val / 128) by (bit_vector)
            requires
                low == val & 0x7f,
                hi == val >> 7,
        ;
        let mut temp = low as u8;
        val = hi;
        if val != 0 {
            let t = temp;
            temp = temp | 0x80;
            assert(temp == t + 128) by (bit_vector)
                requires
                    t < 128,
                    temp == t | 0x80,
            ;
        }
        out.push(temp);
        written = written + 1;
        proof {
            let prev = (low + 128 * hi) as nat;
            assert(prev == val * 128 + low);
            if hi == 0 {
                assert(var_bytes(prev) == seq![temp]);
                assert(out@ == old_out + var_bytes(prev));
            } else {
                assert(var_bytes(prev) == seq![temp] + var_bytes(hi as nat));
                assert(out@ + var_bytes(hi as nat) == old_out + var_bytes(prev));
            }
        }
        if val == 0 {
            break;
        }
    }
    written
}

} // verus!
