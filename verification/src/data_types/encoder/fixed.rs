//! Fixed-width integers in network (big-endian) byte order.
use vstd::prelude::*;
use vstd::arithmetic::div_mod::lemma_breakdown;

verus! {

/// 256 to the power `n`.
pub open spec fn pow256(n: nat) -> nat
    decreases n,
{
    if n == 0 {
        1
    } else {
        256 * pow256((n - 1) as nat)
    }
}

/// The `k` low-order bytes of `v`, most significant first.
pub open spec fn be_bytes(v: nat, k: nat) -> Seq<u8>
    decreases k,
{
    if k == 0 {
        Seq::empty()
    } else {
        be_bytes(v / 256, (k - 1) as nat).push((v % 256) as u8)
    }
}

/// The number whose big-endian bytes are `s`.
pub open spec fn be_value(s: Seq<u8>) -> nat
    decreases s.len(),
{
    if s.len() == 0 {
        0
    } else {
        be_value(s.drop_last()) * 256 + s.last() as nat
    }
}

/// One byte is the value itself.
pub proof fn lemma_be_bytes_one(v: nat)
    requires
        v < 256,
    ensures
        be_bytes(v, 1) == seq![v as u8],
{
    reveal_with_fuel(be_bytes, 2);
    assert(be_bytes(v / 256, 0) =~= Seq::<u8>::empty());
    assert(v % 256 == v);
    assert(be_bytes(v, 1) =~= seq![v as u8]);
}

pub proof fn lemma_pow256_pos(n: nat)
    ensures
        pow256(n) >= 1,
    decreases n,
{
    if n > 0 {
        lemma_pow256_pos((n - 1) as nat);
    }
}

pub proof fn lemma_pow256_values()
    ensures
        pow256(1) == 0x100,
        pow256(2) == 0x10000,
        pow256(4) == 0x1_0000_0000,
        pow256(8) == 0x1_0000_0000_0000_0000,
        pow256(16) == 0x1_0000_0000_0000_0000_0000_0000_0000_0000,
{
    reveal_with_fuel(pow256, 17);
}

pub proof fn lemma_be_bytes_len(v: nat, k: nat)
    ensures
        be_bytes(v, k).len() == k,
    decreases k,
{
    if k > 0 {
        lemma_be_bytes_len(v / 256, (k - 1) as nat);
    }
}

/// The value of `k` bytes is below `256^k`.
pub proof fn lemma_be_value_bound(s: Seq<u8>)
    ensures
        be_value(s) < pow256(s.len()),
    decreases s.len(),
{
    if s.len() > 0 {
        lemma_be_value_bound(s.drop_last());
        let p = pow256((s.len() - 1) as nat);
        assert(be_value(s.drop_last()) * 256 + s.last() < 256 * p) by (nonlinear_arith)
            requires
                be_value(s.drop_last()) < p,
                s.last() < 256,
        ;
    }
}

/// Reading back `k` written bytes gives the value modulo `256^k`.
pub proof fn lemma_be_roundtrip(v: nat, k: nat)
    ensures
        be_value(be_bytes(v, k)) == v % pow256(k),
    decreases k,
{
    if k == 0 {
        assert(v % 1 == 0);
    } else {
        lemma_be_roundtrip(v / 256, (k - 1) as nat);
        let s = be_bytes(v, k);
        assert(s.drop_last() == be_bytes(v / 256, (k - 1) as nat));
        lemma_pow256_pos((k - 1) as nat);
        lemma_breakdown(v as int, 256, pow256((k - 1) as nat) as int);
    }
}

/// The bytes of `v` are the bytes of its value modulo `256^k`.
pub proof fn lemma_be_bytes_mod(v: nat, k: nat)
    ensures
        be_bytes(v, k) == be_bytes(v % pow256(k), k),
    decreases k,
{
    if k > 0 {
        lemma_pow256_pos((k - 1) as nat);
        lemma_breakdown(v as int, 256, pow256((k - 1) as nat) as int);
        let m = v % pow256(k);
        assert(m % 256 == v % 256) by {
            vstd::arithmetic::div_mod::lemma_mod_mod(v as int, 256, pow256((k - 1) as nat) as int);
        }
        assert(m / 256 == (v / 256) % pow256((k - 1) as nat)) by {
            vstd::arithmetic::div_mod::lemma_fundamental_div_mod(m as int, 256);
        }
        lemma_be_bytes_mod(v / 256, (k - 1) as nat);
        lemma_be_bytes_mod(m / 256, (k - 1) as nat);
    }
}

/// Writing the value that `k` bytes hold gives back those bytes.
pub proof fn lemma_be_bytes_of_value(s: Seq<u8>)
    ensures
        be_bytes(be_value(s), s.len()) == s,
    decreases s.len(),
{
    if s.len() > 0 {
        lemma_be_bytes_of_value(s.drop_last());
        let v = be_value(s);
        assert(v / 256 == be_value(s.drop_last()));
        assert(v % 256 == s.last());
        assert(s == s.drop_last().push(s.last()));
    }
}

/// The `k` big-endian bytes of `v`.
pub fn be_vec(v: u128, k: usize) -> (r: Vec<u8>)
    requires
        k <= 16,
    ensures
        r@ == be_bytes(v as nat, k as nat),
    decreases k,
{
    if k == 0 {
        Vec::new()
    } else {
        let mut r = be_vec(v / 256, k - 1);
        r.push((v % 256) as u8);
        r
    }
}

/// The number that `data[start..start + k]` holds in big-endian order.
pub fn be_read(data: &[u8], start: usize, k: usize) -> (v: u128)
    requires
        k <= 16,
        start + k <= data.len(),
    ensures
        v == be_value(data@.subrange(start as int, start + k)),
{
    let ghost s = data@.subrange(start as int, start + k);
    let mut acc: u128 = 0;
    let mut i: usize = 0;
    proof {
        lemma_pow256_values();
        assert(s.take(0) =~= Seq::<u8>::empty());
    }
    while i < k
        invariant
            k <= 16,
            start + k <= data.len(),
            s == data@.subrange(start as int, start + k),
            i <= k,
            acc == be_value(s.take(i as int)),
            pow256(16) == 0x1_0000_0000_0000_0000_0000_0000_0000_0000,
        decreases k - i,
    {
        proof {
            lemma_be_value_bound(s.take(i as int));
            lemma_pow256_mono(i as nat, 15);
            assert(s.take(i + 1).drop_last() == s.take(i as int));
            assert(pow256(16) == 256 * pow256(15));
        }
        let b = data[start + i];
        assert(acc * 256 + b < pow256(16)) by (nonlinear_arith)
            requires
                acc < pow256(i as nat),
                pow256(i as nat) <= pow256(15),
                pow256(16) == 256 * pow256(15),
                b < 256,
        ;
        acc = acc * 256 + b as u128;
        i = i + 1;
    }
    assert(s.take(k as int) == s);
    acc
}

pub proof fn lemma_pow256_mono(a: nat, b: nat)
    requires
        a <= b,
    ensures
        pow256(a) <= pow256(b),
    decreases b,
{
    if a < b {
        lemma_pow256_mono(a, (b - 1) as nat);
        lemma_pow256_pos((b - 1) as nat);
    }
}

} // verus!
