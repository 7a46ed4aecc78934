//! A growable array of bits stored in 64-bit words.
use vstd::prelude::*;

verus! {

/// Whether bit `off` of `w` is set.
pub open spec fn word_bit(w: u64, off: u64) -> bool {
    w & (1u64 << off) != 0
}

/// Bit `n` of the words `longs` (bits beyond the words are clear).
pub open spec fn bit(longs: Seq<u64>, n: nat) -> bool {
    n / 64 < longs.len() && word_bit(longs[(n / 64) as int], (n % 64) as u64)
}

/// `longs` padded with zero words up to `len` words.
/// The words without the zero words at their end.
pub open spec fn trimmed(s: Seq<u64>) -> Seq<u64>
    decreases s.len(),
{
    if s.len() > 0 && s.last() == 0 {
        trimmed(s.drop_last())
    } else {
        s
    }
}

/// Trimming leaves a prefix whose last word, if any, is not zero, with only
/// zero words cut; trimming again changes nothing.
pub proof fn trimmed_is_idempotent(s: Seq<u64>)
    ensures
        trimmed(s).len() <= s.len(),
        trimmed(s) == s.take(trimmed(s).len() as int),
        trimmed(s).len() == 0 || trimmed(s).last() != 0,
        forall|k: int| trimmed(s).len() <= k < s.len() ==> s[k] == 0,
        trimmed(trimmed(s)) == trimmed(s),
    decreases s.len(),
{
    if s.len() > 0 && s.last() == 0 {
        let init = s.drop_last();
        trimmed_is_idempotent(init);
        assert(trimmed(s) == trimmed(init));
        assert(init.take(trimmed(init).len() as int) =~= s.take(trimmed(init).len() as int));
        assert forall|k: int| trimmed(s).len() <= k < s.len() implies s[k] == 0 by {
            if k < init.len() {
                assert(init[k] == s[k]);
            }
        }
    } else {
        assert(s.take(s.len() as int) =~= s);
    }
}

pub open spec fn padded(longs: Seq<u64>, len: nat) -> Seq<u64> {
    if longs.len() >= len {
        longs
    } else {
        longs + Seq::new((len - longs.len()) as nat, |i: int| 0u64)
    }
}

proof fn lemma_word_bit_set(w: u64, off: u64, j: u64)
    requires
        off < 64,
        j < 64,
    ensures
        word_bit(w | (1u64 << off), j) == (j == off || word_bit(w, j)),
        word_bit(w & !(1u64 << off), j) == (j != off && word_bit(w, j)),
{
    assert(((w | (1u64 << off)) & (1u64 << j) != 0) == (j == off || w & (1u64 << j) != 0))
        by (bit_vector)
        requires
            off < 64,
            j < 64,
    ;
    assert(((w & !(1u64 << off)) & (1u64 << j) != 0) == (j != off && w & (1u64 << j) != 0))
        by (bit_vector)
        requires
            off < 64,
            j < 64,
    ;
}

proof fn lemma_zero_word(j: u64)
    requires
        j < 64,
    ensures
        !word_bit(0u64, j),
{
    assert(0u64 & (1u64 << j) == 0) by (bit_vector);
}

/// An array of bits
#[derive(Debug, Clone)]
pub struct BitSet {
    /// The buffer
    pub longs: Vec<u64>,
}

impl BitSet {
    /// Creates a new, empty bit set
    pub fn new() -> (s: Self)
        ensures
            s.longs@ == Seq::<u64>::empty(),
    {
        Self { longs: Vec::new() }
    }

    /// Sets the bit at the `nth` position to the given value,
    /// allocates more space if needed
    pub fn set_bit(&mut self, nth: usize, value: bool)
        ensures
            final(self).longs@.len() == if old(self).longs@.len() > nth / 64 {
                old(self).longs@.len() as int
            } else {
                nth / 64 + 1
            },
            forall|k: int|
                0 <= k < final(self).longs@.len() && k != nth / 64 ==> final(self).longs@[k]
                    == padded(old(self).longs@, final(self).longs@.len())[k],
            bit(final(self).longs@, nth as nat) == value,
            forall|j: nat| j != nth ==> bit(final(self).longs@, j) == bit(old(self).longs@, j),
    {
        let idx = nth / 64;
        let offset = nth % 64;
        let ghost target = if old(self).longs@.len() > idx { old(self).longs@.len() } else { (idx + 1) as nat };
        while idx >= self.longs.len()
            invariant
                idx == nth / 64,
                old(self).longs@.len() <= self.longs@.len() <= target,
                target == if old(self).longs@.len() > idx { old(self).longs@.len() } else { (idx + 1) as nat },
                self.longs@ == padded(old(self).longs@, self.longs@.len()),
            decreases idx + 1 - self.longs@.len(),
        {
            self.longs.push(0);
            proof {
                assert(self.longs@ =~= padded(old(self).longs@, self.longs@.len()));
            }
        }
        let ghost grown = self.longs@;
        let w = self.longs[idx];
        let mask: u64 = 1u64 << (offset as u64);
        if value {
            self.longs.set(idx, w | mask);
        } else {
            self.longs.set(idx, w & !mask);
        }
        proof {
            assert(self.longs@.len() == target);
            assert forall|j: nat| j != nth implies bit(self.longs@, j) == bit(old(self).longs@, j) by {
                let jw = j / 64;
                let jo = (j % 64) as u64;
                if jw == idx {
                    lemma_word_bit_set(w, offset as u64, jo);
                    assert(jo != offset as u64);
                }
                if jw >= old(self).longs@.len() && jw < self.longs@.len() {
                    lemma_zero_word(jo);
                    lemma_word_bit_set(0, offset as u64, jo);
                }
            }
            lemma_word_bit_set(w, offset as u64, offset as u64);
        }
    }

    /// Get the bit at the given position
    pub fn get_bit(&self, nth: usize) -> (b: bool)
        ensures
            b == bit(self.longs@, nth as nat),
    {
        let idx = nth / 64;
        let offset = nth % 64;

        if idx >= self.longs.len() {
            return false;
        }
        (self.longs[idx] & (1u64 << (offset as u64))) != 0
    }

    /// Removes any useless longs in the buffer
    pub fn compactify(&mut self)
        ensures
            final(self).longs@ == trimmed(old(self).longs@),
            final(self).longs@ == old(self).longs@.take(final(self).longs@.len() as int),
            final(self).longs@.len() == 0 || final(self).longs@.last() != 0,
            forall|k: int|
                final(self).longs@.len() <= k < old(self).longs@.len() ==> old(self).longs@[k] == 0,
            forall|j: nat| bit(final(self).longs@, j) == bit(old(self).longs@, j),
    {
        while self.longs.len() > 0 && self.longs[self.longs.len() - 1] == 0
            invariant
                self.longs@ == old(self).longs@.take(self.longs@.len() as int),
                self.longs@.len() <= old(self).longs@.len(),
                forall|k: int| self.longs@.len() <= k < old(self).longs@.len() ==> old(self).longs@[k] == 0,
                trimmed(self.longs@) == trimmed(old(self).longs@),
            decreases self.longs@.len(),
        {
            let ghost before = self.longs@;
            self.longs.pop();
            proof {
                assert(self.longs@ =~= old(self).longs@.take(self.longs@.len() as int));
                assert(self.longs@ =~= before.drop_last());
            }
        }
        proof {
            assert forall|j: nat| bit(self.longs@, j) == bit(old(self).longs@, j) by {
                if j / 64 >= self.longs@.len() && j / 64 < old(self).longs@.len() {
                    lemma_zero_word((j % 64) as u64);
                }
            }
        }
    }
}

impl Default for BitSet {
    fn default() -> (s: Self)
        ensures
            s.longs@ == Seq::<u64>::empty(),
    {
        Self::new()
    }
}

} // verus!
