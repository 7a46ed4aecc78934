//! Fixed-width entries packed into 64-bit words, low bits first, no entry
//! spanning two words.
use vstd::prelude::*;

verus! {

/// The entry that sits `sub` bits into the word `w`.
pub open spec fn field(w: u64, sub: u64, mask: u64) -> u64 {
    (w >> sub) & mask
}

/// The word `w` with the entry at `sub` replaced by `word`, as `set_entry`
/// writes it (high bits of `word` beyond the entry spill over).
pub open spec fn put_field(w: u64, sub: u64, mask: u64, word: u64) -> u64 {
    (w & !(mask << sub)) | (word << sub)
}

/// `(1 << bits) - 1`.
pub open spec fn low_mask(bits: u64) -> u64 {
    ((1u64 << bits) - 1) as u64
}

proof fn lemma_mul_gap(x: nat, y: nat, b: nat)
    requires
        x < y,
    ensures
        x * b + b <= y * b,
{
    assert(x * b + b <= y * b) by (nonlinear_arith)
        requires
            x + 1 <= y,
    ;
}

/// Where entry `w` of a buffer with `e` entries per word sits.
proof fn lemma_split_index(w: nat, e: nat)
    requires
        e >= 1,
    ensures
        (w / e) * e <= w,
        w - (w / e) * e == w % e,
{
    vstd::arithmetic::div_mod::lemma_fundamental_div_mod(w as int, e as int);
    assert((w / e) * e == e * (w / e)) by (nonlinear_arith);
}

proof fn lemma_field_put_same(w: u64, sub: u64, bits: u64, word: u64)
    requires
        1 <= bits < 64,
        sub + bits <= 64,
    ensures
        field(put_field(w, sub, low_mask(bits), word), sub, low_mask(bits)) == word & low_mask(bits),
{
    let mask = low_mask(bits);
    assert(((((w & !(mask << sub)) | (word << sub)) >> sub) & mask) == word & mask) by (bit_vector)
        requires
            1 <= bits < 64,
            sub + bits <= 64,
            mask == ((1u64 << bits) - 1) as u64,
    ;
}

proof fn lemma_field_put_other(w: u64, sub: u64, other: u64, bits: u64, word: u64)
    requires
        1 <= bits < 64,
        sub + bits <= 64,
        other + bits <= 64,
        other + bits <= sub || sub + bits <= other,
        word <= low_mask(bits),
    ensures
        field(put_field(w, sub, low_mask(bits), word), other, low_mask(bits)) == field(
            w,
            other,
            low_mask(bits),
        ),
{
    let mask = low_mask(bits);
    assert(((((w & !(mask << sub)) | (word << sub)) >> other) & mask) == ((w >> other) & mask))
        by (bit_vector)
        requires
            1 <= bits < 64,
            sub + bits <= 64,
            other + bits <= 64,
            other + bits <= sub || sub + bits <= other,
            mask == ((1u64 << bits) - 1) as u64,
            word <= mask,
    ;
}

#[derive(Debug)]
pub struct BitBuffer {
    entry_bit_size: u64,
    entries_per_long: u64,
    size: usize,
    mask: u64,
    longs: Vec<i64>,
}

impl BitBuffer {
    #[verifier::type_invariant]
    spec fn inv(self) -> bool {
        &&& 1 <= self.entry_bit_size < 64
        &&& self.entries_per_long == 64u64 / self.entry_bit_size
        &&& 1 <= self.entries_per_long
        &&& self.entries_per_long * self.entry_bit_size <= 64
        &&& self.mask == low_mask(self.entry_bit_size)
    }

    /// Facts about the layout that hold for every bit width the buffer accepts.
    proof fn lemma_layout(bits: u64)
        requires
            1 <= bits < 64,
        ensures
            1 <= 64u64 / bits,
            (64u64 / bits) * bits <= 64,
            (1u64 << bits) >= 1,
    {
        assert(1 <= 64u64 / bits) by (nonlinear_arith)
            requires
                1 <= bits < 64,
        ;
        assert((64u64 / bits) * bits <= 64) by (nonlinear_arith)
            requires
                1 <= bits < 64,
        ;
        assert((1u64 << bits) >= 1) by (bit_vector)
            requires
                bits < 64,
        ;
    }

    /// Bits per entry.
    pub closed spec fn bits(&self) -> u64 {
        self.entry_bit_size
    }

    /// Entries per word: as many whole entries as fit in 64 bits.
    pub closed spec fn per_long(&self) -> u64 {
        self.entries_per_long
    }

    /// The number of entries the buffer was made for.
    pub closed spec fn len(&self) -> nat {
        self.size as nat
    }

    /// The words.
    pub closed spec fn words(&self) -> Seq<i64> {
        self.longs@
    }

    /// Where entry `i` sits: its word and its first bit.
    pub open spec fn place(&self, i: nat) -> (int, u64) {
        let arr = i / (self.per_long() as nat);
        (arr as int, ((i % (self.per_long() as nat)) * self.bits()) as u64)
    }

    /// Entry `i`.
    pub open spec fn entry(&self, i: nat) -> u64 {
        let (arr, sub) = self.place(i);
        field(self.words()[arr] as u64, sub, low_mask(self.bits()))
    }

    pub fn create(entry_bit_size: u8, size: usize) -> (b: BitBuffer)
        requires
            1 <= entry_bit_size < 64,
            size + 64int / (entry_bit_size as int) <= usize::MAX,
        ensures
            b.bits() == entry_bit_size,
            b.per_long() == 64int / (entry_bit_size as int),
            b.len() == size,
            b.words().len() == (size + b.per_long() - 1) / (b.per_long() as int),
            forall|k: int| 0 <= k < b.words().len() ==> b.words()[k] == 0,
    {
        proof {
            Self::lemma_layout(entry_bit_size as u64);
        }
        let entries_per_long = 64 / entry_bit_size as u64;
        // Rounding up div
        let longs_len = (size + entries_per_long as usize - 1) / entries_per_long as usize;
        let longs = vec![0i64; longs_len];
        BitBuffer {
            entry_bit_size: entry_bit_size as u64,
            longs,
            size,
            entries_per_long,
            mask: (1u64 << entry_bit_size as u64) - 1,
        }
    }

    pub fn load(entries: usize, bits_per_entry: u8, longs: Vec<i64>) -> (b: BitBuffer)
        requires
            1 <= bits_per_entry < 64,
        ensures
            b.bits() == bits_per_entry,
            b.per_long() == 64int / (bits_per_entry as int),
            b.len() == entries,
            b.words() == longs@,
    {
        proof {
            Self::lemma_layout(bits_per_entry as u64);
        }
        let entries_per_long = 64 / bits_per_entry as u64;
        BitBuffer {
            entry_bit_size: bits_per_entry as u64,
            longs,
            size: entries,
            entries_per_long,
            mask: (1u64 << bits_per_entry as u64) - 1,
        }
    }

    proof fn lemma_place(&self, i: nat)
        requires
            1 <= self.bits() < 64,
            1 <= self.per_long(),
            self.per_long() * self.bits() <= 64,
        ensures
            self.place(i).1 + self.bits() <= 64,
            self.place(i).1 == (i % (self.per_long() as nat)) * self.bits(),
    {
        let e = self.per_long() as nat;
        let b = self.bits() as nat;
        lemma_mul_gap(i % e, e, b);
    }

    pub fn get_entry(&self, word_idx: usize) -> (w: u32)
        requires
            (word_idx as nat) / (self.per_long() as nat) < self.words().len(),
        ensures
            w == self.entry(word_idx as nat) as u32,
    {
        proof {
            use_type_invariant(self);
            self.lemma_place(word_idx as nat);
            lemma_split_index(word_idx as nat, self.entries_per_long as nat);
        }
        // Find the set of indices.
        let arr_idx = word_idx / self.entries_per_long as usize;
        let sub_idx = (word_idx as u64 - arr_idx as u64 * self.entries_per_long) * self.entry_bit_size;
        // Find the word.
        let word = ((self.longs[arr_idx] as u64) >> sub_idx) & self.mask;
        word as u32
    }

    pub fn set_entry(&mut self, word_idx: usize, word: u32)
        requires
            (word_idx as nat) / (old(self).per_long() as nat) < old(self).words().len(),
        ensures
            final(self).bits() == old(self).bits(),
            final(self).per_long() == old(self).per_long(),
            final(self).len() == old(self).len(),
            ({
                let (arr, sub) = old(self).place(word_idx as nat);
                final(self).words() == old(self).words().update(
                    arr,
                    put_field(old(self).words()[arr] as u64, sub, low_mask(old(self).bits()), word as u64) as i64,
                )
            }),
            final(self).entry(word_idx as nat) == (word as u64) & low_mask(old(self).bits()),
            word as u64 <= low_mask(old(self).bits()) ==> forall|j: nat|
                j != word_idx && j / (old(self).per_long() as nat) < old(self).words().len()
                    ==> #[trigger] final(self).entry(j) == old(self).entry(j),
            final(self).words().len() == old(self).words().len(),
            word as u64 <= low_mask(old(self).bits()) ==> forall|j: nat|
                j != word_idx && j < old(self).words().len() * old(self).per_long()
                    ==> #[trigger] final(self).entry(j) == old(self).entry(j),
    {
        proof {
            use_type_invariant(&*self);
            self.lemma_place(word_idx as nat);
            lemma_split_index(word_idx as nat, self.entries_per_long as nat);
        }
        // Find the set of indices.
        let arr_idx = word_idx / self.entries_per_long as usize;
        let sub_idx = (word_idx as u64 - arr_idx as u64 * self.entries_per_long) * self.entry_bit_size;
        // Set the word.
        let mask = !(self.mask << sub_idx);
        let old_word = self.longs[arr_idx] as u64;
        let new_word = ((old_word & mask) | ((word as u64) << sub_idx)) as i64;
        let mut longs: Vec<i64> = Vec::new();
        std::mem::swap(&mut longs, &mut self.longs);
        longs.set(arr_idx, new_word);
        self.longs = longs;
        proof {
            let bits = self.entry_bit_size;
            assert(new_word as u64 == put_field(old_word, sub_idx, low_mask(bits), word as u64))
                by (bit_vector)
                requires
                    new_word == ((old_word & !(low_mask(bits) << sub_idx)) | ((word as u64) << sub_idx)) as i64,
            ;
            lemma_field_put_same(old_word, sub_idx, bits, word as u64);
            assert((old_word as i64) as u64 == old_word) by (bit_vector);
            if word as u64 <= low_mask(bits) {
                assert forall|j: nat|
                    j != word_idx && j / (old(self).per_long() as nat) < old(self).words().len()
                        implies #[trigger] self.entry(j) == old(self).entry(j) by {
                    self.lemma_place(j);
                    let (ja, js) = self.place(j);
                    if ja == arr_idx {
                        let e = self.entries_per_long as nat;
                        let b = bits as nat;
                        assert(j % e != (word_idx as nat) % e) by {
                            assert(j == e * (j / e) + j % e) by (nonlinear_arith)
                                requires
                                    e > 0,
                            ;
                            assert(word_idx == e * ((word_idx as nat) / e) + (word_idx as nat) % e)
                                by (nonlinear_arith)
                                requires
                                    e > 0,
                            ;
                        }
                        if j % e < (word_idx as nat) % e {
                            lemma_mul_gap(j % e, (word_idx as nat) % e, b);
                        } else {
                            lemma_mul_gap((word_idx as nat) % e, j % e, b);
                        }
                        lemma_field_put_other(old_word, sub_idx, js, bits, word as u64);
                    }
                }
                assert forall|j: nat|
                    j != word_idx && j < old(self).words().len() * old(self).per_long()
                        implies #[trigger] self.entry(j) == old(self).entry(j) by {
                    let e = self.entries_per_long as nat;
                    let n = old(self).words().len();
                    assert(j / e < n) by (nonlinear_arith)
                        requires
                            e > 0,
                            j < n * e,
                    {
                        vstd::arithmetic::div_mod::lemma_div_is_ordered(j as int, (n * e) as int, e as int);
                        vstd::arithmetic::div_mod::lemma_div_by_multiple(n as int, e as int);
                        vstd::arithmetic::div_mod::lemma_div_is_ordered(j as int, (n * e - 1) as int, e as int);
                    }
                    assert(j / (old(self).per_long() as nat) < old(self).words().len());
                }
            }
        }
    }

    /// A copy of this buffer.
    pub fn clone(&self) -> (c: Self)
        ensures
            c.bits() == self.bits(),
            c.per_long() == self.per_long(),
            c.len() == self.len(),
            c.words() == self.words(),
    {
        proof {
            use_type_invariant(self);
        }
        BitBuffer {
            entry_bit_size: self.entry_bit_size,
            entries_per_long: self.entries_per_long,
            size: self.size,
            mask: self.mask,
            longs: self.longs.clone(),
        }
    }

    pub fn into_buffer(self) -> (longs: Vec<i64>)
        ensures
            longs@ == self.words(),
    {
        self.longs
    }
}

} // verus!
