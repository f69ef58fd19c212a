use vstd::prelude::*;

verus! {

/// The number of bits in one word of a [`CpuMask`].
pub const BITS_PER_WORD: usize = 64;

/// Whether bit `bit` of `word` is set, counting from the least significant bit.
pub open spec fn word_has_bit(word: u64, bit: int) -> bool {
    0 <= bit < 64 && (word >> (bit as u64)) & 1 == 1
}

proof fn lemma_zero_word_has_no_bit(bit: u64)
    by (bit_vector)
    requires
        bit < 64,
    ensures
        (0u64 >> bit) & 1 == 0,
{
}

proof fn lemma_one_bit(set: u64, bit: u64)
    by (bit_vector)
    requires
        set < 64,
        bit < 64,
    ensures
        ((1u64 << set) >> bit) & 1 == 1 <==> bit == set,
{
}

proof fn lemma_one_more_bit(word: u64, added: u64, bit: u64)
    by (bit_vector)
    requires
        added < 64,
        bit < 64,
    ensures
        ((word | (1u64 << added)) >> bit) & 1 == 1 <==> (bit == added || (word >> bit) & 1 == 1),
{
}

proof fn lemma_bit_is_tested(word: u64, mask: u64, bit: u64)
    by (bit_vector)
    requires
        bit < 64,
        mask == 1u64 << bit,
    ensures
        word & mask != 0 <==> (word >> bit) & 1 == 1,
{
}

/// How many times `y` is needed to cover `x`: the quotient of `x` by `y`, rounded up.
pub fn howmany(x: usize, y: usize) -> (count: usize)
    requires
        y > 0,
        x + (y - 1) <= usize::MAX,
    ensures
        count == (x + (y - 1)) / (y as int),
        count * y >= x,
        x > 0 ==> (count - 1) * y < x,
{
    let count: usize = (x + (y - 1)) / y;
    assert(count * y >= x && (x > 0 ==> (count - 1) * y < x)) by (nonlinear_arith)
        requires
            y > 0,
            count == (x + (y - 1)) / (y as int),
    ;
    count
}

/// The number of words that a bit set of `number_of_bits` bits takes.
pub fn bitset_words(number_of_bits: usize) -> (words: usize)
    requires
        number_of_bits + 63 <= usize::MAX,
    ensures
        words == (number_of_bits + 63) / 64,
        words * 64 >= number_of_bits,
{
    howmany(number_of_bits, BITS_PER_WORD)
}

/// The index of the word that holds bit `n` in a bit set of `number_of_bits` bits.
///
/// A bit set of one word has every bit in that word.
pub fn bitset_word(number_of_bits: usize, n: usize) -> (word: usize)
    requires
        number_of_bits + 63 <= usize::MAX,
    ensures
        word == if (number_of_bits + 63) / 64 == 1 {
            0
        } else {
            n as int / 64
        },
        n < number_of_bits ==> word == n / 64 && word < (number_of_bits + 63) / 64,
{
    if bitset_words(number_of_bits) == 1 {
        0
    } else {
        n / BITS_PER_WORD
    }
}

/// The word with only the bit set that stands for bit `n` in its word of a bit set of `number_of_bits` bits.
///
/// In a bit set of one word, `n` must be a bit of that word.
pub fn bitset_mask(number_of_bits: usize, n: usize) -> (mask: u64)
    requires
        number_of_bits + 63 <= usize::MAX,
        (number_of_bits + 63) / 64 == 1 ==> n < 64,
    ensures
        mask == 1u64 << ((n % 64) as u64),
        forall|bit: int| word_has_bit(mask, bit) <==> bit == n % 64,
{
    let relative_bit: usize = if bitset_words(number_of_bits) == 1 {
        n
    } else {
        n % BITS_PER_WORD
    };
    let mask: u64 = 1u64 << (relative_bit as u64);
    assert forall|bit: int| word_has_bit(mask, bit) <==> bit == n % 64 by {
        if 0 <= bit < 64 {
            lemma_one_bit(relative_bit as u64, bit as u64);
        }
    }
    mask
}

/// A set of logical cores as the bit mask that an operating system takes: bit `i` is set where logical core `i` is in it.
///
/// Bit `i` is bit `i % 64` of word `i / 64`. The mask is made for a number of bits and has the words to hold them.
#[derive(Debug, PartialEq, Eq)]
pub struct CpuMask {
    number_of_bits: usize,
    words: Vec<u64>,
}

impl Clone for CpuMask {
    fn clone(&self) -> (mask: Self)
        ensures
            mask.number_of_bits() == self.number_of_bits(),
            mask.words() == self.words(),
            mask@ == self@,
    {
        proof {
            use_type_invariant(self);
        }
        let words = self.words.clone();
        assert(words@ =~= self.words@);
        let mask = CpuMask { number_of_bits: self.number_of_bits, words };
        assert(mask@ =~= self@);
        mask
    }
}

impl View for CpuMask {
    type V = Set<int>;

    /// The bits that are set.
    open spec fn view(&self) -> Set<int> {
        Set::new(|bit: int| self.has_bit(bit))
    }
}

impl CpuMask {
    #[verifier::type_invariant]
    spec fn well_formed(&self) -> bool {
        &&& self.number_of_bits + 63 <= usize::MAX
        &&& self.words@.len() == (self.number_of_bits + 63) / 64
    }

    /// The number of bits that the mask was made for.
    pub closed spec fn number_of_bits(&self) -> nat {
        self.number_of_bits as nat
    }

    /// The words of the mask, the one with the lowest bits first.
    pub closed spec fn words(&self) -> Seq<u64> {
        self.words@
    }

    /// Whether bit `bit` is set.
    pub open spec fn has_bit(&self, bit: int) -> bool {
        0 <= bit < self.words().len() * 64 && word_has_bit(self.words()[bit / 64], bit % 64)
    }

    /// A mask for `number_of_bits` bits, with no bit set.
    pub fn new(number_of_bits: usize) -> (mask: Self)
        requires
            number_of_bits + 63 <= usize::MAX,
        ensures
            mask.number_of_bits() == number_of_bits,
            mask.words().len() == (number_of_bits + 63) / 64,
            mask@ == Set::<int>::empty(),
    {
        let number_of_words: usize = bitset_words(number_of_bits);
        let mut words: Vec<u64> = Vec::with_capacity(number_of_words);
        let mut index: usize = 0;
        while index < number_of_words
            invariant
                index <= number_of_words,
                words@.len() == index,
                forall|i: int| 0 <= i < index ==> words@[i] == 0,
            decreases number_of_words - index,
        {
            words.push(0);
            index += 1;
        }
        let mask = CpuMask { number_of_bits, words };
        assert(mask@ =~= Set::<int>::empty()) by {
            assert forall|bit: int| !mask.has_bit(bit) by {
                if 0 <= bit < mask.words().len() * 64 {
                    lemma_zero_word_has_no_bit((bit % 64) as u64);
                }
            }
        }
        mask
    }

    /// Sets bit `n`, and leaves every other bit as it was.
    pub fn set(&mut self, n: usize)
        requires
            n < old(self).number_of_bits(),
        ensures
            final(self)@ == old(self)@.insert(n as int),
            final(self).number_of_bits() == old(self).number_of_bits(),
            final(self).words().len() == old(self).words().len(),
    {
        proof {
            use_type_invariant(&*self);
        }
        let word: usize = bitset_word(self.number_of_bits, n);
        let mask: u64 = bitset_mask(self.number_of_bits, n);
        let updated: u64 = self.words[word] | mask;
        self.words[word] = updated;
        proof {
            assert forall|bit: int| final(self).has_bit(bit) <==> (bit == n || old(self).has_bit(bit)) by {
                if 0 <= bit < old(self).words().len() * 64 && bit / 64 == n / 64 {
                    lemma_one_more_bit(old(self).words()[bit / 64], (n % 64) as u64, (bit % 64) as u64);
                }
            }
            assert(final(self)@ =~= old(self)@.insert(n as int));
        }
    }

    /// Whether bit `n` is set. A bit that the mask has no word for is not set.
    pub fn is_set(&self, n: usize) -> (set: bool)
        ensures
            set == self@.contains(n as int),
    {
        if n / BITS_PER_WORD >= self.words.len() {
            return false;
        }
        let mask: u64 = 1u64 << ((n % BITS_PER_WORD) as u64);
        proof {
            lemma_bit_is_tested(self.words()[n as int / 64], mask, (n % 64) as u64);
        }
        self.words[n / BITS_PER_WORD] & mask != 0
    }

    /// The number of bits that the mask was made for.
    pub fn len(&self) -> (number_of_bits: usize)
        ensures
            number_of_bits == self.number_of_bits(),
    {
        self.number_of_bits
    }

    /// The words of the mask, the one with the lowest bits first, as the operating system takes them.
    pub fn as_words(&self) -> (words: &[u64])
        ensures
            words@ == self.words(),
            words@.len() == (self.number_of_bits() + 63) / 64,
    {
        proof {
            use_type_invariant(self);
        }
        self.words.as_slice()
    }
}

} // verus!
