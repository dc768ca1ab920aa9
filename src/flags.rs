use vstd::prelude::*;

verus! {

/// Whether bit `i` of `bits` is set.
pub open spec fn bit_set(bits: u128, i: u32) -> bool {
    (bits >> i) & 1u128 == 1u128
}

/// A set of flag bits, stored in the lowest bits of one integer: the value
/// that a flags type holds at run time.
#[derive(Clone, Copy, PartialEq, Eq, Debug)]
pub struct FlagSet {
    bits: u128,
}

proof fn lemma_set_bit(bits: u128, i: u32, j: u32)
    requires
        i < 128,
        j < 128,
    ensures
        bit_set(bits | (1u128 << i), i),
        !bit_set(bits & !(1u128 << i), i),
        i != j ==> bit_set(bits | (1u128 << i), j) == bit_set(bits, j),
        i != j ==> bit_set(bits & !(1u128 << i), j) == bit_set(bits, j),
{
    assert(bit_set(bits | (1u128 << i), i)) by (bit_vector)
        requires
            i < 128,
    ;
    assert(!bit_set(bits & !(1u128 << i), i)) by (bit_vector)
        requires
            i < 128,
    ;
    assert(i != j ==> bit_set(bits | (1u128 << i), j) == bit_set(bits, j)) by (bit_vector)
        requires
            i < 128,
            j < 128,
    ;
    assert(i != j ==> bit_set(bits & !(1u128 << i), j) == bit_set(bits, j)) by (bit_vector)
        requires
            i < 128,
            j < 128,
    ;
}

proof fn lemma_empty_bits(i: u32)
    requires
        i < 128,
    ensures
        !bit_set(0u128, i),
{
    assert(!bit_set(0u128, i)) by (bit_vector)
        requires
            i < 128,
    ;
}

impl View for FlagSet {
    type V = Set<u32>;

    /// The indices of the set bits.
    closed spec fn view(&self) -> Set<u32> {
        Set::new(|i: u32| i < 128 && bit_set(self.bits, i))
    }
}

impl FlagSet {
    /// The set with no bit set.
    pub fn empty() -> (r: FlagSet)
        ensures
            r@ == Set::<u32>::empty(),
    {
        let r = FlagSet { bits: 0 };
        assert forall|i: u32| !r@.contains(i) by {
            if i < 128 {
                lemma_empty_bits(i);
            }
        }
        assert(r@ =~= Set::<u32>::empty());
        r
    }

    /// Whether bit `i` is set.
    pub fn contains(&self, i: u32) -> (r: bool)
        requires
            i < 128,
        ensures
            r == self@.contains(i),
    {
        (self.bits >> i) & 1u128 == 1u128
    }

    /// Writes `value` into bit `i` and leaves every other bit as it was.
    pub fn set(&mut self, i: u32, value: bool)
        requires
            i < 128,
        ensures
            final(self)@ == (if value { old(self)@.insert(i) } else { old(self)@.remove(i) }),
    {
        let ghost before = self.bits;
        if value {
            self.bits = self.bits | (1u128 << i);
        } else {
            self.bits = self.bits & !(1u128 << i);
        }
        assert forall|j: u32| j < 128 implies bit_set(self.bits, j) == (if j == i { value } else { bit_set(before, j) }) by {
            lemma_set_bit(before, i, j);
        }
        assert(self@ =~= (if value { old(self)@.insert(i) } else { old(self)@.remove(i) }));
    }

    /// Sets bit `i`.
    pub fn insert(&mut self, i: u32)
        requires
            i < 128,
        ensures
            final(self)@ == old(self)@.insert(i),
    {
        self.set(i, true);
    }

    /// Clears bit `i`.
    pub fn remove(&mut self, i: u32)
        requires
            i < 128,
        ensures
            final(self)@ == old(self)@.remove(i),
    {
        self.set(i, false);
    }

    /// The raw integer, bit `i` standing for flag `i`.
    pub fn raw(&self) -> (r: u128)
        ensures
            forall|i: u32| i < 128 ==> (#[trigger] bit_set(r, i) == self@.contains(i)),
    {
        self.bits
    }
}

} // verus!
