use vstd::prelude::*;

use crate::classify::PackKind;
use crate::error::Error;

verus! {

/// The unsigned integer that backs a flags type.
#[derive(Clone, Copy, PartialEq, Eq, Debug)]
pub enum FlagWidth {
    U8,
    U16,
    U32,
    U64,
    U128,
}

/// The largest number of flag bits that one flags type can hold.
pub const MAX_FLAG_BITS: usize = 128;

impl FlagWidth {
    /// The number of bits of the backing integer.
    pub open spec fn spec_bits(self) -> nat {
        match self {
            FlagWidth::U8 => 8,
            FlagWidth::U16 => 16,
            FlagWidth::U32 => 32,
            FlagWidth::U64 => 64,
            FlagWidth::U128 => 128,
        }
    }

    /// The number of bits of the backing integer.
    pub fn bits(self) -> (r: u32)
        ensures
            r == self.spec_bits(),
    {
        match self {
            FlagWidth::U8 => 8,
            FlagWidth::U16 => 16,
            FlagWidth::U32 => 32,
            FlagWidth::U64 => 64,
            FlagWidth::U128 => 128,
        }
    }

    /// The size of the backing integer in bytes.
    pub fn bytes(self) -> (r: usize)
        ensures
            r * 8 == self.spec_bits(),
    {
        match self {
            FlagWidth::U8 => 1,
            FlagWidth::U16 => 2,
            FlagWidth::U32 => 4,
            FlagWidth::U64 => 8,
            FlagWidth::U128 => 16,
        }
    }

    /// The name of the backing integer type: `u8` to `u128`.
    pub fn integer_name(self) -> (r: &'static str)
        ensures
            r@ == (match self {
                FlagWidth::U8 => "u8"@,
                FlagWidth::U16 => "u16"@,
                FlagWidth::U32 => "u32"@,
                FlagWidth::U64 => "u64"@,
                FlagWidth::U128 => "u128"@,
            }),
    {
        match self {
            FlagWidth::U8 => "u8",
            FlagWidth::U16 => "u16",
            FlagWidth::U32 => "u32",
            FlagWidth::U64 => "u64",
            FlagWidth::U128 => "u128",
        }
    }
}

/// The narrowest width whose bit count is at least `demand`; meaningful for
/// `demand <= 128`.
pub open spec fn smallest_width(demand: nat) -> FlagWidth {
    if demand <= 8 {
        FlagWidth::U8
    } else if demand <= 16 {
        FlagWidth::U16
    } else if demand <= 32 {
        FlagWidth::U32
    } else if demand <= 64 {
        FlagWidth::U64
    } else {
        FlagWidth::U128
    }
}

/// Chooses the backing width for `demand` flag bits: the narrowest of 8, 16,
/// 32, 64 and 128 bits that holds them, or `FlagOverflow` past 128 bits.
pub fn plan_width(demand: usize) -> (r: Result<FlagWidth, Error>)
    ensures
        demand <= MAX_FLAG_BITS ==> r == Ok::<FlagWidth, Error>(smallest_width(demand as nat)),
        demand > MAX_FLAG_BITS ==> r == Err::<FlagWidth, Error>(Error::FlagOverflow(demand)),
{
    if demand <= 8 {
        Ok(FlagWidth::U8)
    } else if demand <= 16 {
        Ok(FlagWidth::U16)
    } else if demand <= 32 {
        Ok(FlagWidth::U32)
    } else if demand <= 64 {
        Ok(FlagWidth::U64)
    } else if demand <= MAX_FLAG_BITS {
        Ok(FlagWidth::U128)
    } else {
        Err(Error::FlagOverflow(demand))
    }
}

/// The width chosen for `n` bits holds them, and no width that holds them is
/// narrower.
pub proof fn lemma_width_is_smallest(n: nat, w: FlagWidth)
    requires
        n <= MAX_FLAG_BITS,
    ensures
        smallest_width(n).spec_bits() >= n,
        w.spec_bits() >= n ==> smallest_width(n).spec_bits() <= w.spec_bits(),
{
}

/// Where the value of one field lives in the compacted record.
#[derive(Clone, Copy, PartialEq, Eq, Debug, Structural)]
pub enum Slot {
    /// In a field of its own.
    PassThrough,
    /// In flag bit `bit`.
    Bool { bit: u32 },
    /// Its value in flag bit `bit`, whether it has one in flag bit `presence`.
    OptionalBool { bit: u32, presence: u32 },
}

/// The number of packed fields in `ks`: each takes one value bit.
pub open spec fn count_packed(ks: Seq<PackKind>) -> nat
    decreases ks.len(),
{
    if ks.len() == 0 {
        0
    } else {
        count_packed(ks.drop_last()) + if ks.last() == PackKind::PassThrough { 0nat } else { 1nat }
    }
}

/// The number of `Option<bool>` fields in `ks`: each takes one presence bit.
pub open spec fn count_optional(ks: Seq<PackKind>) -> nat
    decreases ks.len(),
{
    if ks.len() == 0 {
        0
    } else {
        count_optional(ks.drop_last()) + if ks.last() == PackKind::OptionalBool { 1nat } else { 0nat }
    }
}

/// The number of flag bits that the fields of kinds `ks` need.
pub open spec fn bit_demand(ks: Seq<PackKind>) -> nat {
    count_packed(ks) + count_optional(ks)
}

/// The slot of field `k`: value bits are numbered from 0 over the packed
/// fields in declaration order; presence bits follow all value bits, in
/// declaration order of the `Option<bool>` fields.
pub open spec fn spec_slot(ks: Seq<PackKind>, k: int) -> Slot {
    match ks[k] {
        PackKind::PassThrough => Slot::PassThrough,
        PackKind::Bool => Slot::Bool { bit: count_packed(ks.take(k)) as u32 },
        PackKind::OptionalBool => Slot::OptionalBool {
            bit: count_packed(ks.take(k)) as u32,
            presence: (count_packed(ks) + count_optional(ks.take(k))) as u32,
        },
    }
}

/// The slots of all fields, in declaration order.
pub open spec fn spec_slots(ks: Seq<PackKind>) -> Seq<Slot> {
    Seq::new(ks.len(), |k: int| spec_slot(ks, k))
}

/// The flag bits that a slot occupies.
pub open spec fn slot_bits(s: Slot) -> Set<u32> {
    match s {
        Slot::PassThrough => Set::empty(),
        Slot::Bool { bit } => set![bit],
        Slot::OptionalBool { bit, presence } => set![bit, presence],
    }
}

/// Slots that can stand side by side in one flags value: every bit is below
/// 128, an `Option<bool>` uses two different bits, and no two fields share a
/// bit.
pub open spec fn slots_wf(slots: Seq<Slot>) -> bool {
    &&& forall|k: int, b: u32| 0 <= k < slots.len() && #[trigger] slot_bits(slots[k]).contains(b) ==> b < 128
    &&& forall|k: int| 0 <= k < slots.len() ==> match #[trigger] slots[k] {
        Slot::OptionalBool { bit, presence } => bit != presence,
        _ => true,
    }
    &&& forall|j: int, k: int, b: u32|
        0 <= j < slots.len() && 0 <= k < slots.len() && j != k && #[trigger] slot_bits(slots[j]).contains(b)
            ==> !#[trigger] slot_bits(slots[k]).contains(b)
}

pub(crate) proof fn lemma_count_step(ks: Seq<PackKind>, i: int)
    requires
        0 <= i < ks.len(),
    ensures
        count_packed(ks.take(i + 1)) == count_packed(ks.take(i)) + if ks[i] == PackKind::PassThrough { 0nat } else { 1nat },
        count_optional(ks.take(i + 1)) == count_optional(ks.take(i)) + if ks[i] == PackKind::OptionalBool { 1nat } else { 0nat },
{
    assert(ks.take(i + 1).drop_last() =~= ks.take(i));
}

pub(crate) proof fn lemma_count_monotone(ks: Seq<PackKind>, i: int, j: int)
    requires
        0 <= i <= j <= ks.len(),
    ensures
        count_packed(ks.take(i)) <= count_packed(ks.take(j)),
        count_optional(ks.take(i)) <= count_optional(ks.take(j)),
        count_optional(ks.take(j)) - count_optional(ks.take(i)) <= count_packed(ks.take(j)) - count_packed(ks.take(i)),
        count_packed(ks.take(j)) - count_packed(ks.take(i)) <= j - i,
    decreases j - i,
{
    if i < j {
        lemma_count_monotone(ks, i, j - 1);
        lemma_count_step(ks, j - 1);
    }
}

/// The slots of any list of kinds fit side by side in one flags value, once
/// the bits they need are at most 128.
pub proof fn lemma_slots_wf(ks: Seq<PackKind>)
    requires
        bit_demand(ks) <= 128,
    ensures
        slots_wf(spec_slots(ks)),
{
    let slots = spec_slots(ks);
    assert(ks.take(ks.len() as int) =~= ks);
    assert forall|k: int, b: u32| 0 <= k < slots.len() && #[trigger] slot_bits(slots[k]).contains(b) implies b < 128 by {
        lemma_count_monotone(ks, k, k + 1);
        lemma_count_monotone(ks, k + 1, ks.len() as int);
        lemma_count_step(ks, k);
    }
    assert forall|k: int| 0 <= k < slots.len() implies match #[trigger] slots[k] {
        Slot::OptionalBool { bit, presence } => bit != presence,
        _ => true,
    } by {
        lemma_count_monotone(ks, k, k + 1);
        lemma_count_step(ks, k);
        lemma_count_monotone(ks, k + 1, ks.len() as int);
    }
    assert forall|j: int, k: int, b: u32|
        0 <= j < slots.len() && 0 <= k < slots.len() && j != k && #[trigger] slot_bits(slots[j]).contains(b)
            implies !#[trigger] slot_bits(slots[k]).contains(b) by {
        let (lo, hi) = if j < k { (j, k) } else { (k, j) };
        lemma_count_monotone(ks, lo, lo + 1);
        lemma_count_step(ks, lo);
        lemma_count_monotone(ks, lo + 1, hi);
        lemma_count_step(ks, hi);
        lemma_count_monotone(ks, hi + 1, ks.len() as int);
        lemma_count_monotone(ks, 0, lo);
        lemma_count_monotone(ks, lo, ks.len() as int);
        lemma_count_monotone(ks, hi, ks.len() as int);
    }
}

/// Every bit that the slots of `ks` use lies below the number of bits they
/// need, and so inside the backing width chosen for them.
pub proof fn lemma_bits_below_demand(ks: Seq<PackKind>)
    requires
        bit_demand(ks) <= 128,
    ensures
        forall|k: int, b: u32|
            0 <= k < ks.len() && #[trigger] slot_bits(spec_slots(ks)[k]).contains(b) ==> b < bit_demand(ks)
                && b < smallest_width(bit_demand(ks)).spec_bits(),
{
    let slots = spec_slots(ks);
    assert(ks.take(ks.len() as int) =~= ks);
    assert forall|k: int, b: u32| 0 <= k < ks.len() && #[trigger] slot_bits(slots[k]).contains(b) implies b < bit_demand(ks)
        && b < smallest_width(bit_demand(ks)).spec_bits() by {
        lemma_count_monotone(ks, k, k + 1);
        lemma_count_monotone(ks, k + 1, ks.len() as int);
        lemma_count_step(ks, k);
        lemma_width_is_smallest(bit_demand(ks), FlagWidth::U8);
    }
}

/// Assigns each field its slot and chooses the backing width, or fails with
/// `FlagOverflow` (the demand, saturated at `usize::MAX`) when the packed
/// fields need more than 128 bits.
pub fn plan_slots(kinds: &Vec<PackKind>) -> (r: Result<(Vec<Slot>, FlagWidth), Error>)
    ensures
        bit_demand(kinds@) <= MAX_FLAG_BITS ==> (r matches Ok((s, w)) && s@ == spec_slots(kinds@) && w
            == smallest_width(bit_demand(kinds@))),
        bit_demand(kinds@) > MAX_FLAG_BITS ==> r == Err::<(Vec<Slot>, FlagWidth), Error>(Error::FlagOverflow(
            if bit_demand(kinds@) <= usize::MAX { bit_demand(kinds@) as usize } else { usize::MAX },
        )),
{
    let n = kinds.len();
    let mut packed: usize = 0;
    let mut optional: usize = 0;
    let mut i: usize = 0;
    while i < n
        invariant
            n == kinds.len(),
            i <= n,
            packed == count_packed(kinds@.take(i as int)),
            optional == count_optional(kinds@.take(i as int)),
        decreases n - i,
    {
        proof {
            lemma_count_step(kinds@, i as int);
            lemma_count_monotone(kinds@, 0, i as int + 1);
            assert(kinds@.take(0) =~= Seq::<PackKind>::empty());
        }
        if kinds[i] != PackKind::PassThrough {
            packed = packed + 1;
        }
        if kinds[i] == PackKind::OptionalBool {
            optional = optional + 1;
        }
        i = i + 1;
    }
    assert(kinds@.take(n as int) =~= kinds@);
    let demand = packed.saturating_add(optional);
    let width = match plan_width(demand) {
        Ok(w) => w,
        Err(e) => {
            return Err(e);
        },
    };
    let mut slots: Vec<Slot> = Vec::new();
    let mut next_bit: u32 = 0;
    let mut next_presence: u32 = packed as u32;
    let mut i: usize = 0;
    while i < n
        invariant
            n == kinds.len(),
            i <= n,
            bit_demand(kinds@) <= MAX_FLAG_BITS,
            packed == count_packed(kinds@),
            next_bit == count_packed(kinds@.take(i as int)),
            next_presence == packed + count_optional(kinds@.take(i as int)),
            slots@ == spec_slots(kinds@).take(i as int),
        decreases n - i,
    {
        proof {
            lemma_count_step(kinds@, i as int);
            lemma_count_monotone(kinds@, i as int + 1, n as int);
            assert(kinds@.take(n as int) =~= kinds@);
        }
        let s = match kinds[i] {
            PackKind::PassThrough => Slot::PassThrough,
            PackKind::Bool => Slot::Bool { bit: next_bit },
            PackKind::OptionalBool => Slot::OptionalBool { bit: next_bit, presence: next_presence },
        };
        if kinds[i] != PackKind::PassThrough {
            next_bit = next_bit + 1;
        }
        if kinds[i] == PackKind::OptionalBool {
            next_presence = next_presence + 1;
        }
        slots.push(s);
        i = i + 1;
        assert(slots@ =~= spec_slots(kinds@).take(i as int));
    }
    assert(slots@ =~= spec_slots(kinds@));
    Ok((slots, width))
}

} // verus!
