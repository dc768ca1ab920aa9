use vstd::prelude::*;

use crate::flags::FlagSet;
use crate::layout::{slot_bits, slots_wf, Slot};

verus! {

/// The value of one field of the flat shape at run time.
#[derive(Clone, Debug, PartialEq)]
pub enum FieldValue<V> {
    Bool(bool),
    OptionalBool(Option<bool>),
    /// The value of a pass-through field.
    Other(V),
    /// The field is compiled out under the build configuration.
    Excluded,
}

/// A value of the flat shape: one entry per declared field, in order.
#[derive(Clone, Debug, PartialEq)]
pub struct FlatValue<V> {
    pub fields: Vec<FieldValue<V>>,
}

/// A value of the compacted shape: the pass-through fields in declaration
/// order, and the flags.
#[derive(Clone, Debug, PartialEq)]
pub struct PackedValue<V> {
    pub passthrough: Vec<FieldValue<V>>,
    pub flags: FlagSet,
}

/// What the getter of a `bool` field returns on flags `f`.
pub open spec fn spec_get_bool(f: Set<u32>, bit: u32) -> bool {
    f.contains(bit)
}

/// The flags after the setter of a `bool` field wrote `value`.
pub open spec fn spec_set_bool(f: Set<u32>, bit: u32, value: bool) -> Set<u32> {
    if value {
        f.insert(bit)
    } else {
        f.remove(bit)
    }
}

/// What the getter of an `Option<bool>` field returns on flags `f`: absent
/// while the presence bit is clear, else the value bit.
pub open spec fn spec_get_optional(f: Set<u32>, bit: u32, presence: u32) -> Option<bool> {
    if f.contains(presence) {
        Some(f.contains(bit))
    } else {
        None
    }
}

/// The flags after the setter of an `Option<bool>` field wrote `value`:
/// absent clears the presence bit, a value sets it and writes the value bit.
pub open spec fn spec_set_optional(f: Set<u32>, bit: u32, presence: u32, value: Option<bool>) -> Set<u32> {
    match value {
        None => f.remove(presence),
        Some(b) => spec_set_bool(f.insert(presence), bit, b),
    }
}

/// The value of a packed field read from flags `f`.
pub open spec fn decode<V>(f: Set<u32>, s: Slot) -> FieldValue<V> {
    match s {
        Slot::Bool { bit } => FieldValue::Bool(spec_get_bool(f, bit)),
        Slot::OptionalBool { bit, presence } => FieldValue::OptionalBool(spec_get_optional(f, bit, presence)),
        Slot::PassThrough => FieldValue::Excluded,
    }
}

/// The number of pass-through slots in `slots`.
pub open spec fn pass_count(slots: Seq<Slot>) -> nat
    decreases slots.len(),
{
    if slots.len() == 0 {
        0
    } else {
        pass_count(slots.drop_last()) + if slots.last() == Slot::PassThrough { 1nat } else { 0nat }
    }
}

/// The position of pass-through field `k` among the fields of the compacted
/// record.
pub open spec fn pass_pos(slots: Seq<Slot>, k: int) -> int {
    pass_count(slots.take(k)) as int
}

/// Whether `v` can be the value of a field with slot `s`, included in the
/// build or not as `enabled` says.
pub open spec fn value_fits<V>(s: Slot, enabled: bool, v: FieldValue<V>) -> bool {
    if !enabled {
        v == FieldValue::<V>::Excluded
    } else {
        match s {
            Slot::PassThrough => v is Other,
            Slot::Bool { .. } => v is Bool,
            Slot::OptionalBool { .. } => v is OptionalBool,
        }
    }
}

/// A flat value that matches the slots and the build configuration.
pub open spec fn flat_wf<V>(slots: Seq<Slot>, enabled: Seq<bool>, v: Seq<FieldValue<V>>) -> bool {
    &&& v.len() == slots.len()
    &&& enabled.len() == slots.len()
    &&& forall|k: int| 0 <= k < slots.len() ==> value_fits(slots[k], enabled[k], #[trigger] v[k])
}

/// What the field `k` of the flat shape holds, read from the compacted value
/// `(pass, f)`.
pub open spec fn unpacked_field<V>(
    slots: Seq<Slot>,
    enabled: Seq<bool>,
    pass: Seq<FieldValue<V>>,
    f: Set<u32>,
    k: int,
) -> FieldValue<V> {
    if !enabled[k] {
        FieldValue::Excluded
    } else if slots[k] == Slot::PassThrough {
        pass[pass_pos(slots, k)]
    } else {
        decode(f, slots[k])
    }
}

/// Whether packing the value `v` of a field with slot `s` sets flag bit `b`:
/// a `bool` sets its bit when true; an `Option<bool>` with a value sets its
/// presence bit, and its value bit when the value is true; a field left out
/// of the build sets nothing.
pub open spec fn sets_bit<V>(s: Slot, enabled: bool, v: FieldValue<V>, b: u32) -> bool {
    enabled && match (s, v) {
        (Slot::Bool { bit }, FieldValue::Bool(x)) => x && b == bit,
        (Slot::OptionalBool { bit, presence }, FieldValue::OptionalBool(Some(x))) => b == presence || (x && b == bit),
        _ => false,
    }
}

/// `c` is what packing the flat value `v` gives: the pass-through values in
/// order, and exactly the flag bits that the packed fields set, so that every
/// field of `v` reads back from `c`.
pub open spec fn packs_to<V>(slots: Seq<Slot>, enabled: Seq<bool>, v: Seq<FieldValue<V>>, c: PackedValue<V>) -> bool {
    &&& c.passthrough@.len() == pass_count(slots)
    &&& forall|k: int|
        0 <= k < slots.len() ==> #[trigger] unpacked_field(slots, enabled, c.passthrough@, c.flags@, k) == v[k]
    &&& forall|k: int|
        0 <= k < slots.len() && slots[k] == Slot::PassThrough ==> c.passthrough@[#[trigger] pass_pos(slots, k)] == v[k]
    &&& forall|b: u32| #[trigger] c.flags@.contains(b) <==> exists|k: int|
        0 <= k < slots.len() && #[trigger] sets_bit(slots[k], enabled[k], v[k], b)
}

/// `w` is what unpacking the compacted value `c` gives: field by field, what
/// the getters read.
pub open spec fn unpacks_to<V>(slots: Seq<Slot>, enabled: Seq<bool>, c: PackedValue<V>, w: Seq<FieldValue<V>>) -> bool {
    &&& w.len() == slots.len()
    &&& forall|k: int|
        0 <= k < slots.len() ==> #[trigger] w[k] == unpacked_field(slots, enabled, c.passthrough@, c.flags@, k)
}

pub(crate) proof fn lemma_pass_step(slots: Seq<Slot>, i: int)
    requires
        0 <= i < slots.len(),
    ensures
        pass_count(slots.take(i + 1)) == pass_count(slots.take(i)) + if slots[i] == Slot::PassThrough { 1nat } else { 0nat },
{
    assert(slots.take(i + 1).drop_last() =~= slots.take(i));
}

proof fn lemma_pass_monotone(slots: Seq<Slot>, i: int, j: int)
    requires
        0 <= i <= j <= slots.len(),
    ensures
        pass_count(slots.take(i)) <= pass_count(slots.take(j)),
    decreases j - i,
{
    if i < j {
        lemma_pass_monotone(slots, i, j - 1);
        lemma_pass_step(slots, j - 1);
    }
}

impl<V> PackedValue<V> {
    /// The getter of a `bool` field with value bit `bit`.
    pub fn get_bool(&self, bit: u32) -> (r: bool)
        requires
            bit < 128,
        ensures
            r == spec_get_bool(self.flags@, bit),
    {
        self.flags.contains(bit)
    }

    /// The setter of a `bool` field with value bit `bit`.
    pub fn set_bool(&mut self, bit: u32, value: bool)
        requires
            bit < 128,
        ensures
            final(self).flags@ == spec_set_bool(old(self).flags@, bit, value),
            final(self).passthrough == old(self).passthrough,
    {
        self.flags.set(bit, value);
    }

    /// The getter of an `Option<bool>` field with value bit `bit` and presence
    /// bit `presence`.
    pub fn get_optional(&self, bit: u32, presence: u32) -> (r: Option<bool>)
        requires
            bit < 128,
            presence < 128,
        ensures
            r == spec_get_optional(self.flags@, bit, presence),
    {
        if self.flags.contains(presence) {
            Some(self.flags.contains(bit))
        } else {
            None
        }
    }

    /// The setter of an `Option<bool>` field with value bit `bit` and presence
    /// bit `presence`.
    pub fn set_optional(&mut self, bit: u32, presence: u32, value: Option<bool>)
        requires
            bit < 128,
            presence < 128,
        ensures
            final(self).flags@ == spec_set_optional(old(self).flags@, bit, presence, value),
            final(self).passthrough == old(self).passthrough,
    {
        match value {
            Some(b) => {
                self.flags.insert(presence);
                self.flags.set(bit, b);
            },
            None => {
                self.flags.remove(presence);
            },
        }
    }

    /// The owning setter of a `bool` field with value bit `bit`: takes the
    /// value and returns it with the bit written.
    pub fn with_bool(self, bit: u32, value: bool) -> (r: Self)
        requires
            bit < 128,
        ensures
            r.flags@ == spec_set_bool(self.flags@, bit, value),
            r.passthrough == self.passthrough,
    {
        let mut r = self;
        r.set_bool(bit, value);
        r
    }

    /// The owning setter of an `Option<bool>` field with value bit `bit` and
    /// presence bit `presence`.
    pub fn with_optional(self, bit: u32, presence: u32, value: Option<bool>) -> (r: Self)
        requires
            bit < 128,
            presence < 128,
        ensures
            r.flags@ == spec_set_optional(self.flags@, bit, presence, value),
            r.passthrough == self.passthrough,
    {
        let mut r = self;
        r.set_optional(bit, presence, value);
        r
    }
}

/// Converts a flat value to the compacted shape: pass-through fields are
/// moved over as they are, and each included packed field is written into
/// its bits of a fresh, empty flags value.
pub fn flat_to_compacted<V>(slots: &Vec<Slot>, enabled: &Vec<bool>, value: FlatValue<V>) -> (r: PackedValue<V>)
    requires
        slots_wf(slots@),
        flat_wf(slots@, enabled@, value.fields@),
    ensures
        packs_to(slots@, enabled@, value.fields@, r),
{
    let n = slots.len();
    let ghost fields = value.fields@;
    let mut rest = value.fields;
    let mut passthrough: Vec<FieldValue<V>> = Vec::new();
    let mut packed = PackedValue { passthrough: Vec::new(), flags: FlagSet::empty() };
    let mut i: usize = 0;
    while i < n
        invariant
            n == slots.len(),
            i <= n,
            slots_wf(slots@),
            flat_wf(slots@, enabled@, fields),
            rest@ == fields.skip(i as int),
            passthrough@.len() == pass_count(slots@.take(i as int)),
            forall|k: int|
                0 <= k < i ==> #[trigger] unpacked_field(slots@, enabled@, passthrough@, packed.flags@, k) == fields[k],
            forall|k: int|
                0 <= k < i && slots@[k] == Slot::PassThrough ==> passthrough@[#[trigger] pass_pos(slots@, k)] == fields[k],
            forall|b: u32| #[trigger] packed.flags@.contains(b) <==> exists|k: int|
                0 <= k < i && #[trigger] sets_bit(slots@[k], enabled@[k], fields[k], b),
        decreases n - i,
    {
        proof {
            lemma_pass_step(slots@, i as int);
        }
        let ghost before_pass = passthrough@;
        let ghost before_flags = packed.flags@;
        let v = rest.remove(0);
        assert(v == fields[i as int]);
        assert(value_fits(slots@[i as int], enabled@[i as int], v));
        match slots[i] {
            Slot::PassThrough => {},
            Slot::Bool { bit } => {
                assert(slot_bits(slots@[i as int]).contains(bit));
            },
            Slot::OptionalBool { bit, presence } => {
                assert(slot_bits(slots@[i as int]).contains(bit));
                assert(slot_bits(slots@[i as int]).contains(presence));
            },
        }
        match slots[i] {
            Slot::PassThrough => {
                passthrough.push(v);
            },
            Slot::Bool { bit } => {
                if let FieldValue::Bool(b) = v {
                    packed.set_bool(bit, b);
                }
            },
            Slot::OptionalBool { bit, presence } => {
                if let FieldValue::OptionalBool(o) = v {
                    packed.set_optional(bit, presence, o);
                }
            },
        }
        proof {
            assert forall|k: int| 0 <= k <= i implies #[trigger] unpacked_field(slots@, enabled@, passthrough@, packed.flags@, k)
                == fields[k] by {
                if k < i {
                    lemma_pass_monotone(slots@, k + 1, i as int);
                    assert(unpacked_field(slots@, enabled@, before_pass, before_flags, k) == fields[k]);
                }
                lemma_pass_step(slots@, k);
                if k == i && enabled@[k] {
                    match slots@[k] {
                        Slot::PassThrough => {
                            assert(passthrough@[pass_pos(slots@, k)] == v);
                        },
                        Slot::Bool { bit } => {
                            assert(packed.flags@.contains(bit) == (v == FieldValue::<V>::Bool(true)));
                        },
                        Slot::OptionalBool { bit, presence } => {
                            assert(bit != presence);
                        },
                    }
                }
                if k < i && enabled@[k] && slots@[k] == Slot::PassThrough {
                    assert(passthrough@[pass_pos(slots@, k)] == before_pass[pass_pos(slots@, k)]);
                }
                if k < i && enabled@[k] && slots@[k] != Slot::PassThrough {
                    assert forall|b: u32| slot_bits(slots@[k]).contains(b) implies
                        packed.flags@.contains(b) == before_flags.contains(b) by {
                        assert(!slot_bits(slots@[i as int]).contains(b));
                    }
                    assert(decode::<V>(packed.flags@, slots@[k]) == decode::<V>(before_flags, slots@[k]));
                }
            }
            assert forall|k: int| 0 <= k <= i && slots@[k] == Slot::PassThrough implies passthrough@[#[trigger] pass_pos(slots@, k)]
                == fields[k] by {
                lemma_pass_step(slots@, k);
                if k < i {
                    lemma_pass_monotone(slots@, k + 1, i as int);
                    assert(before_pass[pass_pos(slots@, k)] == fields[k]);
                }
            }
            assert forall|b: u32| #[trigger] packed.flags@.contains(b) <==> exists|k: int|
                0 <= k < i + 1 && #[trigger] sets_bit(slots@[k], enabled@[k], fields[k], b) by {
                if slot_bits(slots@[i as int]).contains(b) {
                    assert forall|k: int| 0 <= k < i implies !#[trigger] sets_bit(slots@[k], enabled@[k], fields[k], b) by {
                        assert(!slot_bits(slots@[k]).contains(b));
                    }
                    assert(!before_flags.contains(b));
                    assert(packed.flags@.contains(b) == sets_bit(slots@[i as int], enabled@[i as int], fields[i as int], b));
                } else {
                    assert(packed.flags@.contains(b) == before_flags.contains(b));
                    assert(!sets_bit(slots@[i as int], enabled@[i as int], fields[i as int], b));
                }
                if packed.flags@.contains(b) && !before_flags.contains(b) {
                    assert(sets_bit(slots@[i as int], enabled@[i as int], fields[i as int], b));
                }
            }
        }
        i = i + 1;
        assert(rest@ =~= fields.skip(i as int));
    }
    assert(slots@.take(n as int) =~= slots@);
    packed.passthrough = passthrough;
    packed
}

/// Converts a compacted value back to the flat shape: pass-through fields
/// are moved back as they are, and each included packed field is read from
/// its bits.
pub fn compacted_to_flat<V>(slots: &Vec<Slot>, enabled: &Vec<bool>, value: PackedValue<V>) -> (r: FlatValue<V>)
    requires
        slots_wf(slots@),
        enabled@.len() == slots@.len(),
        value.passthrough@.len() == pass_count(slots@),
    ensures
        unpacks_to(slots@, enabled@, value, r.fields@),
{
    let n = slots.len();
    let ghost pass = value.passthrough@;
    let flags = value.flags;
    let mut rest = value.passthrough;
    let mut fields: Vec<FieldValue<V>> = Vec::new();
    let total = rest.len();
    let mut p: usize = 0;
    let mut i: usize = 0;
    assert(slots@.take(n as int) =~= slots@);
    while i < n
        invariant
            n == slots.len(),
            i <= n,
            slots_wf(slots@),
            enabled@.len() == n,
            pass.len() == pass_count(slots@),
            pass.len() == total,
            slots@.take(n as int) == slots@,
            p == pass_count(slots@.take(i as int)),
            rest@ == pass.skip(p as int),
            fields@.len() == i,
            forall|k: int| 0 <= k < i ==> #[trigger] fields@[k] == unpacked_field(slots@, enabled@, pass, flags@, k),
        decreases n - i,
    {
        proof {
            lemma_pass_step(slots@, i as int);
            lemma_pass_monotone(slots@, i as int + 1, n as int);
        }
        let v = match slots[i] {
            Slot::PassThrough => {
                let v = rest.remove(0);
                assert(v == pass[p as int]);
                p = p + 1;
                assert(rest@ =~= pass.skip(p as int));
                if enabled[i] {
                    v
                } else {
                    FieldValue::Excluded
                }
            },
            Slot::Bool { bit } => {
                assert(slot_bits(slots@[i as int]).contains(bit));
                if enabled[i] {
                    FieldValue::Bool(flags.contains(bit))
                } else {
                    FieldValue::Excluded
                }
            },
            Slot::OptionalBool { bit, presence } => {
                assert(slot_bits(slots@[i as int]).contains(bit));
                assert(slot_bits(slots@[i as int]).contains(presence));
                if !enabled[i] {
                    FieldValue::Excluded
                } else if flags.contains(presence) {
                    FieldValue::OptionalBool(Some(flags.contains(bit)))
                } else {
                    FieldValue::OptionalBool(None)
                }
            },
        };
        fields.push(v);
        i = i + 1;
    }
    FlatValue { fields }
}

/// Packing a flat value and unpacking the result gives the value back, field
/// by field, `Option<bool>` fields with their presence included.
pub proof fn lemma_round_trip<V>(
    slots: Seq<Slot>,
    enabled: Seq<bool>,
    v: Seq<FieldValue<V>>,
    c: PackedValue<V>,
    w: Seq<FieldValue<V>>,
)
    requires
        slots_wf(slots),
        flat_wf(slots, enabled, v),
        packs_to(slots, enabled, v, c),
        unpacks_to(slots, enabled, c, w),
    ensures
        w == v,
{
    assert forall|k: int| 0 <= k < v.len() implies w[k] == v[k] by {
        assert(unpacked_field(slots, enabled, c.passthrough@, c.flags@, k) == v[k]);
    }
    assert(w =~= v);
}

/// A pass-through field holds the same value in the flat and in the
/// compacted shape, after either conversion.
pub proof fn lemma_passthrough_fidelity<V>(
    slots: Seq<Slot>,
    enabled: Seq<bool>,
    v: Seq<FieldValue<V>>,
    c: PackedValue<V>,
    w: Seq<FieldValue<V>>,
    k: int,
)
    requires
        0 <= k < slots.len(),
        slots[k] == Slot::PassThrough,
        enabled[k],
    ensures
        packs_to(slots, enabled, v, c) ==> c.passthrough@[pass_pos(slots, k)] == v[k],
        unpacks_to(slots, enabled, c, w) ==> w[k] == c.passthrough@[pass_pos(slots, k)],
{
    assert(unpacked_field(slots, enabled, c.passthrough@, c.flags@, k) == c.passthrough@[pass_pos(slots, k)]);
}

/// A field that the build configuration leaves out takes no part in either
/// conversion: it holds nothing in the compacted value (no pass-through
/// value, no flag bit set) and comes back left out.
pub proof fn lemma_excluded_field<V>(
    slots: Seq<Slot>,
    enabled: Seq<bool>,
    v: Seq<FieldValue<V>>,
    c: PackedValue<V>,
    w: Seq<FieldValue<V>>,
    k: int,
)
    requires
        slots_wf(slots),
        flat_wf(slots, enabled, v),
        0 <= k < slots.len(),
        !enabled[k],
    ensures
        packs_to(slots, enabled, v, c) && slots[k] == Slot::PassThrough ==> c.passthrough@[pass_pos(slots, k)]
            == FieldValue::<V>::Excluded,
        packs_to(slots, enabled, v, c) ==> forall|b: u32| #[trigger] slot_bits(slots[k]).contains(b) ==> !c.flags@.contains(b),
        unpacks_to(slots, enabled, c, w) ==> w[k] == FieldValue::<V>::Excluded,
{
    if packs_to(slots, enabled, v, c) {
        if slots[k] == Slot::PassThrough {
            assert(c.passthrough@[pass_pos(slots, k)] == v[k]);
        }
        assert forall|b: u32| #[trigger] slot_bits(slots[k]).contains(b) implies !c.flags@.contains(b) by {
            if c.flags@.contains(b) {
                let j = choose|j: int| 0 <= j < slots.len() && #[trigger] sets_bit(slots[j], enabled[j], v[j], b);
                assert(slot_bits(slots[j]).contains(b));
                assert(j != k);
            }
        }
    }
}

/// The getter of a field returns what its setter last wrote: `x` for a
/// `bool` field, and for an `Option<bool>` field absent after absent and
/// `Some(x)` after `Some(x)`. The other fields of a record whose slots fit
/// side by side read as before.
pub proof fn lemma_accessors<V>(slots: Seq<Slot>, f: Set<u32>, j: int, k: int, x: bool, o: Option<bool>)
    requires
        slots_wf(slots),
        0 <= j < slots.len(),
        0 <= k < slots.len(),
        j != k,
    ensures
        slots[j] matches Slot::Bool { bit } ==> spec_get_bool(spec_set_bool(f, bit, x), bit) == x,
        slots[j] matches Slot::Bool { bit } ==> decode::<V>(spec_set_bool(f, bit, x), slots[k]) == decode::<V>(f, slots[k]),
        slots[j] matches Slot::OptionalBool { bit, presence } ==> spec_get_optional(spec_set_optional(f, bit, presence, o), bit, presence) == o,
        slots[j] matches Slot::OptionalBool { bit, presence } ==> decode::<V>(spec_set_optional(f, bit, presence, o), slots[k]) == decode::<V>(f, slots[k]),
{
    match slots[j] {
        Slot::PassThrough => {},
        Slot::Bool { bit } => {
            assert(slot_bits(slots[j]).contains(bit));
            assert(!slot_bits(slots[k]).contains(bit));
        },
        Slot::OptionalBool { bit, presence } => {
            assert(slot_bits(slots[j]).contains(bit));
            assert(slot_bits(slots[j]).contains(presence));
            assert(!slot_bits(slots[k]).contains(bit));
            assert(!slot_bits(slots[k]).contains(presence));
            assert(bit != presence);
        },
    }
    match slots[k] {
        Slot::PassThrough => {},
        Slot::Bool { bit } => {
            assert(slot_bits(slots[k]).contains(bit));
        },
        Slot::OptionalBool { bit, presence } => {
            assert(slot_bits(slots[k]).contains(bit));
            assert(slot_bits(slots[k]).contains(presence));
        },
    }
}

} // verus!
