use vstd::prelude::*;

use crate::classify::{spec_kinds, PackKind};
use crate::layout::{spec_slots, FlagWidth, Slot};
use crate::naming::{flag_name, fresh_name, presence_flag_name, underscores, upper_of};
use crate::record::{DerivePath, FieldDescription};

verus! {

/// A packed (`bool` or `Option<bool>`) field of the record, with its slot
/// and the names of its flags.
#[derive(Clone, Debug)]
pub struct BoolField {
    /// Its position among the record's fields.
    pub field: usize,
    pub slot: Slot,
    /// The name of the flag that holds its value.
    pub flag_ident: String,
    /// For an `Option<bool>` field, the name of the flag that says whether it
    /// holds a value.
    pub tag_bit_flag_ident: Option<String>,
}

impl BoolField {
    /// The name of the presence flag, for an `Option<bool>` field.
    pub fn tag_bit_flag_ident(&self) -> (r: Option<&String>)
        ensures
            r == match self.tag_bit_flag_ident {
                Some(n) => Some(&n),
                None => None::<&String>,
            },
    {
        match &self.tag_bit_flag_ident {
            Some(n) => Some(n),
            None => None,
        }
    }
}

/// The positions of the packed fields among fields of kinds `ks`, in order.
pub open spec fn packed_indices(ks: Seq<PackKind>) -> Seq<usize>
    decreases ks.len(),
{
    if ks.len() == 0 {
        Seq::empty()
    } else if ks.last() == PackKind::PassThrough {
        packed_indices(ks.drop_last())
    } else {
        packed_indices(ks.drop_last()).push((ks.len() - 1) as usize)
    }
}

/// The positions of the pass-through fields among fields of kinds `ks`, in
/// order.
pub open spec fn passthrough_indices(ks: Seq<PackKind>) -> Seq<usize>
    decreases ks.len(),
{
    if ks.len() == 0 {
        Seq::empty()
    } else if ks.last() == PackKind::PassThrough {
        passthrough_indices(ks.drop_last()).push((ks.len() - 1) as usize)
    } else {
        passthrough_indices(ks.drop_last())
    }
}

/// `p` describes the packed field at position `p.field` of `fields`. Its
/// flag is named after the field in upper case, its presence flag after
/// that with `_OPT_TAG`; either name may carry trailing underscores that
/// keep it apart from the other names.
pub open spec fn describes(fields: Seq<FieldDescription>, p: BoolField) -> bool {
    let ks = spec_kinds(fields);
    &&& p.field < fields.len()
    &&& p.slot == spec_slots(ks)[p.field as int]
    &&& exists|n: nat| p.flag_ident@ == upper_of(fields[p.field as int].name@) + #[trigger] underscores(n)
    &&& match p.tag_bit_flag_ident {
        Some(t) => ks[p.field as int] == PackKind::OptionalBool && exists|n: nat|
            t@ == upper_of(fields[p.field as int].name@) + "_OPT_TAG"@ + #[trigger] underscores(n),
        None => ks[p.field as int] == PackKind::Bool,
    }
}

/// Whether the presence flag of `p`, if it has one, is named otherwise than
/// `s`.
pub open spec fn tag_differs(p: BoolField, s: Seq<char>) -> bool {
    match p.tag_bit_flag_ident {
        Some(t) => t@ != s,
        None => true,
    }
}

/// The flag names of the packed fields `ps` are pairwise distinct, and none
/// is the name of a field of `fields`.
pub open spec fn flag_names_distinct(fields: Seq<FieldDescription>, ps: Seq<BoolField>) -> bool {
    &&& forall|i: int, f: int|
        #![trigger ps[i], fields[f]]
        0 <= i < ps.len() && 0 <= f < fields.len() ==> ps[i].flag_ident@ != fields[f].name@ && tag_differs(
            ps[i],
            fields[f].name@,
        )
    &&& forall|i: int| 0 <= i < ps.len() ==> tag_differs(#[trigger] ps[i], ps[i].flag_ident@)
    &&& forall|i: int, j: int|
        #![trigger ps[i], ps[j]]
        0 <= i < ps.len() && 0 <= j < ps.len() && i != j ==> ps[i].flag_ident@ != ps[j].flag_ident@ && tag_differs(
            ps[j],
            ps[i].flag_ident@,
        ) && match (ps[i].tag_bit_flag_ident, ps[j].tag_bit_flag_ident) {
            (Some(a), Some(b)) => a@ != b@,
            _ => true,
        }
}

/// Every name that `used` must keep apart: the field names, and the flag
/// names given so far.
spec fn holds_names(used: Seq<Seq<char>>, fields: Seq<FieldDescription>, ps: Seq<BoolField>) -> bool {
    &&& forall|f: int| 0 <= f < fields.len() ==> used.contains(#[trigger] fields[f].name@)
    &&& forall|i: int| 0 <= i < ps.len() ==> used.contains((#[trigger] ps[i]).flag_ident@)
    &&& forall|i: int| 0 <= i < ps.len() ==> match (#[trigger] ps[i]).tag_bit_flag_ident {
        Some(t) => used.contains(t@),
        None => true,
    }
}

/// The names of the fields, in order.
fn field_names(fields: &Vec<FieldDescription>) -> (r: Vec<String>)
    ensures
        forall|f: int| 0 <= f < fields@.len() ==> r.deep_view().contains(#[trigger] fields@[f].name@),
{
    let mut r: Vec<String> = Vec::new();
    let mut k: usize = 0;
    while k < fields.len()
        invariant
            k <= fields@.len(),
            r@.len() == k,
            forall|f: int| 0 <= f < k ==> #[trigger] r@[f]@ == fields@[f].name@,
        decreases fields@.len() - k,
    {
        r.push(fields[k].name.clone());
        k = k + 1;
    }
    assert forall|f: int| 0 <= f < fields@.len() implies r.deep_view().contains(#[trigger] fields@[f].name@) by {
        assert(r.deep_view()[f] == r@[f]@);
    }
    r
}

/// The packed fields of the record, in declaration order, with flag names
/// that are pairwise distinct and differ from every field name.
pub fn packed_fields(fields: &Vec<FieldDescription>, kinds: &Vec<PackKind>, slots: &Vec<Slot>) -> (r: Vec<BoolField>)
    requires
        kinds@ == spec_kinds(fields@),
        slots@ == spec_slots(kinds@),
    ensures
        r@.len() == packed_indices(kinds@).len(),
        forall|i: int| 0 <= i < r@.len() ==> (#[trigger] r@[i]).field == packed_indices(kinds@)[i],
        forall|i: int| 0 <= i < r@.len() ==> describes(fields@, #[trigger] r@[i]),
        flag_names_distinct(fields@, r@),
{
    let mut used = field_names(fields);
    let mut r: Vec<BoolField> = Vec::new();
    let mut k: usize = 0;
    while k < fields.len()
        invariant
            k <= fields@.len(),
            kinds@ == spec_kinds(fields@),
            slots@ == spec_slots(kinds@),
            r@.len() == packed_indices(kinds@.take(k as int)).len(),
            forall|i: int| 0 <= i < r@.len() ==> (#[trigger] r@[i]).field == packed_indices(kinds@.take(k as int))[i],
            forall|i: int| 0 <= i < r@.len() ==> describes(fields@, #[trigger] r@[i]),
            holds_names(used.deep_view(), fields@, r@),
            forall|i: int| 0 <= i < r@.len() ==> tag_differs(#[trigger] r@[i], r@[i].flag_ident@),
            flag_names_distinct(fields@, r@),
        decreases fields@.len() - k,
    {
        assert(kinds@.take(k as int + 1).drop_last() =~= kinds@.take(k as int));
        let ghost before = r@;
        let ghost used0 = used.deep_view();
        if kinds[k] != PackKind::PassThrough {
            let flag = fresh_name(flag_name(&fields[k].name), &used);
            used.push(flag.clone());
            let ghost used1 = used.deep_view();
            assert(used1 =~= used0.push(flag@));
            let tag = if kinds[k] == PackKind::OptionalBool {
                let t = fresh_name(presence_flag_name(&fields[k].name), &used);
                used.push(t.clone());
                assert(used.deep_view() =~= used1.push(t@));
                Some(t)
            } else {
                None
            };
            let p = BoolField { field: k, slot: slots[k], flag_ident: flag, tag_bit_flag_ident: tag };
            let ghost gp = p;
            r.push(p);
            proof {
                let p = gp;
                let n = r@.len() - 1;
                assert(r@[n] == p);
                assert forall|x: Seq<char>| used0.contains(x) implies used.deep_view().contains(x) by {
                    let j = choose|j: int| 0 <= j < used0.len() && used0[j] == x;
                    assert(used.deep_view()[j] == x);
                }
                assert(used.deep_view().contains(p.flag_ident@)) by {
                    assert(used1[used1.len() - 1] == p.flag_ident@);
                    assert(used.deep_view()[used1.len() - 1] == p.flag_ident@);
                }
                if let Some(t) = p.tag_bit_flag_ident {
                    assert(used.deep_view()[used.deep_view().len() - 1] == t@);
                    assert(used1[used1.len() - 1] == p.flag_ident@);
                    assert(used1.contains(p.flag_ident@));
                    assert(t@ != p.flag_ident@);
                }
                assert forall|i: int| 0 <= i < r@.len() implies describes(fields@, #[trigger] r@[i]) by {
                    if i < n {
                        assert(r@[i] == before[i]);
                    }
                }
                assert forall|i: int| 0 <= i < r@.len() implies tag_differs(#[trigger] r@[i], r@[i].flag_ident@) by {
                    if i < n {
                        assert(r@[i] == before[i]);
                    }
                }
                assert forall|i: int| 0 <= i < r@.len() implies used.deep_view().contains((#[trigger] r@[i]).flag_ident@)
                    && match r@[i].tag_bit_flag_ident {
                    Some(t) => used.deep_view().contains(t@),
                    None => true,
                } by {
                    if i < n {
                        assert(r@[i] == before[i]);
                        assert(used0.contains(before[i].flag_ident@));
                        if let Some(t) = before[i].tag_bit_flag_ident {
                            assert(used0.contains(t@));
                        }
                    }
                }
                assert forall|f: int| 0 <= f < fields@.len() implies used.deep_view().contains(#[trigger] fields@[f].name@) by {
                    assert(used0.contains(fields@[f].name@));
                }
                assert forall|i: int, f: int|
                    #![trigger r@[i], fields@[f]]
                    0 <= i < r@.len() && 0 <= f < fields@.len() implies r@[i].flag_ident@ != fields@[f].name@ && tag_differs(
                        r@[i],
                        fields@[f].name@,
                    ) by {
                    assert(used0.contains(fields@[f].name@));
                    if i < n {
                        assert(r@[i] == before[i]);
                        assert(before[i] == before[i] && fields@[f] == fields@[f]);
                    } else {
                        assert(used1.contains(fields@[f].name@)) by {
                            let j = choose|j: int| 0 <= j < used0.len() && used0[j] == fields@[f].name@;
                            assert(used1[j] == fields@[f].name@);
                        }
                    }
                }
                assert forall|i: int, j: int|
                    #![trigger r@[i], r@[j]]
                    0 <= i < r@.len() && 0 <= j < r@.len() && i != j implies r@[i].flag_ident@ != r@[j].flag_ident@
                        && tag_differs(r@[j], r@[i].flag_ident@) && match (r@[i].tag_bit_flag_ident, r@[j].tag_bit_flag_ident) {
                        (Some(a), Some(b)) => a@ != b@,
                        _ => true,
                    } by {
                    if i < n && j < n {
                        assert(r@[i] == before[i] && r@[j] == before[j]);
                    } else {
                        let o = if i < n { i } else { j };
                        assert(r@[o] == before[o]);
                        assert(used0.contains(before[o].flag_ident@));
                        assert(used1.contains(before[o].flag_ident@)) by {
                            let w = choose|w: int| 0 <= w < used0.len() && used0[w] == before[o].flag_ident@;
                            assert(used1[w] == before[o].flag_ident@);
                        }
                        if let Some(t) = before[o].tag_bit_flag_ident {
                            assert(used0.contains(t@));
                            assert(used1.contains(t@)) by {
                                let w = choose|w: int| 0 <= w < used0.len() && used0[w] == t@;
                                assert(used1[w] == t@);
                            }
                        }
                    }
                }
            }
        }
        k = k + 1;
        assert forall|i: int| 0 <= i < r@.len() implies (#[trigger] r@[i]).field == packed_indices(kinds@.take(k as int))[i] by {
            if i < before.len() {
                assert(r@[i] == before[i]);
            }
        }
    }
    assert(kinds@.take(k as int) =~= kinds@);
    r
}

/// One named bit of a flags type.
#[derive(Clone, Debug)]
pub struct FlagBit {
    pub name: String,
    pub bit: u32,
}

/// The value bits of the packed fields, in declaration order.
pub open spec fn value_bits(ps: Seq<BoolField>) -> Seq<(Seq<char>, u32)> {
    ps.map_values(|p: BoolField| (p.flag_ident@, match p.slot {
        Slot::Bool { bit } => bit,
        Slot::OptionalBool { bit, .. } => bit,
        Slot::PassThrough => 0,
    }))
}

/// The presence bits of the `Option<bool>` fields, in declaration order.
pub open spec fn presence_bits(ps: Seq<BoolField>) -> Seq<(Seq<char>, u32)>
    decreases ps.len(),
{
    if ps.len() == 0 {
        Seq::empty()
    } else {
        match (ps.last().tag_bit_flag_ident, ps.last().slot) {
            (Some(n), Slot::OptionalBool { presence, .. }) => presence_bits(ps.drop_last()).push((n@, presence)),
            _ => presence_bits(ps.drop_last()),
        }
    }
}

/// The view of a list of named bits.
pub open spec fn bits_view(bs: Seq<FlagBit>) -> Seq<(Seq<char>, u32)> {
    bs.map_values(|b: FlagBit| (b.name@, b.bit))
}

/// The flags type that replaces the packed fields.
#[derive(Clone, Debug)]
pub struct FlagsType {
    pub name: String,
    pub width: FlagWidth,
    /// The value bits in declaration order, then the presence bits.
    pub bits: Vec<FlagBit>,
    /// The derive requests forwarded from the record.
    pub derives: Vec<Vec<DerivePath>>,
    /// Whether the size instrumentation is implemented for it.
    pub size_instrumented: bool,
}

/// The named bits of the flags type: the value bit of each packed field in
/// declaration order, then the presence bit of each `Option<bool>` field.
pub fn flag_bits(packed: &Vec<BoolField>) -> (r: Vec<FlagBit>)
    ensures
        bits_view(r@) == value_bits(packed@) + presence_bits(packed@),
{
    let mut r: Vec<FlagBit> = Vec::new();
    let mut i: usize = 0;
    while i < packed.len()
        invariant
            i <= packed@.len(),
            bits_view(r@) == value_bits(packed@).take(i as int),
        decreases packed@.len() - i,
    {
        let p = &packed[i];
        let bit = match p.slot {
            Slot::Bool { bit } => bit,
            Slot::OptionalBool { bit, .. } => bit,
            Slot::PassThrough => 0,
        };
        let ghost before = r@;
        r.push(FlagBit { name: p.flag_ident.clone(), bit });
        assert(bits_view(r@) =~= bits_view(before).push((packed@[i as int].flag_ident@, bit)));
        i = i + 1;
        assert(value_bits(packed@).take(i as int) =~= value_bits(packed@).take(i - 1).push(value_bits(packed@)[i - 1]));
        assert(bits_view(r@) =~= value_bits(packed@).take(i as int));
    }
    assert(value_bits(packed@).take(i as int) =~= value_bits(packed@));
    let ghost values = bits_view(r@);
    let mut i: usize = 0;
    while i < packed.len()
        invariant
            i <= packed@.len(),
            bits_view(r@) == values + presence_bits(packed@.take(i as int)),
        decreases packed@.len() - i,
    {
        assert(packed@.take(i as int + 1).drop_last() =~= packed@.take(i as int));
        assert(packed@.take(i as int + 1).last() == packed@[i as int]);
        let ghost before = r@;
        let p = &packed[i];
        if let Some(n) = &p.tag_bit_flag_ident {
            if let Slot::OptionalBool { presence, .. } = p.slot {
                r.push(FlagBit { name: n.clone(), bit: presence });
                assert(bits_view(r@) =~= bits_view(before).push((n@, presence)));
            }
        }
        i = i + 1;
        assert(bits_view(r@) =~= values + presence_bits(packed@.take(i as int)));
    }
    assert(packed@.take(i as int) =~= packed@);
    r
}

/// The flags type of a record: its name, width, named bits, and what the
/// annotation rewriter forwards to it.
pub fn flags_type(
    name: String,
    width: FlagWidth,
    packed: &Vec<BoolField>,
    derives: Vec<Vec<DerivePath>>,
    size_instrumented: bool,
) -> (r: FlagsType)
    ensures
        r.name == name,
        r.width == width,
        bits_view(r.bits@) == value_bits(packed@) + presence_bits(packed@),
        r.derives == derives,
        r.size_instrumented == size_instrumented,
{
    FlagsType { name, width, bits: flag_bits(packed), derives, size_instrumented }
}

} // verus!
