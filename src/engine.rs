use vstd::prelude::*;

use crate::accessors::{accessor_for, accessors, Accessor};
use crate::annotations::{
    flags_derives, kept_annotations, paths_view, requests, hijack_derives, HijackOutput, DeriveRole,
};
use crate::args::Args;
use crate::classify::{classify_fields, spec_kinds, PackKind};
use crate::error::Error;
use crate::flags_type::{
    bits_view, describes, flag_names_distinct, flags_type, packed_fields, packed_indices, passthrough_indices, presence_bits, value_bits,
    FlagsType, BoolField,
};
use crate::layout::{
    bit_demand, count_packed, lemma_bits_below_demand, lemma_count_monotone, lemma_count_step, plan_slots, slot_bits,
    smallest_width, spec_slots, Slot,
    MAX_FLAG_BITS,
};
use crate::naming::{flag_field_name, flags_type_name, twin_name};
use crate::packed::{lemma_pass_step, pass_count, pass_pos};
use crate::record::{FieldDescription, Fields, RecordDescription};

verus! {

/// Everything that one transformation emits.
pub struct Artifacts {
    /// The flat twin: the record as declared, renamed.
    pub twin: RecordDescription,
    /// The name of the compacted record: the record's own.
    pub compacted_name: String,
    /// The name of the compacted record's flags field.
    pub flag_field: String,
    /// The positions among the twin's fields of the compacted record's
    /// pass-through fields, in order; the flags field follows them.
    pub passthrough: Vec<usize>,
    /// The positions of the twin's annotations that the compacted record
    /// carries, in order.
    pub compacted_attrs: Vec<usize>,
    /// Whether the compacted record deserializes by way of the twin.
    pub deserialize_via_twin: bool,
    /// Whether the compacted record serializes by way of the twin.
    pub serialize_via_twin: bool,
    /// The slot of each of the twin's fields.
    pub slots: Vec<Slot>,
    /// The packed fields, in declaration order.
    pub packed: Vec<BoolField>,
    pub flags: FlagsType,
    /// One accessor pair for each packed field, in the same order.
    pub accessors: Vec<Accessor>,
}

/// The positions of the pass-through fields, in order.
pub fn passthrough_fields(kinds: &Vec<PackKind>) -> (r: Vec<usize>)
    ensures
        r@ == passthrough_indices(kinds@),
{
    let mut r: Vec<usize> = Vec::new();
    let mut k: usize = 0;
    while k < kinds.len()
        invariant
            k <= kinds@.len(),
            r@ == passthrough_indices(kinds@.take(k as int)),
        decreases kinds@.len() - k,
    {
        assert(kinds@.take(k as int + 1).drop_last() =~= kinds@.take(k as int));
        if kinds[k] == PackKind::PassThrough {
            r.push(k);
        }
        k = k + 1;
    }
    assert(kinds@.take(k as int) =~= kinds@);
    r
}

/// The named fields of a record; none for another shape.
pub open spec fn record_fields(record: RecordDescription) -> Seq<FieldDescription> {
    match record.fields {
        Fields::Named(fs) => fs@,
        _ => Seq::empty(),
    }
}

/// The number of flag bits that the record's fields need.
pub open spec fn record_demand(record: RecordDescription) -> nat {
    bit_demand(spec_kinds(record_fields(record)))
}

/// `a` is what transforming the named-field record `record` gives under the
/// options `args`.
pub open spec fn artifacts_of(args: Args, record: RecordDescription, a: Artifacts) -> bool {
    let fs = record_fields(record);
    let ks = spec_kinds(fs);
    &&& fs.len() <= usize::MAX
    &&& a.twin.name@ == record.name@ + "GeneratedOriginal"@
    &&& a.twin.vis == record.vis
    &&& a.twin.generics == record.generics
    &&& a.twin.fields == record.fields
    &&& a.twin.attrs == record.attrs
    &&& a.compacted_name == record.name
    &&& a.flag_field@ == "__generated_flags"@
    &&& a.passthrough@ == passthrough_indices(ks)
    &&& a.compacted_attrs@ == kept_annotations(record.attrs@)
    &&& a.deserialize_via_twin == requests(record.attrs@, DeriveRole::Deserialize)
    &&& a.serialize_via_twin == requests(record.attrs@, DeriveRole::Serialize)
    &&& a.slots@ == spec_slots(ks)
    &&& a.packed@.len() == packed_indices(ks).len()
    &&& forall|i: int| 0 <= i < a.packed@.len() ==> (#[trigger] a.packed@[i]).field == packed_indices(ks)[i]
    &&& forall|i: int| 0 <= i < a.packed@.len() ==> describes(fs, #[trigger] a.packed@[i])
    &&& flag_names_distinct(fs, a.packed@)
    &&& a.flags.name@ == record.name@ + "GeneratedFlags"@
    &&& a.flags.width == smallest_width(bit_demand(ks))
    &&& bits_view(a.flags.bits@) == value_bits(a.packed@) + presence_bits(a.packed@)
    &&& a.flags.derives@.len() == flags_derives(record.attrs@).len()
    &&& forall|i: int| 0 <= i < a.flags.derives@.len() ==> paths_view(#[trigger] a.flags.derives@[i]@) == flags_derives(record.attrs@)[i]
    &&& a.flags.size_instrumented == requests(record.attrs@, DeriveRole::SizeInstrumentation)
    &&& a.accessors@.len() == a.packed@.len()
    &&& forall|i: int| 0 <= i < a.accessors@.len() ==> accessor_for(args, fs, a.packed@[i], #[trigger] a.accessors@[i])
}

proof fn lemma_passthrough_indices(ks: Seq<PackKind>)
    requires
        ks.len() <= usize::MAX,
    ensures
        passthrough_indices(ks).len() == ks.len() - count_packed(ks),
        forall|j: int|
            0 <= j < passthrough_indices(ks).len() ==> {
                let k = #[trigger] passthrough_indices(ks)[j] as int;
                &&& 0 <= k < ks.len()
                &&& ks[k] == PackKind::PassThrough
                &&& k - count_packed(ks.take(k)) == j
            },
    decreases ks.len(),
{
    if ks.len() > 0 {
        let d = ks.drop_last();
        lemma_passthrough_indices(d);
        lemma_count_monotone(d, 0, d.len() as int);
        assert(d.take(0) =~= Seq::<PackKind>::empty());
        assert(d.take(d.len() as int) =~= d);
        assert(ks.take(ks.len() - 1) =~= d);
        assert forall|j: int| 0 <= j < passthrough_indices(d).len() implies ks.take(
            #[trigger] passthrough_indices(d)[j] as int,
        ) == d.take(passthrough_indices(d)[j] as int) by {
            let k = passthrough_indices(d)[j] as int;
            assert(ks.take(k) =~= d.take(k));
        }
        let idx = passthrough_indices(ks);
        assert forall|j: int| 0 <= j < idx.len() implies {
            let k = #[trigger] idx[j] as int;
            &&& 0 <= k < ks.len()
            &&& ks[k] == PackKind::PassThrough
            &&& k - count_packed(ks.take(k)) == j
        } by {
            if j < passthrough_indices(d).len() {
                assert(idx[j] == passthrough_indices(d)[j]);
                assert(ks.take(idx[j] as int) == d.take(idx[j] as int));
                assert(d[idx[j] as int] == ks[idx[j] as int]);
            } else {
                assert(ks.last() == PackKind::PassThrough);
                assert(idx[j] as int == ks.len() - 1);
                assert(ks.take(ks.len() - 1) == d);
            }
        }
    }
}

proof fn lemma_pass_count_of_slots(ks: Seq<PackKind>, k: int)
    requires
        0 <= k <= ks.len(),
    ensures
        pass_count(spec_slots(ks).take(k)) == k - count_packed(ks.take(k)),
    decreases k,
{
    if k > 0 {
        lemma_pass_count_of_slots(ks, k - 1);
        lemma_pass_step(spec_slots(ks), k - 1);
        lemma_count_step(ks, k - 1);
    } else {
        assert(spec_slots(ks).take(0) =~= Seq::<Slot>::empty());
        assert(ks.take(0) =~= Seq::<PackKind>::empty());
    }
}

proof fn lemma_packed_indices(ks: Seq<PackKind>)
    requires
        ks.len() <= usize::MAX,
    ensures
        packed_indices(ks).len() == count_packed(ks),
        forall|i: int|
            0 <= i < packed_indices(ks).len() ==> {
                let k = #[trigger] packed_indices(ks)[i] as int;
                &&& 0 <= k < ks.len()
                &&& ks[k] != PackKind::PassThrough
                &&& count_packed(ks.take(k)) == i
            },
    decreases ks.len(),
{
    if ks.len() > 0 {
        let d = ks.drop_last();
        lemma_packed_indices(d);
        assert(ks.take(ks.len() - 1) =~= d);
        let idx = packed_indices(ks);
        assert forall|i: int| 0 <= i < idx.len() implies {
            let k = #[trigger] idx[i] as int;
            &&& 0 <= k < ks.len()
            &&& ks[k] != PackKind::PassThrough
            &&& count_packed(ks.take(k)) == i
        } by {
            if i < packed_indices(d).len() {
                let k = packed_indices(d)[i] as int;
                assert(idx[i] == packed_indices(d)[i]);
                assert(ks.take(k) =~= d.take(k));
                assert(d[k] == ks[k]);
            } else {
                assert(ks.last() != PackKind::PassThrough);
                assert(idx[i] as int == ks.len() - 1);
                assert(ks.take(ks.len() - 1) == d);
            }
        }
    }
}

/// The value bits are numbered densely from 0: the `i`-th packed field, in
/// declaration order, holds its value in bit `i`, and there are as many
/// packed fields as value bits. Every bit that a field uses lies inside the
/// flags type's width.
pub proof fn lemma_bit_numbering(args: Args, record: RecordDescription, a: Artifacts)
    requires
        artifacts_of(args, record, a),
        record_demand(record) <= MAX_FLAG_BITS,
    ensures
        a.packed@.len() == count_packed(spec_kinds(record_fields(record))),
        forall|i: int|
            0 <= i < a.packed@.len() ==> match (#[trigger] a.packed@[i]).slot {
                Slot::Bool { bit } => bit == i,
                Slot::OptionalBool { bit, .. } => bit == i,
                Slot::PassThrough => false,
            },
        forall|k: int, b: u32|
            0 <= k < a.slots@.len() && #[trigger] slot_bits(a.slots@[k]).contains(b) ==> b < a.flags.width.spec_bits(),
{
    let ks = spec_kinds(record_fields(record));
    lemma_packed_indices(ks);
    lemma_bits_below_demand(ks);
    assert forall|i: int| 0 <= i < a.packed@.len() implies match (#[trigger] a.packed@[i]).slot {
        Slot::Bool { bit } => bit == i,
        Slot::OptionalBool { bit, .. } => bit == i,
        Slot::PassThrough => false,
    } by {
        let k = packed_indices(ks)[i] as int;
        assert(a.packed@[i].field == packed_indices(ks)[i]);
        assert(describes(record_fields(record), a.packed@[i]));
    }
}

/// The compacted record's pass-through fields and the compacted value agree:
/// its `j`-th pass-through field is the twin's field `passthrough[j]`, a
/// pass-through field whose value the conversions keep at position `j`, and
/// there are as many such fields as pass-through slots. Being the twin's own
/// field, it carries the same conditional-compilation predicates in both
/// shapes.
pub proof fn lemma_passthrough_layout(args: Args, record: RecordDescription, a: Artifacts, j: int)
    requires
        artifacts_of(args, record, a),
        0 <= j < a.passthrough@.len(),
    ensures
        a.passthrough@[j] < record_fields(record).len(),
        a.slots@[a.passthrough@[j] as int] == Slot::PassThrough,
        pass_pos(a.slots@, a.passthrough@[j] as int) == j,
        a.passthrough@.len() == pass_count(a.slots@),
{
    let ks = spec_kinds(record_fields(record));
    lemma_passthrough_indices(ks);
    let k = a.passthrough@[j] as int;
    assert(k == passthrough_indices(ks)[j] as int);
    lemma_pass_count_of_slots(ks, k);
    lemma_pass_count_of_slots(ks, ks.len() as int);
    assert(ks.take(ks.len() as int) =~= ks);
    assert(spec_slots(ks).take(ks.len() as int) =~= spec_slots(ks));
}

/// Transforms a record: classifies its fields, lays out the flag bits, and
/// builds the twin, the flags type, the compacted record, and the accessors.
/// Fails with `UnsupportedShape` on a record without named fields, and with
/// `FlagOverflow` when the packed fields need more than 128 bits.
pub fn bool_to_bitflags_impl(args: &Args, record: RecordDescription) -> (r: Result<Artifacts, Error>)
    ensures
        !(record.fields is Named) ==> r == Err::<Artifacts, Error>(Error::UnsupportedShape),
        record.fields is Named && record_demand(record) > MAX_FLAG_BITS ==> r == Err::<Artifacts, Error>(
            Error::FlagOverflow(
                if record_demand(record) <= usize::MAX { record_demand(record) as usize } else { usize::MAX },
            ),
        ),
        record.fields is Named && record_demand(record) <= MAX_FLAG_BITS ==> (r matches Ok(a) && artifacts_of(
            *args,
            record,
            a,
        )),
{
    let RecordDescription { name, vis, generics, fields, attrs } = record;
    let fs = match fields {
        Fields::Named(fs) => fs,
        _ => {
            return Err(Error::UnsupportedShape);
        },
    };
    // The number of fields fits a `usize`, which the contract states.
    let _field_count = fs.len();
    let kinds = classify_fields(&fs);
    let (slots, width) = match plan_slots(&kinds) {
        Ok(layout) => layout,
        Err(e) => {
            return Err(e);
        },
    };
    let HijackOutput {
        compacted_attrs,
        flags_derives: derives,
        deserialize_via_twin,
        serialize_via_twin,
        size_instrumented,
    } = hijack_derives(&attrs);
    let packed = packed_fields(&fs, &kinds, &slots);
    let acc = accessors(args, &fs, &packed);
    let passthrough = passthrough_fields(&kinds);
    let flags = flags_type(flags_type_name(&name), width, &packed, derives, size_instrumented);
    let twin = RecordDescription { name: twin_name(&name), vis, generics, fields: Fields::Named(fs), attrs };
    Ok(Artifacts {
        twin,
        compacted_name: name,
        flag_field: flag_field_name(),
        passthrough,
        compacted_attrs,
        deserialize_via_twin,
        serialize_via_twin,
        slots,
        packed,
        flags,
        accessors: acc,
    })
}

} // verus!
