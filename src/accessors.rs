use vstd::prelude::*;

use crate::args::{spec_getter_prefix, spec_setter_prefix, Args};
use crate::flags_type::BoolField;
use crate::layout::Slot;
use crate::naming::join;
use crate::record::{Annotation, FieldDescription, Visibility};

verus! {

/// The getter and setter that stand in for one packed field.
#[derive(Clone, Debug)]
pub struct Accessor {
    /// The position of the field among the record's fields.
    pub field: usize,
    pub slot: Slot,
    pub getter_name: String,
    pub setter_name: String,
    pub getter_vis: Visibility,
    pub setter_vis: Visibility,
    /// Whether the field's documentation goes on the setter instead of the
    /// getter.
    pub docs_on_setter: bool,
    /// The one-line documentation of the setter, where the field's own goes
    /// on the getter.
    pub setter_summary: Option<String>,
    /// Whether the setter takes `self` and returns it, instead of taking
    /// `&mut self`.
    pub owning_setter: bool,
}

/// The visibility of an accessor: the field's own, or `pub(crate)` where
/// the option asks for it.
pub open spec fn accessor_vis(field_vis: Visibility, private: bool) -> Visibility {
    if private {
        Visibility::Crate
    } else {
        field_vis
    }
}

/// The one-line documentation of the setter of field `name`.
pub open spec fn setter_summary_text(name: Seq<char>) -> Seq<char> {
    "Sets the `"@ + name + "` to the value provided."@
}

/// `a` is the accessor pair of the packed field `p` of `fields` under the
/// options `args`.
pub open spec fn accessor_for(args: Args, fields: Seq<FieldDescription>, p: BoolField, a: Accessor) -> bool {
    let f = fields[p.field as int];
    &&& a.field == p.field
    &&& a.slot == p.slot
    &&& a.getter_name@ == spec_getter_prefix(args) + f.name@
    &&& a.setter_name@ == spec_setter_prefix(args) + f.name@
    &&& a.getter_vis == accessor_vis(f.vis, args.private_getters)
    &&& a.setter_vis == accessor_vis(f.vis, args.private_setters)
    &&& a.docs_on_setter == args.document_setters
    &&& match a.setter_summary {
        Some(s) => !args.document_setters && s@ == setter_summary_text(f.name@),
        None => args.document_setters,
    }
    &&& a.owning_setter == args.owning_setters
}

/// The documentation lines among `attrs`, in order.
pub open spec fn spec_doc_lines(attrs: Seq<Annotation>) -> Seq<Seq<char>>
    decreases attrs.len(),
{
    if attrs.len() == 0 {
        Seq::empty()
    } else {
        match attrs.last() {
            Annotation::Doc(d) => spec_doc_lines(attrs.drop_last()).push(d@),
            _ => spec_doc_lines(attrs.drop_last()),
        }
    }
}

/// The documentation of a field: its documentation lines, in order, which go
/// on its getter or on its setter as the accessor says.
pub fn doc_lines(f: &FieldDescription) -> (r: Vec<String>)
    ensures
        r.deep_view() == spec_doc_lines(f.attrs@),
{
    let mut r: Vec<String> = Vec::new();
    let mut i: usize = 0;
    while i < f.attrs.len()
        invariant
            i <= f.attrs@.len(),
            r.deep_view() == spec_doc_lines(f.attrs@.take(i as int)),
        decreases f.attrs@.len() - i,
    {
        assert(f.attrs@.take(i as int + 1).drop_last() =~= f.attrs@.take(i as int));
        assert(f.attrs@.take(i as int + 1).last() == f.attrs@[i as int]);
        let ghost before = r.deep_view();
        if let Annotation::Doc(d) = &f.attrs[i] {
            r.push(d.clone());
            assert(r.deep_view() =~= before.push(d@));
        }
        i = i + 1;
    }
    assert(f.attrs@.take(i as int) =~= f.attrs@);
    r
}

/// The accessor pair of one packed field.
pub fn accessor(args: &Args, fields: &Vec<FieldDescription>, p: &BoolField) -> (r: Accessor)
    requires
        p.field < fields@.len(),
    ensures
        accessor_for(*args, fields@, *p, r),
{
    let f = &fields[p.field];
    let getter_prefix = args.getter_prefix_or_default();
    let setter_prefix = args.setter_prefix_or_default();
    let getter_vis = if args.private_getters {
        Visibility::Crate
    } else {
        f.vis.duplicate()
    };
    let setter_vis = if args.private_setters {
        Visibility::Crate
    } else {
        f.vis.duplicate()
    };
    let setter_summary = if args.document_setters {
        None
    } else {
        let head = join("Sets the `", f.name.as_str());
        Some(join(head.as_str(), "` to the value provided."))
    };
    Accessor {
        field: p.field,
        slot: p.slot,
        getter_name: join(getter_prefix.as_str(), f.name.as_str()),
        setter_name: join(setter_prefix.as_str(), f.name.as_str()),
        getter_vis,
        setter_vis,
        docs_on_setter: args.document_setters,
        setter_summary,
        owning_setter: args.owning_setters,
    }
}

/// The accessor pairs of all packed fields, in declaration order.
pub fn accessors(args: &Args, fields: &Vec<FieldDescription>, packed: &Vec<BoolField>) -> (r: Vec<Accessor>)
    requires
        forall|i: int| 0 <= i < packed@.len() ==> (#[trigger] packed@[i]).field < fields@.len(),
    ensures
        r@.len() == packed@.len(),
        forall|i: int| 0 <= i < r@.len() ==> accessor_for(*args, fields@, packed@[i], #[trigger] r@[i]),
{
    let mut r: Vec<Accessor> = Vec::new();
    let mut i: usize = 0;
    while i < packed.len()
        invariant
            i <= packed@.len(),
            forall|i: int| 0 <= i < packed@.len() ==> (#[trigger] packed@[i]).field < fields@.len(),
            r@.len() == i,
            forall|j: int| 0 <= j < i ==> accessor_for(*args, fields@, packed@[j], #[trigger] r@[j]),
        decreases packed@.len() - i,
    {
        let a = accessor(args, fields, &packed[i]);
        r.push(a);
        i = i + 1;
    }
    r
}

} // verus!
