use vstd::prelude::*;

use crate::record::{FieldDescription, FieldType, GenericArgs};

verus! {

/// How a field is carried in the compacted record.
#[derive(Clone, Copy, PartialEq, Eq, Debug, Structural)]
pub enum PackKind {
    /// Kept as a field of its own.
    PassThrough,
    /// A `bool`: one value bit.
    Bool,
    /// An `Option<bool>`: one value bit and one presence bit.
    OptionalBool,
}

/// The kind of a field, read from the text of its type alone: `bool` and
/// `Option<bool>` are packed, every other type (aliases of `bool` and
/// qualified paths included) passes through.
pub open spec fn spec_pack_kind(ty: FieldType) -> PackKind {
    match ty.first_segment {
        None => PackKind::PassThrough,
        Some(seg) => if seg.ident@ == "Option"@ && (match seg.args {
            GenericArgs::AngleBracketed(a) => a.deep_view() == seq!["bool"@],
            _ => false,
        }) {
            PackKind::OptionalBool
        } else if seg.ident@ == "bool"@ {
            PackKind::Bool
        } else {
            PackKind::PassThrough
        },
    }
}

/// The kinds of a list of fields, in order.
pub open spec fn spec_kinds(fields: Seq<FieldDescription>) -> Seq<PackKind> {
    fields.map_values(|f: FieldDescription| spec_pack_kind(f.ty))
}

/// Whether `s` reads as the text `lit`.
pub fn text_is(s: &String, lit: &str) -> (r: bool)
    ensures
        r == (s@ == lit@),
{
    let l = String::from_str(lit);
    s.eq(&l)
}

/// The kind of a field's type.
pub fn pack_kind(ty: &FieldType) -> (r: PackKind)
    ensures
        r == spec_pack_kind(*ty),
{
    match &ty.first_segment {
        None => PackKind::PassThrough,
        Some(seg) => {
            let is_opt_bool = text_is(&seg.ident, "Option") && match &seg.args {
                GenericArgs::AngleBracketed(a) => {
                    assert(a.deep_view().len() == a@.len());
                    if a.len() == 1 {
                        assert(a.deep_view()[0] == a@[0]@);
                        let b = text_is(&a[0], "bool");
                        proof {
                            if b {
                                assert(a.deep_view() =~= seq!["bool"@]);
                            }
                        }
                        b
                    } else {
                        false
                    }
                },
                _ => false,
            };
            if is_opt_bool {
                PackKind::OptionalBool
            } else if text_is(&seg.ident, "bool") {
                PackKind::Bool
            } else {
                PackKind::PassThrough
            }
        },
    }
}

/// The kinds of the fields, in declaration order.
pub fn classify_fields(fields: &Vec<FieldDescription>) -> (r: Vec<PackKind>)
    ensures
        r@ == spec_kinds(fields@),
{
    let mut r: Vec<PackKind> = Vec::new();
    let mut i: usize = 0;
    while i < fields.len()
        invariant
            i <= fields.len(),
            r@ == spec_kinds(fields@.take(i as int)),
        decreases fields.len() - i,
    {
        let k = pack_kind(&fields[i].ty);
        r.push(k);
        i = i + 1;
        assert(spec_kinds(fields@.take(i as int)) =~= spec_kinds(fields@.take(i - 1)).push(k));
    }
    assert(fields@.take(i as int) =~= fields@);
    r
}

} // verus!
