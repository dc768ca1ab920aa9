use vstd::prelude::*;

use crate::naming::contains_text;
use crate::record::{Annotation, FieldDescription};

verus! {

/// A build configuration: the conditional-compilation predicates that hold,
/// each as its source text.
#[derive(Clone, Debug)]
pub struct Configuration {
    pub holds: Vec<String>,
}

/// Whether every conditional-compilation predicate among `attrs` is one of
/// `holds`.
pub open spec fn cfg_holds(attrs: Seq<Annotation>, holds: Seq<Seq<char>>) -> bool {
    forall|i: int| 0 <= i < attrs.len() ==> match #[trigger] attrs[i] {
        Annotation::Cfg(p) => holds.contains(p@),
        _ => true,
    }
}

/// Whether the field is compiled in under `config`.
pub fn field_included(f: &FieldDescription, config: &Configuration) -> (r: bool)
    ensures
        r == cfg_holds(f.attrs@, config.holds.deep_view()),
{
    let mut i: usize = 0;
    while i < f.attrs.len()
        invariant
            i <= f.attrs@.len(),
            forall|j: int| 0 <= j < i ==> match #[trigger] f.attrs@[j] {
                Annotation::Cfg(p) => config.holds.deep_view().contains(p@),
                _ => true,
            },
        decreases f.attrs@.len() - i,
    {
        if let Annotation::Cfg(p) = &f.attrs[i] {
            if !contains_text(&config.holds, p) {
                return false;
            }
        }
        i = i + 1;
    }
    true
}

/// For each field, whether it is compiled in under `config`.
pub fn included_fields(fields: &Vec<FieldDescription>, config: &Configuration) -> (r: Vec<bool>)
    ensures
        r@.len() == fields@.len(),
        forall|k: int| 0 <= k < r@.len() ==> #[trigger] r@[k] == cfg_holds(fields@[k].attrs@, config.holds.deep_view()),
{
    let mut r: Vec<bool> = Vec::new();
    let mut k: usize = 0;
    while k < fields.len()
        invariant
            k <= fields@.len(),
            r@.len() == k,
            forall|j: int| 0 <= j < k ==> #[trigger] r@[j] == cfg_holds(fields@[j].attrs@, config.holds.deep_view()),
        decreases fields@.len() - k,
    {
        r.push(field_included(&fields[k], config));
        k = k + 1;
    }
    r
}

} // verus!
