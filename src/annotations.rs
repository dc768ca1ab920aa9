use vstd::prelude::*;

use crate::classify::text_is;
use crate::record::{Annotation, DerivePath};

verus! {

/// What a derive request of the record becomes.
#[derive(Clone, Copy, PartialEq, Eq, Debug, Structural)]
pub enum DeriveRole {
    /// Forwarded as it is to the flags type.
    Forward,
    /// `serde::Serialize`: serialization goes through the flat twin.
    Serialize,
    /// `serde::Deserialize`: deserialization goes through the flat twin.
    Deserialize,
    /// `typesize::derive::TypeSize`: the flags type gets the size
    /// instrumentation by an impl of its own.
    SizeInstrumentation,
    /// An empty path: dropped.
    Dropped,
}

/// The role of a derive path, by its segments alone: only paths whose first
/// segment is `serde` or `typesize` are looked at.
pub open spec fn spec_derive_role(p: Seq<Seq<char>>) -> DeriveRole {
    if p.len() == 0 {
        DeriveRole::Dropped
    } else if p[0] != "serde"@ && p[0] != "typesize"@ {
        DeriveRole::Forward
    } else if p.len() < 2 {
        DeriveRole::Forward
    } else if p[1] == "Serialize"@ {
        DeriveRole::Serialize
    } else if p[1] == "Deserialize"@ {
        DeriveRole::Deserialize
    } else if p[1] == "derive"@ && p.len() >= 3 && p[2] == "TypeSize"@ {
        DeriveRole::SizeInstrumentation
    } else {
        DeriveRole::Forward
    }
}

/// The paths of one derive request that are forwarded to the flags type.
pub open spec fn forwarded(ps: Seq<DerivePath>) -> Seq<Seq<Seq<char>>>
    decreases ps.len(),
{
    if ps.len() == 0 {
        Seq::empty()
    } else if spec_derive_role(ps.last()@) == DeriveRole::Forward {
        forwarded(ps.drop_last()).push(ps.last()@)
    } else {
        forwarded(ps.drop_last())
    }
}

/// The derive requests of the flags type: one for each derive request of the
/// record, in order, holding its forwarded paths.
pub open spec fn flags_derives(attrs: Seq<Annotation>) -> Seq<Seq<Seq<Seq<char>>>>
    decreases attrs.len(),
{
    if attrs.len() == 0 {
        Seq::empty()
    } else {
        match attrs.last() {
            Annotation::Derive(ps) => flags_derives(attrs.drop_last()).push(forwarded(ps@)),
            _ => flags_derives(attrs.drop_last()),
        }
    }
}

/// The positions of the record's annotations that the compacted record
/// keeps: all but the serialization directives, in order.
pub open spec fn kept_annotations(attrs: Seq<Annotation>) -> Seq<usize>
    decreases attrs.len(),
{
    if attrs.len() == 0 {
        Seq::empty()
    } else if attrs.last() is Serde {
        kept_annotations(attrs.drop_last())
    } else {
        kept_annotations(attrs.drop_last()).push((attrs.len() - 1) as usize)
    }
}

/// Whether `a` is a derive request with a path of role `role`.
pub open spec fn derives_with_role(a: Annotation, role: DeriveRole) -> bool {
    match a {
        Annotation::Derive(ps) => exists|i: int| 0 <= i < ps@.len() && spec_derive_role(#[trigger] ps@[i]@) == role,
        _ => false,
    }
}

/// Whether some derive request of the record has a path of role `role`.
pub open spec fn requests(attrs: Seq<Annotation>, role: DeriveRole) -> bool {
    exists|k: int| 0 <= k < attrs.len() && #[trigger] derives_with_role(attrs[k], role)
}

/// What the rewriter makes of the record's annotations.
#[derive(Clone, Debug)]
pub struct HijackOutput {
    /// Positions of the record's annotations kept on the compacted record.
    pub compacted_attrs: Vec<usize>,
    /// The derive requests of the flags type, each as its paths.
    pub flags_derives: Vec<Vec<DerivePath>>,
    /// Whether the compacted record deserializes by way of the flat twin.
    pub deserialize_via_twin: bool,
    /// Whether the compacted record serializes by way of the flat twin.
    pub serialize_via_twin: bool,
    /// Whether the flags type gets the size instrumentation.
    pub size_instrumented: bool,
}

/// The view of a list of derive paths.
pub open spec fn paths_view(ps: Seq<DerivePath>) -> Seq<Seq<Seq<char>>> {
    ps.map_values(|p: DerivePath| p@)
}

/// The role of a derive path.
pub fn derive_role(p: &DerivePath) -> (r: DeriveRole)
    ensures
        r == spec_derive_role(p@),
{
    let s = &p.segments;
    proof {
        assert(p@.len() == s@.len());
        assert(forall|i: int| 0 <= i < s@.len() ==> p@[i] == s@[i]@);
    }
    if s.len() == 0 {
        DeriveRole::Dropped
    } else if !text_is(&s[0], "serde") && !text_is(&s[0], "typesize") {
        DeriveRole::Forward
    } else if s.len() < 2 {
        DeriveRole::Forward
    } else if text_is(&s[1], "Serialize") {
        DeriveRole::Serialize
    } else if text_is(&s[1], "Deserialize") {
        DeriveRole::Deserialize
    } else if text_is(&s[1], "derive") && s.len() >= 3 && text_is(&s[2], "TypeSize") {
        DeriveRole::SizeInstrumentation
    } else {
        DeriveRole::Forward
    }
}

/// A copy of a derive path with the same segments.
pub fn copy_path(p: &DerivePath) -> (r: DerivePath)
    ensures
        r@ == p@,
{
    let mut segments: Vec<String> = Vec::new();
    let mut i: usize = 0;
    while i < p.segments.len()
        invariant
            i <= p.segments@.len(),
            segments@.len() == i,
            forall|j: int| 0 <= j < i ==> #[trigger] segments@[j]@ == p.segments@[j]@,
        decreases p.segments@.len() - i,
    {
        let c = p.segments[i].clone();
        segments.push(c);
        i = i + 1;
    }
    assert(segments.deep_view() =~= p.segments.deep_view());
    DerivePath { segments }
}

/// Rewrites the record's annotations for the compacted record and the flags
/// type. Serialization requests are withheld from the flags type and turn
/// into "by way of the flat twin" hooks on the compacted record, one for each
/// direction that was requested, installed once however often it was asked
/// for. The record's own serialization directives stay on the twin only; the
/// compacted record keeps every other annotation in order, its derive
/// requests included, whose serialization derive then goes through the
/// hooks. Every derive path that is neither a serialization nor a size
/// instrumentation request is forwarded to the flags type.
pub fn hijack_derives(attrs: &Vec<Annotation>) -> (r: HijackOutput)
    ensures
        r.compacted_attrs@ == kept_annotations(attrs@),
        r.flags_derives@.len() == flags_derives(attrs@).len(),
        forall|i: int| 0 <= i < r.flags_derives@.len() ==> paths_view(#[trigger] r.flags_derives@[i]@) == flags_derives(attrs@)[i],
        r.deserialize_via_twin == requests(attrs@, DeriveRole::Deserialize),
        r.serialize_via_twin == requests(attrs@, DeriveRole::Serialize),
        r.size_instrumented == requests(attrs@, DeriveRole::SizeInstrumentation),
{
    let mut compacted_attrs: Vec<usize> = Vec::new();
    let mut derives: Vec<Vec<DerivePath>> = Vec::new();
    let mut de = false;
    let mut ser = false;
    let mut sized = false;
    let mut k: usize = 0;
    while k < attrs.len()
        invariant
            k <= attrs@.len(),
            compacted_attrs@ == kept_annotations(attrs@.take(k as int)),
            derives@.len() == flags_derives(attrs@.take(k as int)).len(),
            forall|i: int| 0 <= i < derives@.len() ==> paths_view(#[trigger] derives@[i]@) == flags_derives(attrs@.take(k as int))[i],
            de == requests(attrs@.take(k as int), DeriveRole::Deserialize),
            ser == requests(attrs@.take(k as int), DeriveRole::Serialize),
            sized == requests(attrs@.take(k as int), DeriveRole::SizeInstrumentation),
        decreases attrs@.len() - k,
    {
        let ghost pre = attrs@.take(k as int);
        let ghost next = attrs@.take(k as int + 1);
        assert(next.drop_last() =~= pre);
        assert(next.last() == attrs@[k as int]);
        let ghost old_derives = derives@;
        match &attrs[k] {
            Annotation::Serde(_) => {},
            _ => {
                compacted_attrs.push(k);
            },
        }
        if let Annotation::Derive(ps) = &attrs[k] {
            let mut kept: Vec<DerivePath> = Vec::new();
            let mut i: usize = 0;
            let ghost de0 = de;
            let ghost ser0 = ser;
            let ghost sized0 = sized;
            while i < ps.len()
                invariant
                    i <= ps@.len(),
                    paths_view(kept@) == forwarded(ps@.take(i as int)),
                    de == (de0 || exists|j: int| 0 <= j < i && spec_derive_role(ps@[j]@) == DeriveRole::Deserialize),
                    ser == (ser0 || exists|j: int| 0 <= j < i && spec_derive_role(ps@[j]@) == DeriveRole::Serialize),
                    sized == (sized0 || exists|j: int| 0 <= j < i && spec_derive_role(ps@[j]@) == DeriveRole::SizeInstrumentation),
                decreases ps@.len() - i,
            {
                assert(ps@.take(i as int + 1).drop_last() =~= ps@.take(i as int));
                let role = derive_role(&ps[i]);
                match role {
                    DeriveRole::Forward => {
                        kept.push(copy_path(&ps[i]));
                    },
                    DeriveRole::Serialize => {
                        ser = true;
                    },
                    DeriveRole::Deserialize => {
                        de = true;
                    },
                    DeriveRole::SizeInstrumentation => {
                        sized = true;
                    },
                    DeriveRole::Dropped => {},
                }
                i = i + 1;
                assert(paths_view(kept@) =~= forwarded(ps@.take(i as int)));
            }
            assert(ps@.take(i as int) =~= ps@);
            derives.push(kept);
            proof {
                assert forall|i: int| 0 <= i < derives@.len() implies paths_view(#[trigger] derives@[i]@) == flags_derives(next)[i] by {
                    if i < old_derives.len() {
                        assert(derives@[i] == old_derives[i]);
                    }
                }
            }
        }
        proof {
            assert forall|role: DeriveRole| #[trigger] requests(next, role) == (requests(pre, role) || derives_with_role(attrs@[k as int], role)) by {
                if requests(next, role) {
                    let a = choose|a: int| 0 <= a < next.len() && #[trigger] derives_with_role(next[a], role);
                    if a < k {
                        assert(pre[a] == next[a]);
                    }
                }
                if requests(pre, role) {
                    let a = choose|a: int| 0 <= a < pre.len() && #[trigger] derives_with_role(pre[a], role);
                    assert(next[a] == pre[a]);
                }
                if derives_with_role(attrs@[k as int], role) {
                    assert(next[k as int] == attrs@[k as int]);
                }
            }
            assert(requests(next, DeriveRole::Deserialize) == (requests(pre, DeriveRole::Deserialize) || derives_with_role(attrs@[k as int], DeriveRole::Deserialize)));
            assert(requests(next, DeriveRole::Serialize) == (requests(pre, DeriveRole::Serialize) || derives_with_role(attrs@[k as int], DeriveRole::Serialize)));
            assert(requests(next, DeriveRole::SizeInstrumentation) == (requests(pre, DeriveRole::SizeInstrumentation) || derives_with_role(attrs@[k as int], DeriveRole::SizeInstrumentation)));
        }
        k = k + 1;
    }
    assert(attrs@.take(k as int) =~= attrs@);
    HijackOutput {
        compacted_attrs,
        flags_derives: derives,
        deserialize_via_twin: de,
        serialize_via_twin: ser,
        size_instrumented: sized,
    }
}

} // verus!
