use vstd::prelude::*;

verus! {

/// What `str::to_uppercase` returns for the characters `s`.
pub uninterp spec fn upper_of(s: Seq<char>) -> Seq<char>;

/// Relies on `str::to_uppercase`: the upper-case form of a field name, whose
/// result depends on the characters alone, and is empty for an empty name.
#[verifier::external_body]
fn to_uppercase(s: &str) -> (r: String)
    ensures
        r@ == upper_of(s@),
        s@.len() == 0 ==> r@.len() == 0,
{
    s.to_uppercase()
}

/// `a` followed by `b`.
pub fn join(a: &str, b: &str) -> (r: String)
    ensures
        r@ == a@ + b@,
{
    String::from_str(a).concat(b)
}

/// The name of the flag that holds the value of field `field`: its name in
/// upper case.
pub fn flag_name(field: &String) -> (r: String)
    ensures
        r@ == upper_of(field@),
{
    to_uppercase(field.as_str())
}

/// The name of the flag that says whether the `Option<bool>` field `field`
/// holds a value.
pub fn presence_flag_name(field: &String) -> (r: String)
    ensures
        r@ == upper_of(field@) + "_OPT_TAG"@,
{
    let f = flag_name(field);
    join(f.as_str(), "_OPT_TAG")
}

/// `n` underscores.
pub open spec fn underscores(n: nat) -> Seq<char> {
    Seq::new(n, |i: int| '_')
}

/// The length of the longest text in `names`.
pub open spec fn longest(names: Seq<Seq<char>>) -> nat
    decreases names.len(),
{
    if names.len() == 0 {
        0
    } else {
        let rest = longest(names.drop_last());
        if names.last().len() > rest {
            names.last().len()
        } else {
            rest
        }
    }
}

proof fn lemma_longest(names: Seq<Seq<char>>, s: Seq<char>)
    requires
        names.contains(s),
    ensures
        s.len() <= longest(names),
    decreases names.len(),
{
    if names.last() != s {
        let j = choose|j: int| 0 <= j < names.len() && names[j] == s;
        assert(names.drop_last()[j] == s);
        lemma_longest(names.drop_last(), s);
    }
}

/// Whether `s` is one of `names`.
pub fn contains_text(names: &Vec<String>, s: &String) -> (r: bool)
    ensures
        r == names.deep_view().contains(s@),
{
    let mut i: usize = 0;
    while i < names.len()
        invariant
            i <= names@.len(),
            forall|j: int| 0 <= j < i ==> names@[j]@ != s@,
        decreases names@.len() - i,
    {
        if names[i].eq(s) {
            assert(names.deep_view()[i as int] == s@);
            return true;
        }
        i = i + 1;
    }
    proof {
        if names.deep_view().contains(s@) {
            let j = choose|j: int| 0 <= j < names.deep_view().len() && names.deep_view()[j] == s@;
            assert(names@[j]@ == s@);
        }
    }
    false
}

/// `base` with underscores appended until it is none of `used`; `base`
/// itself where it is none of them.
pub fn fresh_name(base: String, used: &Vec<String>) -> (r: String)
    ensures
        exists|n: nat| r@ == base@ + #[trigger] underscores(n),
        !used.deep_view().contains(r@),
        !used.deep_view().contains(base@) ==> r@ == base@,
{
    let ghost bound = longest(used.deep_view());
    let ghost start = base@;
    let mut r = base;
    let ghost mut n: nat = 0;
    assert(start + underscores(0) =~= start);
    while contains_text(used, &r)
        invariant
            r@ == start + underscores(n),
            n > 0 ==> used.deep_view().contains(start),
            bound == longest(used.deep_view()),
        decreases bound + 1 - r@.len(),
    {
        proof {
            lemma_longest(used.deep_view(), r@);
            if n == 0 {
                assert(r@ == start);
            }
        }
        r.append("_");
        proof {
            reveal_strlit("_");
            assert("_"@ =~= seq!['_']);
            assert(start + underscores(n + 1) =~= start + underscores(n) + "_"@);
            n = n + 1;
        }
    }
    r
}

/// The name of the flags type of record `record`.
pub fn flags_type_name(record: &String) -> (r: String)
    ensures
        r@ == record@ + "GeneratedFlags"@,
{
    join(record.as_str(), "GeneratedFlags")
}

/// The name of the flat twin of record `record`.
pub fn twin_name(record: &String) -> (r: String)
    ensures
        r@ == record@ + "GeneratedOriginal"@,
{
    join(record.as_str(), "GeneratedOriginal")
}

/// The name of the compacted record's field that holds the flags.
pub fn flag_field_name() -> (r: String)
    ensures
        r@ == "__generated_flags"@,
{
    String::from_str("__generated_flags")
}

} // verus!
