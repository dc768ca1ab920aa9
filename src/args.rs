use vstd::prelude::*;

verus! {

/// The options of one invocation.
#[derive(Clone, Debug, Default)]
pub struct Args {
    /// Written before each getter's name; none by default.
    pub getter_prefix: Option<String>,
    /// Written before each setter's name; `set_` by default.
    pub setter_prefix: Option<String>,
    /// Getters are `pub(crate)` whatever the field's visibility.
    pub private_getters: bool,
    /// Setters are `pub(crate)` whatever the field's visibility.
    pub private_setters: bool,
    /// The field's documentation goes on the setter instead of the getter.
    pub document_setters: bool,
    /// Setters take `self` and return it instead of taking `&mut self`.
    pub owning_setters: bool,
}

/// The getter prefix in force.
pub open spec fn spec_getter_prefix(a: Args) -> Seq<char> {
    match a.getter_prefix {
        Some(p) => p@,
        None => Seq::empty(),
    }
}

/// The setter prefix in force.
pub open spec fn spec_setter_prefix(a: Args) -> Seq<char> {
    match a.setter_prefix {
        Some(p) => p@,
        None => "set_"@,
    }
}

impl Args {
    /// The getter prefix in force: the one given, or none.
    pub fn getter_prefix_or_default(&self) -> (r: String)
        ensures
            r@ == spec_getter_prefix(*self),
    {
        match &self.getter_prefix {
            Some(p) => p.clone(),
            None => String::new(),
        }
    }

    /// The setter prefix in force: the one given, or `set_`.
    pub fn setter_prefix_or_default(&self) -> (r: String)
        ensures
            r@ == spec_setter_prefix(*self),
    {
        match &self.setter_prefix {
            Some(p) => p.clone(),
            None => String::from_str("set_"),
        }
    }
}

} // verus!
