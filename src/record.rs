use vstd::prelude::*;

verus! {

/// The visibility written on a record or a field.
#[derive(Clone, PartialEq, Eq, Debug)]
pub enum Visibility {
    /// No visibility written: private to the enclosing module.
    Inherited,
    /// `pub`.
    Public,
    /// `pub(crate)`.
    Crate,
    /// `pub(in path)` or `pub(super)`, with the text inside the parentheses.
    Restricted(String),
}

impl Visibility {
    /// A copy equal to `self`.
    pub fn duplicate(&self) -> (r: Visibility)
        ensures
            r == *self,
    {
        match self {
            Visibility::Inherited => Visibility::Inherited,
            Visibility::Public => Visibility::Public,
            Visibility::Crate => Visibility::Crate,
            Visibility::Restricted(p) => Visibility::Restricted(p.clone()),
        }
    }
}

/// The generic arguments written after one segment of a type path.
#[derive(Clone, Debug)]
pub enum GenericArgs {
    /// None: `bool`.
    Plain,
    /// Angle-bracketed arguments, each as its source text: `Option<bool>`.
    AngleBracketed(Vec<String>),
    /// Parenthesized arguments: `Fn(u8) -> u8`.
    Parenthesized,
}

/// One segment of a type path: an identifier and its arguments.
#[derive(Clone, Debug)]
pub struct TypeSegment {
    pub ident: String,
    pub args: GenericArgs,
}

/// A field's declared type: its source text and, where the type is a path,
/// the path's first segment.
#[derive(Clone, Debug)]
pub struct FieldType {
    pub text: String,
    pub first_segment: Option<TypeSegment>,
}

/// One path of a derive request, by segments: `serde::Serialize` is
/// `["serde", "Serialize"]`.
#[derive(Clone, Debug)]
pub struct DerivePath {
    pub segments: Vec<String>,
}

impl View for DerivePath {
    type V = Seq<Seq<char>>;

    open spec fn view(&self) -> Seq<Seq<char>> {
        self.segments.deep_view()
    }
}

/// One annotation (attribute) written on a record or a field.
#[derive(Clone, Debug)]
pub enum Annotation {
    /// A documentation line.
    Doc(String),
    /// A conditional-compilation predicate, as its source text.
    Cfg(String),
    /// A derive request with its paths, in order.
    Derive(Vec<DerivePath>),
    /// A directive to the serialization framework, as the text inside
    /// `serde(...)`.
    Serde(String),
    /// Any other annotation, as its source text.
    Other(String),
}

/// One named field of a record.
#[derive(Clone, Debug)]
pub struct FieldDescription {
    pub name: String,
    pub ty: FieldType,
    pub vis: Visibility,
    pub attrs: Vec<Annotation>,
}

/// The fields of a record.
#[derive(Clone, Debug)]
pub enum Fields {
    /// `struct S { a: A, b: B }`.
    Named(Vec<FieldDescription>),
    /// `struct S(A, B);`.
    Unnamed,
    /// `struct S;`.
    Unit,
}

/// A record declaration, as the front end read it.
#[derive(Clone, Debug)]
pub struct RecordDescription {
    pub name: String,
    pub vis: Visibility,
    /// The generic parameters, each as its source text.
    pub generics: Vec<String>,
    pub fields: Fields,
    pub attrs: Vec<Annotation>,
}

} // verus!
