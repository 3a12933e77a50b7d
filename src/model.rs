use vstd::prelude::*;

verus! {

/// An attribute attached to a field or a type, as written in the source.
pub struct Attribute {
    /// The attribute's path, written with `::` between segments (`nested`, `serde`).
    pub path: String,
    /// The whole attribute as source text (`#[serde(skip)]`).
    pub text: String,
}

/// A reference to a type, as handed over by the parser of declarations.
pub struct TypeRef {
    /// The first identifier of the type's path, when the type is a path (`Option` for
    /// `Option<u8>`, `std` for `std::string::String`); `None` for tuples, arrays, references.
    pub head: Option<String>,
    /// The type as source text.
    pub text: String,
}

/// One field of a record type.
pub struct FieldDescription {
    pub attrs: Vec<Attribute>,
    /// The field's visibility as source text (empty when inherited).
    pub vis: String,
    pub name: String,
    pub ty: TypeRef,
}

/// A record type as handed over by the parser of declarations.
pub struct TypeDescription {
    /// The outer attributes of the type, as source text, in order.
    pub attrs: Vec<String>,
    /// The type's visibility as source text (empty when inherited).
    pub vis: String,
    pub name: String,
    /// The generic parameters as source text, with their angle brackets (empty when none).
    pub generics: String,
    pub fields: Vec<FieldDescription>,
}

/// How a field is carried over into the companion type.
pub enum FieldCategory {
    /// An ordinary field: wrapped in `Option` once.
    Plain,
    /// A field whose type is already an `Option`: kept as it is.
    AlreadyOptional,
    /// A field marked `nested`: its companion refers to the companion of the named record,
    /// or, when no record name can be read off the type, wraps the type as it stands.
    Nested(Option<String>),
}

pub open spec fn is_nested_attr_spec(a: Attribute) -> bool {
    a.path@ == "nested"@
}

/// Whether the attribute is the nesting marker.
pub fn is_nested_attr(a: &Attribute) -> (r: bool)
    ensures
        r == is_nested_attr_spec(*a),
{
    crate::text::same_text(a.path.as_str(), "nested")
}

pub open spec fn has_nested_attr_spec(f: FieldDescription) -> bool {
    exists|i: int| 0 <= i < f.attrs.len() && is_nested_attr_spec(#[trigger] f.attrs@[i])
}

/// Whether the field carries the nesting marker.
pub fn has_nested_attr(f: &FieldDescription) -> (r: bool)
    ensures
        r == has_nested_attr_spec(*f),
{
    let mut i: usize = 0;
    while i < f.attrs.len()
        invariant
            i <= f.attrs.len(),
            forall|j: int| 0 <= j < i ==> !is_nested_attr_spec(#[trigger] f.attrs@[j]),
        decreases f.attrs.len() - i,
    {
        if is_nested_attr(&f.attrs[i]) {
            return true;
        }
        i = i + 1;
    }
    false
}

pub open spec fn is_option_type_spec(t: TypeRef) -> bool {
    match t.head {
        Some(h) => h@ == "Option"@,
        None => false,
    }
}

/// Whether the type is written as an `Option` (its path starts with `Option`).
pub fn is_option_type(t: &TypeRef) -> (r: bool)
    ensures
        r == is_option_type_spec(*t),
{
    match &t.head {
        Some(h) => crate::text::same_text(h.as_str(), "Option"),
        None => false,
    }
}

/// The category that the classifier gives the field: the nesting marker first, then an
/// `Option` type, else a plain field.
pub open spec fn is_category_of(c: FieldCategory, f: FieldDescription) -> bool {
    if has_nested_attr_spec(f) {
        match c {
            FieldCategory::Nested(target) => match (target, f.ty.head) {
                (Some(t), Some(h)) => t@ == h@,
                (None, None) => true,
                _ => false,
            },
            _ => false,
        }
    } else if is_option_type_spec(f.ty) {
        c is AlreadyOptional
    } else {
        c is Plain
    }
}

/// Classifies a field; total over every field.
pub fn classify(f: &FieldDescription) -> (r: FieldCategory)
    ensures
        is_category_of(r, *f),
{
    if has_nested_attr(f) {
        match &f.ty.head {
            Some(h) => FieldCategory::Nested(Some(h.clone())),
            None => FieldCategory::Nested(None),
        }
    } else if is_option_type(&f.ty) {
        FieldCategory::AlreadyOptional
    } else {
        FieldCategory::Plain
    }
}

} // verus!
