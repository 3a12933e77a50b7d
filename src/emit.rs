use crate::config::{default_view, parse_settings, settings_of, texts, ConfigError, Settings, SettingsView};
use crate::model::{
    classify, has_nested_attr_spec, is_category_of, is_nested_attr, is_nested_attr_spec,
    is_option_type_spec, Attribute, FieldCategory, FieldDescription, TypeDescription,
};
use vstd::prelude::*;

verus! {

/// The declarations generated for one base type, as source text.
pub struct Generated {
    /// The companion type's name.
    pub name: String,
    /// The base type again, with every nesting marker removed.
    pub base: String,
    /// The companion type, each field of which is optional.
    pub companion: String,
    /// `From<companion> for base`: a default base value, overwritten by each present field.
    pub conversion: String,
}

/// `t` followed by a space, or nothing when `t` is empty.
pub open spec fn spaced(t: Seq<char>) -> Seq<char> {
    if t.len() == 0 {
        t
    } else {
        t + " "@
    }
}

/// The name of the companion of the type named `name`.
pub open spec fn companion_name_spec(name: Seq<char>, s: SettingsView) -> Seq<char> {
    s.prefix + name + s.suffix
}

fn push_spaced(out: &mut String, t: &String)
    ensures
        final(out)@ == old(out)@ + spaced(t@),
{
    if t.as_str().unicode_len() != 0 {
        out.append(t.as_str());
        out.append(" ");
    }
}

/// The companion name of the type named `name`: prefix, name, suffix.
pub fn companion_name(name: &String, s: &Settings) -> (r: String)
    ensures
        r@ == companion_name_spec(name@, s@),
{
    let mut r = s.prefix.clone();
    r.append(name.as_str());
    r.append(s.suffix.as_str());
    r
}

// ---------------------------------------------------------------- base declaration

/// The attributes of a field that are kept in the base declaration, each followed by a space.
pub open spec fn kept_attrs_text(a: Seq<Attribute>) -> Seq<char>
    decreases a.len(),
{
    if a.len() == 0 {
        Seq::empty()
    } else if is_nested_attr_spec(a.last()) {
        kept_attrs_text(a.drop_last())
    } else {
        kept_attrs_text(a.drop_last()) + a.last().text@ + " "@
    }
}

pub open spec fn base_field_text(f: FieldDescription) -> Seq<char> {
    "    "@ + kept_attrs_text(f.attrs@) + spaced(f.vis@) + f.name@ + ": "@ + f.ty.text@ + ",\n"@
}

pub open spec fn base_fields_text(fs: Seq<FieldDescription>) -> Seq<char>
    decreases fs.len(),
{
    if fs.len() == 0 {
        Seq::empty()
    } else {
        base_fields_text(fs.drop_last()) + base_field_text(fs.last())
    }
}

pub open spec fn attr_lines(a: Seq<String>) -> Seq<char>
    decreases a.len(),
{
    if a.len() == 0 {
        Seq::empty()
    } else {
        attr_lines(a.drop_last()) + a.last()@ + "\n"@
    }
}

/// The base declaration: attributes, visibility, name and generics, and the fields in order,
/// with every nesting marker left out.
pub open spec fn base_decl_spec(d: TypeDescription) -> Seq<char> {
    attr_lines(d.attrs@) + spaced(d.vis@) + "struct "@ + d.name@ + d.generics@ + " {\n"@
        + base_fields_text(d.fields@) + "}\n"@
}

fn push_base_field(out: &mut String, f: &FieldDescription)
    ensures
        final(out)@ == old(out)@ + base_field_text(*f),
{
    let ghost start = out@;
    out.append("    ");
    let ghost mid = out@;
    let mut i: usize = 0;
    while i < f.attrs.len()
        invariant
            i <= f.attrs.len(),
            out@ == mid + kept_attrs_text(f.attrs@.take(i as int)),
        decreases f.attrs.len() - i,
    {
        proof {
            assert(f.attrs@.take(i + 1).drop_last() =~= f.attrs@.take(i as int));
        }
        if !is_nested_attr(&f.attrs[i]) {
            out.append(f.attrs[i].text.as_str());
            out.append(" ");
        }
        i = i + 1;
    }
    proof {
        assert(f.attrs@.take(i as int) =~= f.attrs@);
    }
    push_spaced(out, &f.vis);
    out.append(f.name.as_str());
    out.append(": ");
    out.append(f.ty.text.as_str());
    out.append(",\n");
    assert(out@ =~= start + base_field_text(*f));
}

/// Renders the base declaration.
pub fn base_decl(d: &TypeDescription) -> (r: String)
    ensures
        r@ == base_decl_spec(*d),
{
    let mut out = String::new();
    let mut i: usize = 0;
    while i < d.attrs.len()
        invariant
            i <= d.attrs.len(),
            out@ == attr_lines(d.attrs@.take(i as int)),
        decreases d.attrs.len() - i,
    {
        proof {
            assert(d.attrs@.take(i + 1).drop_last() =~= d.attrs@.take(i as int));
        }
        out.append(d.attrs[i].as_str());
        out.append("\n");
        i = i + 1;
    }
    proof {
        assert(d.attrs@.take(i as int) =~= d.attrs@);
    }
    push_spaced(&mut out, &d.vis);
    out.append("struct ");
    out.append(d.name.as_str());
    out.append(d.generics.as_str());
    out.append(" {\n");
    let ghost head = out@;
    let mut k: usize = 0;
    while k < d.fields.len()
        invariant
            k <= d.fields.len(),
            out@ == head + base_fields_text(d.fields@.take(k as int)),
        decreases d.fields.len() - k,
    {
        proof {
            assert(d.fields@.take(k + 1).drop_last() =~= d.fields@.take(k as int));
        }
        push_base_field(&mut out, &d.fields[k]);
        k = k + 1;
    }
    proof {
        assert(d.fields@.take(k as int) =~= d.fields@);
    }
    out.append("}\n");
    out
}

// ---------------------------------------------------------------- companion declaration

/// The derive list joined with `", "`.
pub open spec fn joined(ds: Seq<Seq<char>>) -> Seq<char>
    decreases ds.len(),
{
    if ds.len() == 0 {
        Seq::empty()
    } else if ds.len() == 1 {
        ds[0]
    } else {
        joined(ds.drop_last()) + ", "@ + ds.last()
    }
}

/// The derive attribute of the companion type; nothing when the list is empty.
pub open spec fn derive_line(s: SettingsView) -> Seq<char> {
    if s.derives.len() == 0 {
        Seq::empty()
    } else {
        "#[derive("@ + joined(s.derives) + ")]\n"@
    }
}

/// The type of a field in the companion type, by the field's category.
pub open spec fn companion_field_type(f: FieldDescription, s: SettingsView) -> Seq<char> {
    if has_nested_attr_spec(f) {
        match f.ty.head {
            Some(h) => "Option<"@ + companion_name_spec(h@, s) + ">"@,
            None => "Option<"@ + f.ty.text@ + ">"@,
        }
    } else if is_option_type_spec(f.ty) {
        f.ty.text@
    } else {
        "Option<"@ + f.ty.text@ + ">"@
    }
}

pub open spec fn companion_field_text(f: FieldDescription, s: SettingsView) -> Seq<char> {
    "    "@ + f.name@ + ": "@ + companion_field_type(f, s) + ",\n"@
}

pub open spec fn companion_fields_text(fs: Seq<FieldDescription>, s: SettingsView) -> Seq<char>
    decreases fs.len(),
{
    if fs.len() == 0 {
        Seq::empty()
    } else {
        companion_fields_text(fs.drop_last(), s) + companion_field_text(fs.last(), s)
    }
}

/// The companion declaration: derive list, visibility, companion name, and one optional
/// field for each field of the base type, in order.
pub open spec fn companion_decl_spec(d: TypeDescription, s: SettingsView) -> Seq<char> {
    derive_line(s) + spaced(s.visibility) + "struct "@ + companion_name_spec(d.name@, s)
        + " {\n"@ + companion_fields_text(d.fields@, s) + "}\n"@
}

fn push_companion_field(out: &mut String, f: &FieldDescription, s: &Settings)
    ensures
        final(out)@ == old(out)@ + companion_field_text(*f, s@),
{
    let ghost start = out@;
    out.append("    ");
    out.append(f.name.as_str());
    out.append(": ");
    let c = classify(f);
    assert(is_category_of(c, *f));
    match c {
        FieldCategory::Nested(Some(target)) => {
            let n = companion_name(&target, s);
            out.append("Option<");
            out.append(n.as_str());
            out.append(">");
        },
        FieldCategory::AlreadyOptional => {
            out.append(f.ty.text.as_str());
        },
        _ => {
            out.append("Option<");
            out.append(f.ty.text.as_str());
            out.append(">");
        },
    }
    out.append(",\n");
    assert(out@ =~= start + companion_field_text(*f, s@));
}

/// Renders the companion declaration.
pub fn companion_decl(d: &TypeDescription, s: &Settings) -> (r: String)
    ensures
        r@ == companion_decl_spec(*d, s@),
{
    let mut out = String::new();
    if s.derives.len() != 0 {
        out.append("#[derive(");
        let ghost head = out@;
        let mut i: usize = 0;
        while i < s.derives.len()
            invariant
                i <= s.derives.len(),
                out@ == head + joined(texts(s.derives@).take(i as int)),
            decreases s.derives.len() - i,
        {
            proof {
                assert(texts(s.derives@).take(i + 1).drop_last() =~= texts(s.derives@).take(
                    i as int,
                ));
            }
            if i != 0 {
                out.append(", ");
            }
            out.append(s.derives[i].as_str());
            proof {
                if i == 0 {
                    assert(texts(s.derives@).take(1)[0] == s.derives@[0]@);
                }
            }
            i = i + 1;
        }
        proof {
            assert(texts(s.derives@).take(i as int) =~= texts(s.derives@));
        }
        out.append(")]\n");
    }
    push_spaced(&mut out, &s.visibility);
    out.append("struct ");
    let n = companion_name(&d.name, s);
    out.append(n.as_str());
    out.append(" {\n");
    let ghost head = out@;
    let mut k: usize = 0;
    while k < d.fields.len()
        invariant
            k <= d.fields.len(),
            out@ == head + companion_fields_text(d.fields@.take(k as int), s@),
        decreases d.fields.len() - k,
    {
        proof {
            assert(d.fields@.take(k + 1).drop_last() =~= d.fields@.take(k as int));
        }
        push_companion_field(&mut out, &d.fields[k], s);
        k = k + 1;
    }
    proof {
        assert(d.fields@.take(k as int) =~= d.fields@);
    }
    out.append("}\n");
    out
}

// ---------------------------------------------------------------- conversion

/// What a present companion value becomes in the base field, by the field's category.
pub open spec fn assigned_value(f: FieldDescription) -> Seq<char> {
    if has_nested_attr_spec(f) {
        "value.into()"@
    } else if is_option_type_spec(f.ty) {
        "Some(value)"@
    } else {
        "value"@
    }
}

pub open spec fn assignment_text(f: FieldDescription) -> Seq<char> {
    "        if let Some(value) = optional."@ + f.name@ + " {\n            base."@ + f.name@
        + " = "@ + assigned_value(f) + ";\n        }\n"@
}

pub open spec fn assignments_text(fs: Seq<FieldDescription>) -> Seq<char>
    decreases fs.len(),
{
    if fs.len() == 0 {
        Seq::empty()
    } else {
        assignments_text(fs.drop_last()) + assignment_text(fs.last())
    }
}

/// The conversion from the companion type to the base type: start from the base type's
/// default value and overwrite each field whose companion value is present.
pub open spec fn conversion_spec(d: TypeDescription, s: SettingsView) -> Seq<char> {
    "impl From<"@ + companion_name_spec(d.name@, s) + "> for "@ + d.name@ + " {\n"@
        + "    fn from(optional: "@ + companion_name_spec(d.name@, s) + ") -> Self {\n"@
        + "        let mut base = Self::default();\n"@ + assignments_text(d.fields@)
        + "        base\n    }\n}\n"@
}

fn push_assignment(out: &mut String, f: &FieldDescription)
    ensures
        final(out)@ == old(out)@ + assignment_text(*f),
{
    let ghost start = out@;
    out.append("        if let Some(value) = optional.");
    out.append(f.name.as_str());
    out.append(" {\n            base.");
    out.append(f.name.as_str());
    out.append(" = ");
    let c = classify(f);
    assert(is_category_of(c, *f));
    match c {
        FieldCategory::Nested(_) => out.append("value.into()"),
        FieldCategory::AlreadyOptional => out.append("Some(value)"),
        FieldCategory::Plain => out.append("value"),
    }
    out.append(";\n        }\n");
    assert(out@ =~= start + assignment_text(*f));
}

/// Renders the conversion routine.
pub fn conversion(d: &TypeDescription, s: &Settings) -> (r: String)
    ensures
        r@ == conversion_spec(*d, s@),
{
    let n = companion_name(&d.name, s);
    let mut out = String::new();
    out.append("impl From<");
    out.append(n.as_str());
    out.append("> for ");
    out.append(d.name.as_str());
    out.append(" {\n");
    out.append("    fn from(optional: ");
    out.append(n.as_str());
    out.append(") -> Self {\n");
    out.append("        let mut base = Self::default();\n");
    let ghost head = out@;
    let mut k: usize = 0;
    while k < d.fields.len()
        invariant
            k <= d.fields.len(),
            out@ == head + assignments_text(d.fields@.take(k as int)),
        decreases d.fields.len() - k,
    {
        proof {
            assert(d.fields@.take(k + 1).drop_last() =~= d.fields@.take(k as int));
        }
        push_assignment(&mut out, &d.fields[k]);
        k = k + 1;
    }
    proof {
        assert(d.fields@.take(k as int) =~= d.fields@);
    }
    out.append("        base\n    }\n}\n");
    out
}

/// Generates the three declarations for one base type.
pub fn generate(d: &TypeDescription, s: &Settings) -> (r: Generated)
    ensures
        generated_from(r, *d, s@),
{
    Generated {
        name: companion_name(&d.name, s),
        base: base_decl(d),
        companion: companion_decl(d, s),
        conversion: conversion(d, s),
    }
}

/// What generation yields for the base type `d` under the settings `s`.
pub open spec fn generated_from(g: Generated, d: TypeDescription, s: SettingsView) -> bool {
    &&& g.name@ == companion_name_spec(d.name@, s)
    &&& g.base@ == base_decl_spec(d)
    &&& g.companion@ == companion_decl_spec(d, s)
    &&& g.conversion@ == conversion_spec(d, s)
}

/// Parses the configuration text and generates the declarations for `d` under it; a refused
/// configuration yields its error and nothing else.
pub fn expand(config: &str, d: &TypeDescription) -> (r: Result<Generated, ConfigError>)
    ensures
        match r {
            Ok(g) => settings_of(config@) matches Ok(v) && generated_from(g, *d, v),
            Err(e) => settings_of(config@) == Err::<SettingsView, ConfigError>(e),
        },
{
    match parse_settings(config) {
        Ok(s) => Ok(generate(d, &s)),
        Err(e) => Err(e),
    }
}

// ---------------------------------------------------------------- laws

/// Generation is a function of the base type and the settings: two generations from the same
/// pair yield the same text, byte for byte.
pub proof fn lemma_generation_deterministic(
    d: TypeDescription,
    s: SettingsView,
    g1: Generated,
    g2: Generated,
)
    requires
        generated_from(g1, d, s),
        generated_from(g2, d, s),
    ensures
        g1.name@ == g2.name@,
        g1.base@ == g2.base@,
        g1.companion@ == g2.companion@,
        g1.conversion@ == g2.conversion@,
{
}

/// The companion's name is the effective prefix, then the base name, then the effective
/// suffix; under the empty configuration that is `Optional` and the base name.
pub proof fn lemma_companion_name(config: Seq<char>, d: TypeDescription, g: Generated)
    requires
        settings_of(config) is Ok,
        generated_from(g, d, settings_of(config)->Ok_0),
    ensures
        g.name@ == settings_of(config)->Ok_0.prefix + d.name@ + settings_of(config)->Ok_0.suffix,
        config.len() == 0 ==> g.name@ == "Optional"@ + d.name@,
{
    if config.len() == 0 {
        assert(settings_of(config) == Ok::<SettingsView, ConfigError>(default_view()));
        assert(g.name@ =~= "Optional"@ + d.name@);
    }
}

} // verus!
