use umbra::{
    classify, convert, expand, generate, parse_settings, Attribute, ConfigError, ConfigErrorKind,
    FieldCategory, FieldDescription, RecordModel, Settings, Slot, TypeDescription, TypeRef,
    Value,
};

fn attr(path: &str, text: &str) -> Attribute {
    Attribute { path: path.to_string(), text: text.to_string() }
}

fn field(vis: &str, name: &str, ty: &str, head: Option<&str>, attrs: Vec<Attribute>) -> FieldDescription {
    FieldDescription {
        attrs,
        vis: vis.to_string(),
        name: name.to_string(),
        ty: TypeRef { head: head.map(|h| h.to_string()), text: ty.to_string() },
    }
}

fn foo_type() -> TypeDescription {
    TypeDescription {
        attrs: vec!["#[derive(Debug, PartialEq, Eq)]".to_string()],
        vis: "pub".to_string(),
        name: "Foo".to_string(),
        generics: String::new(),
        fields: vec![
            field("pub", "id", "i32", Some("i32"), vec![]),
            field("pub", "name", "String", Some("String"), vec![]),
            field("", "value", "Option<i32>", Some("Option"), vec![]),
            field("", "bar", "Bar", Some("Bar"), vec![attr("allow", "#[allow(unused)]"), attr("nested", "#[nested]")]),
        ],
    }
}

fn text(s: &str) -> Value {
    Value::Text(s.to_string())
}

fn some(v: Value) -> Value {
    Value::Maybe(Some(Box::new(v)))
}

fn none() -> Value {
    Value::Maybe(None)
}

fn variant(s: &str) -> Value {
    Value::Variant(s.to_string())
}

fn bar_defaults() -> Vec<Value> {
    vec![text("bar"), some(Value::Int(50)), variant("B")]
}

fn bar_model() -> RecordModel {
    RecordModel { slots: vec![Slot::Plain, Slot::AlreadyOptional, Slot::Plain], defaults: bar_defaults() }
}

fn foo_defaults() -> Vec<Value> {
    vec![Value::Int(1000), text("foo"), Value::Bool(true), Value::Record(bar_defaults())]
}

fn foo_model() -> RecordModel {
    RecordModel {
        slots: vec![Slot::Plain, Slot::Plain, Slot::Plain, Slot::Nested(Box::new(bar_model()))],
        defaults: foo_defaults(),
    }
}

fn error_of(config: &str) -> ConfigError {
    match parse_settings(config) {
        Ok(_) => panic!("configuration accepted: {}", config),
        Err(e) => e,
    }
}

#[test]
fn base_declaration_drops_only_the_nesting_marker() {
    let g = generate(&foo_type(), &Settings::default());
    assert_eq!(
        g.base,
        "#[derive(Debug, PartialEq, Eq)]\npub struct Foo {\n    pub id: i32,\n    pub name: String,\n    value: Option<i32>,\n    #[allow(unused)] bar: Bar,\n}\n"
    );
}

#[test]
fn companion_declaration_wraps_by_category() {
    let g = generate(&foo_type(), &Settings::default());
    assert_eq!(
        g.companion,
        "struct OptionalFoo {\n    id: Option<i32>,\n    name: Option<String>,\n    value: Option<i32>,\n    bar: Option<OptionalBar>,\n}\n"
    );
}

#[test]
fn conversion_assigns_by_category() {
    let g = generate(&foo_type(), &Settings::default());
    let expected = "impl From<OptionalFoo> for Foo {\n    fn from(optional: OptionalFoo) -> Self {\n        let mut base = Self::default();\n        if let Some(value) = optional.id {\n            base.id = value;\n        }\n        if let Some(value) = optional.name {\n            base.name = value;\n        }\n        if let Some(value) = optional.value {\n            base.value = Some(value);\n        }\n        if let Some(value) = optional.bar {\n            base.bar = value.into();\n        }\n        base\n    }\n}\n";
    assert_eq!(g.conversion, expected);
}

#[test]
fn nested_prefix_and_suffix_name_the_nested_companion() {
    let g = expand("prefix = \"P\", suffix = \"S\"", &foo_type()).unwrap();
    assert_eq!(g.name, "PFooS");
    assert!(g.companion.contains("    bar: Option<PBarS>,\n"));
    assert!(g.conversion.starts_with("impl From<PFooS> for Foo {\n    fn from(optional: PFooS) -> Self {\n"));
}

#[test]
fn nested_marker_on_a_type_without_a_name_wraps_the_type() {
    let d = TypeDescription {
        attrs: vec![],
        vis: String::new(),
        name: "T".to_string(),
        generics: String::new(),
        fields: vec![field("", "pair", "(i32, i32)", None, vec![attr("nested", "#[nested]")])],
    };
    assert!(matches!(classify(&d.fields[0]), FieldCategory::Nested(None)));
    let g = generate(&d, &Settings::default());
    assert_eq!(g.companion, "struct OptionalT {\n    pair: Option<(i32, i32)>,\n}\n");
    assert!(g.conversion.contains("base.pair = value.into();"));
}

#[test]
fn classification_follows_marker_then_option() {
    let d = foo_type();
    assert!(matches!(classify(&d.fields[0]), FieldCategory::Plain));
    assert!(matches!(classify(&d.fields[2]), FieldCategory::AlreadyOptional));
    match classify(&d.fields[3]) {
        FieldCategory::Nested(Some(t)) => assert_eq!(t, "Bar"),
        _ => panic!("bar is nested"),
    }
    let marked_option = field("", "o", "Option<Bar>", Some("Option"), vec![attr("nested", "#[nested]")]);
    assert!(matches!(classify(&marked_option), FieldCategory::Nested(Some(_))));
    let qualified = field("", "q", "std::option::Option<u8>", Some("std"), vec![]);
    assert!(matches!(classify(&qualified), FieldCategory::Plain));
}

#[test]
fn generation_is_deterministic() {
    let a = expand("derives = [Debug], prefix = \"Pre\"", &foo_type()).unwrap();
    let b = expand("derives = [Debug], prefix = \"Pre\"", &foo_type()).unwrap();
    assert_eq!(a.name, b.name);
    assert_eq!(a.base, b.base);
    assert_eq!(a.companion, b.companion);
    assert_eq!(a.conversion, b.conversion);
}

#[test]
fn empty_configuration_gives_defaults() {
    let s = parse_settings("").unwrap();
    assert!(s.derives.is_empty());
    assert_eq!(s.prefix, "Optional");
    assert_eq!(s.suffix, "");
    assert_eq!(s.visibility, "");
    let g = expand("  ", &foo_type()).unwrap();
    assert_eq!(g.name, "OptionalFoo");
}

#[test]
fn later_entry_for_a_key_wins() {
    let s = parse_settings("prefix = \"A\", prefix = \"B\",").unwrap();
    assert_eq!(s.prefix, "B");
}

#[test]
fn configuration_values_are_normalised() {
    let s = parse_settings("derives=[ std :: fmt :: Debug , Clone ],visibility=pub ( in crate :: a ) ,").unwrap();
    assert_eq!(s.derives, vec!["std::fmt::Debug".to_string(), "Clone".to_string()]);
    assert_eq!(s.visibility, "pub(in crate::a)");
    let s = parse_settings("visibility = pub(super), derives = []").unwrap();
    assert_eq!(s.visibility, "pub(super)");
    assert!(s.derives.is_empty());
}

#[test]
fn prefix_and_suffix_surround_the_name() {
    let x = TypeDescription {
        attrs: vec![],
        vis: String::new(),
        name: "X".to_string(),
        generics: String::new(),
        fields: vec![field("", "value", "i32", Some("i32"), vec![])],
    };
    let g = expand("prefix = \"Pre\", suffix = \"Suf\"", &x).unwrap();
    assert_eq!(g.name, "PreXSuf");
}

#[test]
fn each_error_kind() {
    assert_eq!(error_of(","), ConfigError { kind: ConfigErrorKind::ExpectedKey, pos: 0 });
    assert_eq!(error_of("colour = \"red\""), ConfigError { kind: ConfigErrorKind::UnknownKey, pos: 0 });
    assert_eq!(error_of("prefix \"a\""), ConfigError { kind: ConfigErrorKind::ExpectedEquals, pos: 7 });
    assert_eq!(error_of("prefix = \"a\" suffix = \"b\""), ConfigError { kind: ConfigErrorKind::ExpectedComma, pos: 13 });
    assert_eq!(error_of("prefix = a"), ConfigError { kind: ConfigErrorKind::ExpectedString, pos: 9 });
    assert_eq!(error_of("suffix = \"ab"), ConfigError { kind: ConfigErrorKind::UnterminatedString, pos: 9 });
    assert_eq!(error_of("suffix = \"a\\\"b\""), ConfigError { kind: ConfigErrorKind::EscapeInString, pos: 11 });
    assert_eq!(error_of("derives = Debug"), ConfigError { kind: ConfigErrorKind::ExpectedList, pos: 10 });
    assert_eq!(error_of("derives = [Debug"), ConfigError { kind: ConfigErrorKind::UnterminatedList, pos: 16 });
    assert_eq!(error_of("derives = [Debug Clone]"), ConfigError { kind: ConfigErrorKind::ExpectedComma, pos: 17 });
    assert_eq!(error_of("derives = [1]"), ConfigError { kind: ConfigErrorKind::ExpectedPath, pos: 11 });
    assert_eq!(error_of("derives = [std::]"), ConfigError { kind: ConfigErrorKind::ExpectedPath, pos: 16 });
    assert_eq!(error_of("visibility = private"), ConfigError { kind: ConfigErrorKind::ExpectedVisibility, pos: 13 });
    assert_eq!(error_of("visibility = pub(world)"), ConfigError { kind: ConfigErrorKind::ExpectedVisibility, pos: 17 });
    assert_eq!(error_of("visibility = pub(crate"), ConfigError { kind: ConfigErrorKind::ExpectedVisibility, pos: 22 });
    assert!(expand("prefix", &foo_type()).is_err());
}

#[test]
fn error_messages_name_the_reason() {
    let e = error_of("colour = 1");
    assert_eq!(e.message(), "unknown key; expected derives, prefix, suffix or visibility");
    assert_eq!(error_of("prefix = x").message(), "expected a quoted string");
}

#[test]
fn all_absent_gives_defaults() {
    let actual = convert(&bar_model(), &vec![none(), none(), none()]);
    assert_eq!(actual, bar_defaults());
}

#[test]
fn present_plain_field_overrides_whatever_else_holds() {
    let a = convert(&foo_model(), &vec![some(Value::Int(7)), none(), none(), none()]);
    let b = convert(
        &foo_model(),
        &vec![some(Value::Int(7)), some(text("x")), some(Value::Bool(false)), some(Value::Record(vec![none(), none(), none()]))],
    );
    assert_eq!(a[0], Value::Int(7));
    assert_eq!(b[0], Value::Int(7));
    assert_eq!(a[1], text("foo"));
    assert_eq!(b[1], text("x"));
}

#[test]
fn nested_companion_is_converted_by_its_own_rules() {
    let all_absent = convert(&foo_model(), &vec![none(), none(), none(), some(Value::Record(vec![none(), none(), none()]))]);
    assert_eq!(all_absent[3], Value::Record(bar_defaults()));
    let one = convert(&foo_model(), &vec![none(), none(), none(), some(Value::Record(vec![some(text("Z")), none(), none()]))]);
    assert_eq!(one[3], Value::Record(vec![text("Z"), some(Value::Int(50)), variant("B")]));
}

#[test]
fn partial_override_through_nesting() {
    let optional = vec![
        some(Value::Int(2000)),
        none(),
        some(Value::Bool(false)),
        some(Value::Record(vec![some(text("BAR")), none(), some(variant("C"))])),
    ];
    let expected = vec![
        Value::Int(2000),
        text("foo"),
        Value::Bool(false),
        Value::Record(vec![text("BAR"), some(Value::Int(50)), variant("C")]),
    ];
    assert_eq!(convert(&foo_model(), &optional), expected);
}

#[test]
fn optional_field_is_not_wrapped_twice() {
    let g = generate(&foo_type(), &Settings::default());
    assert!(g.companion.contains("    value: Option<i32>,\n"));
    assert!(!g.companion.contains("Option<Option<"));
    let absent = convert(&bar_model(), &vec![none(), none(), none()]);
    assert_eq!(absent[1], some(Value::Int(50)));
    let present = convert(&bar_model(), &vec![none(), some(Value::Int(3)), none()]);
    assert_eq!(present[1], some(Value::Int(3)));
}

#[test]
fn model_agrees_with_classification() {
    let bar = TypeDescription {
        attrs: vec![],
        vis: String::new(),
        name: "Bar".to_string(),
        generics: String::new(),
        fields: vec![
            field("", "name", "String", Some("String"), vec![]),
            field("", "value", "Option<i32>", Some("Option"), vec![]),
            field("", "ty", "Type", Some("Type"), vec![]),
        ],
    };
    assert!(bar_model().matches_type(&bar));
    assert!(!foo_model().matches_type(&foo_type()));
    assert!(!foo_model().matches_type(&bar));
}
