use umbra::{convert, expand, Attribute, FieldDescription, RecordModel, Slot, TypeDescription, TypeRef, Value};

fn field(name: &str, ty: &str, head: Option<&str>, nested: bool) -> FieldDescription {
    let mut attrs = Vec::new();
    if nested {
        attrs.push(Attribute { path: "nested".to_string(), text: "#[nested]".to_string() });
    }
    FieldDescription {
        attrs,
        vis: String::new(),
        name: name.to_string(),
        ty: TypeRef { head: head.map(|h| h.to_string()), text: ty.to_string() },
    }
}

fn record(name: &str, attrs: &[&str], fields: Vec<FieldDescription>) -> TypeDescription {
    TypeDescription {
        attrs: attrs.iter().map(|a| a.to_string()).collect(),
        vis: String::new(),
        name: name.to_string(),
        generics: String::new(),
        fields,
    }
}

/// `X { value: i32 }`, as in the naming tests.
fn x_type() -> TypeDescription {
    record("X", &["#[derive(Default)]"], vec![field("value", "i32", Some("i32"), false)])
}

fn text(s: &str) -> Value {
    Value::Text(s.to_string())
}

fn some(v: Value) -> Value {
    Value::Maybe(Some(Box::new(v)))
}

fn none() -> Value {
    Value::Maybe(None)
}

fn variant(s: &str) -> Value {
    Value::Variant(s.to_string())
}

/// `Bar { name: String, value: Option<i32>, ty: Type }`, defaulting to `"bar"`, `Some(50)`, `B`.
fn bar_defaults() -> Vec<Value> {
    vec![text("bar"), some(Value::Int(50)), variant("B")]
}

fn bar_model() -> RecordModel {
    RecordModel { slots: vec![Slot::Plain, Slot::AlreadyOptional, Slot::Plain], defaults: bar_defaults() }
}

/// `Foo { id: i32, name: String, is_active: bool, #[nested] bar: Bar }`, defaulting to
/// `1000`, `"foo"`, `true` and `Bar::default()`.
fn foo_defaults() -> Vec<Value> {
    vec![Value::Int(1000), text("foo"), Value::Bool(true), Value::Record(bar_defaults())]
}

fn foo_model() -> RecordModel {
    RecordModel {
        slots: vec![Slot::Plain, Slot::Plain, Slot::Plain, Slot::Nested(Box::new(bar_model()))],
        defaults: foo_defaults(),
    }
}

fn foo_type() -> TypeDescription {
    record(
        "Foo",
        &["#[derive(Debug, PartialEq, Eq)]"],
        vec![
            field("id", "i32", Some("i32"), false),
            field("name", "String", Some("String"), false),
            field("is_active", "bool", Some("bool"), false),
            field("bar", "Bar", Some("Bar"), true),
        ],
    )
}

#[test]
fn test_into_1() {
    let optional = vec![
        some(Value::Int(2000)),
        some(text("FOO")),
        some(Value::Bool(false)),
        some(Value::Record(vec![some(text("BAR")), some(Value::Int(100)), some(variant("C"))])),
    ];
    let expected = vec![
        Value::Int(2000),
        text("FOO"),
        Value::Bool(false),
        Value::Record(vec![text("BAR"), some(Value::Int(100)), variant("C")]),
    ];

    let actual = convert(&foo_model(), &optional);

    assert_eq!(actual, expected);
}

#[test]
fn test_into_2() {
    let optional = vec![
        some(Value::Int(2000)),
        none(),
        some(Value::Bool(false)),
        some(Value::Record(vec![none(), none(), some(variant("C"))])),
    ];
    let expected = vec![
        Value::Int(2000),
        text("foo"),
        Value::Bool(false),
        Value::Record(vec![text("bar"), some(Value::Int(50)), variant("C")]),
    ];

    let actual = convert(&foo_model(), &optional);

    assert_eq!(actual, expected);
}

#[test]
fn test_into_3() {
    let optional = vec![none(), none(), none(), none()];
    let expected = foo_defaults();

    let actual = convert(&foo_model(), &optional);

    assert_eq!(actual, expected);
}

#[test]
fn test_derives() {
    let g = expand("derives = [Debug, std::clone::Clone]", &x_type()).unwrap();
    assert_eq!(g.name, "OptionalX");
    assert_eq!(
        g.companion,
        "#[derive(Debug, std::clone::Clone)]\nstruct OptionalX {\n    value: Option<i32>,\n}\n"
    );
}

#[test]
fn test_prefix() {
    let g = expand("prefix = \"Opt\"", &x_type()).unwrap();
    assert_eq!(g.name, "OptX");
    assert_eq!(g.companion, "struct OptX {\n    value: Option<i32>,\n}\n");
}

#[test]
fn test_suffix() {
    let g = expand("suffix = \"Generated\"", &x_type()).unwrap();
    assert_eq!(g.name, "OptionalXGenerated");
    assert_eq!(g.companion, "struct OptionalXGenerated {\n    value: Option<i32>,\n}\n");
}

#[test]
fn test_visibility() {
    let g = expand("visibility = pub(crate)", &x_type()).unwrap();
    assert_eq!(g.name, "OptionalX");
    assert_eq!(g.companion, "pub(crate) struct OptionalX {\n    value: Option<i32>,\n}\n");
}

#[test]
fn test_attributes() {
    let config = "derives = [\n    Debug,\n    std::clone::Clone,\n],\nprefix = \"Pre\",\nsuffix = \"Suf\",\nvisibility = pub,\n";
    let g = expand(config, &x_type()).unwrap();
    assert_eq!(g.name, "PreXSuf");
    assert_eq!(
        g.companion,
        "#[derive(Debug, std::clone::Clone)]\npub struct PreXSuf {\n    value: Option<i32>,\n}\n"
    );
}
