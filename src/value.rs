use crate::model::{
    classify, has_nested_attr_spec, is_category_of, is_option_type_spec, FieldCategory,
    FieldDescription, TypeDescription,
};
use vstd::prelude::*;

verus! {

broadcast use vstd::std_specs::vec::axiom_vec_index_decreases;

/// A value of a field, as the conversion sees it.
#[derive(Debug, PartialEq)]
pub enum Value {
    Int(i64),
    Bool(bool),
    Text(String),
    /// A unit variant of an enumeration, by name.
    Variant(String),
    /// An optional value: present or absent.
    Maybe(Option<Box<Value>>),
    /// A record: its field values in declaration order.
    Record(Vec<Value>),
}

/// A value over plain mathematical data.
pub enum ValueView {
    Int(i64),
    Bool(bool),
    Text(Seq<char>),
    Variant(Seq<char>),
    Maybe(Option<Box<ValueView>>),
    Record(Seq<ValueView>),
}

/// The view of a value: the same shape over plain data.
pub open spec fn view_of(v: Value) -> ValueView
    decreases v,
{
    match v {
        Value::Int(n) => ValueView::Int(n),
        Value::Bool(b) => ValueView::Bool(b),
        Value::Text(s) => ValueView::Text(s@),
        Value::Variant(s) => ValueView::Variant(s@),
        Value::Maybe(None) => ValueView::Maybe(None),
        Value::Maybe(Some(b)) => ValueView::Maybe(Some(Box::new(view_of(*b)))),
        Value::Record(fs) => ValueView::Record(
            Seq::new(
                fs.len() as nat,
                |i: int|
                    if 0 <= i < fs.len() {
                        view_of(fs[i])
                    } else {
                        ValueView::Int(0)
                    },
            ),
        ),
    }
}

impl View for Value {
    type V = ValueView;

    open spec fn view(&self) -> ValueView {
        view_of(*self)
    }
}

pub open spec fn views(s: Seq<Value>) -> Seq<ValueView> {
    s.map_values(|v: Value| v@)
}

/// A deep copy of `v`.
pub fn copy_value(v: &Value) -> (r: Value)
    ensures
        r@ == v@,
    decreases v,
{
    match v {
        Value::Int(n) => Value::Int(*n),
        Value::Bool(b) => Value::Bool(*b),
        Value::Text(s) => Value::Text(s.clone()),
        Value::Variant(s) => Value::Variant(s.clone()),
        Value::Maybe(None) => Value::Maybe(None),
        Value::Maybe(Some(b)) => Value::Maybe(Some(Box::new(copy_value(b)))),
        Value::Record(fs) => {
            let mut out: Vec<Value> = Vec::new();
            let mut i: usize = 0;
            while i < fs.len()
                invariant
                    *v == Value::Record(*fs),
                    i <= fs.len(),
                    out.len() == i,
                    forall|j: int| 0 <= j < i ==> out[j]@ == fs[j]@,
                decreases fs.len() - i,
            {
                proof {
                    assert(decreases_to!(v => v->Record_0));
                    assert(decreases_to!(v => fs));
                    assert(decreases_to!(fs => fs[i as int]));
                }
                out.push(copy_value(&fs[i]));
                i = i + 1;
            }
            let r = Value::Record(out);
            assert(r@ =~= v@) by {
                if let ValueView::Record(a) = r@ {
                    if let ValueView::Record(b) = v@ {
                        assert(a =~= b);
                    }
                }
            }
            r
        },
    }
}

/// A record's view is the sequence of its fields' views.
pub proof fn lemma_record_view(fs: Vec<Value>)
    ensures
        Value::Record(fs)@ == ValueView::Record(views(fs@)),
{
    let v = Value::Record(fs);
    assert(v@ is Record);
    let a = v@->Record_0;
    assert(a.len() == fs.len());
    assert forall|k: int| 0 <= k < a.len() implies a[k] == views(fs@)[k] by {
        assert(a[k] == fs[k]@);
    }
    assert(a =~= views(fs@));
}

/// How the conversion treats one field of a record.
pub enum Slot {
    /// A plain field: a present companion value is taken as it is.
    Plain,
    /// A field whose type is already optional: a present companion value is taken, present.
    AlreadyOptional,
    /// A nested record: a present companion value is converted by the nested record's model.
    Nested(Box<RecordModel>),
}

/// What the conversion of a record type needs: how each field is treated, and the value
/// that the type's default construction gives each field.
pub struct RecordModel {
    pub slots: Vec<Slot>,
    pub defaults: Vec<Value>,
}

/// Whether the slot treats the field as the classifier does.
pub open spec fn slot_matches(sl: Slot, f: FieldDescription) -> bool {
    if has_nested_attr_spec(f) {
        sl is Nested
    } else if is_option_type_spec(f.ty) {
        sl is AlreadyOptional
    } else {
        sl is Plain
    }
}

/// Whether `m` has one slot per field of `d`, each treating its field as the classifier does.
pub open spec fn model_matches(m: RecordModel, d: TypeDescription) -> bool {
    &&& m.slots.len() == d.fields.len()
    &&& forall|i: int| 0 <= i < m.slots.len() ==> slot_matches(#[trigger] m.slots[i], d.fields[i])
}

impl RecordModel {
    /// Whether this model treats the fields of `d` as the generated conversion does.
    pub fn matches_type(&self, d: &TypeDescription) -> (r: bool)
        ensures
            r == model_matches(*self, *d),
    {
        if self.slots.len() != d.fields.len() {
            return false;
        }
        let mut i: usize = 0;
        while i < self.slots.len()
            invariant
                self.slots.len() == d.fields.len(),
                i <= self.slots.len(),
                forall|j: int| 0 <= j < i ==> slot_matches(#[trigger] self.slots[j], d.fields[j]),
            decreases self.slots.len() - i,
        {
            let c = classify(&d.fields[i]);
            assert(is_category_of(c, d.fields[i as int]));
            let ok = match (&c, &self.slots[i]) {
                (FieldCategory::Nested(_), Slot::Nested(_)) => true,
                (FieldCategory::AlreadyOptional, Slot::AlreadyOptional) => true,
                (FieldCategory::Plain, Slot::Plain) => true,
                _ => false,
            };
            if !ok {
                return false;
            }
            i = i + 1;
        }
        true
    }
}

/// One default per field, at every level of nesting.
pub open spec fn model_wf(m: RecordModel) -> bool
    decreases m,
{
    &&& m.slots.len() == m.defaults.len()
    &&& forall|i: int|
        0 <= i < m.slots.len() ==> match #[trigger] m.slots[i] {
            Slot::Nested(n) => model_wf(*n),
            _ => true,
        }
}

/// Whether `cs` is a value of the companion of the record that `m` describes: one optional
/// value per field, and a companion record inside each present nested field.
pub open spec fn companion_fits(m: RecordModel, cs: Seq<Value>) -> bool
    decreases m,
{
    &&& cs.len() == m.slots.len()
    &&& forall|i: int|
        0 <= i < cs.len() ==> match #[trigger] cs[i] {
            Value::Maybe(None) => true,
            Value::Maybe(Some(b)) => match m.slots[i] {
                Slot::Nested(n) => match *b {
                    Value::Record(inner) => companion_fits(*n, inner@),
                    _ => false,
                },
                _ => true,
            },
            _ => false,
        }
}

/// The base record that the companion value `cs` converts to: the default of each field,
/// overwritten where the companion value is present.
pub open spec fn converted(m: RecordModel, cs: Seq<Value>) -> Seq<ValueView>
    decreases m,
{
    Seq::new(
        m.slots.len() as nat,
        |i: int|
            if 0 <= i < m.slots.len() {
                match cs[i] {
                    Value::Maybe(Some(b)) => match m.slots[i] {
                        Slot::Plain => (*b)@,
                        Slot::AlreadyOptional => ValueView::Maybe(Some(Box::new((*b)@))),
                        Slot::Nested(n) => match *b {
                            Value::Record(inner) => ValueView::Record(converted(*n, inner@)),
                            _ => m.defaults[i]@,
                        },
                    },
                    _ => m.defaults[i]@,
                }
            } else {
                ValueView::Int(0)
            },
    )
}

/// A deep copy of each value, in order.
pub fn copy_values(vs: &Vec<Value>) -> (r: Vec<Value>)
    ensures
        r.len() == vs.len(),
        forall|j: int| 0 <= j < vs.len() ==> #[trigger] r[j]@ == vs[j]@,
{
    let mut out: Vec<Value> = Vec::new();
    let mut i: usize = 0;
    while i < vs.len()
        invariant
            i <= vs.len(),
            out.len() == i,
            forall|j: int| 0 <= j < i ==> out[j]@ == vs[j]@,
        decreases vs.len() - i,
    {
        out.push(copy_value(&vs[i]));
        i = i + 1;
    }
    out
}

/// Converts a companion value to the base record: a copy of the defaults, then each present
/// field overwritten (plain: the value; already optional: the value, present; nested: the
/// nested companion value converted). Total: there is no failure.
pub fn convert(m: &RecordModel, cs: &Vec<Value>) -> (r: Vec<Value>)
    requires
        model_wf(*m),
        companion_fits(*m, cs@),
    ensures
        views(r@) == converted(*m, cs@),
    decreases m,
{
    let mut base = copy_values(&m.defaults);
    let mut i: usize = 0;
    while i < cs.len()
        invariant
            model_wf(*m),
            companion_fits(*m, cs@),
            i <= cs.len(),
            base.len() == cs.len(),
            forall|j: int| 0 <= j < i ==> #[trigger] base[j]@ == converted(*m, cs@)[j],
            forall|j: int| i <= j < base.len() ==> #[trigger] base[j]@ == m.defaults[j]@,
        decreases cs.len() - i,
    {
        match &cs[i] {
            Value::Maybe(Some(b)) => {
                match &m.slots[i] {
                    Slot::Plain => {
                        base.set(i, copy_value(b));
                    },
                    Slot::AlreadyOptional => {
                        base.set(i, Value::Maybe(Some(Box::new(copy_value(b)))));
                    },
                    Slot::Nested(n) => {
                        match &**b {
                            Value::Record(inner) => {
                                proof {
                                    assert(decreases_to!(m => m.slots));
                                    assert(decreases_to!(m.slots => m.slots[i as int]));
                                }
                                let r = convert(n, inner);
                                proof {
                                    lemma_record_view(r);
                                }
                                base.set(i, Value::Record(r));
                            },
                            _ => {},
                        }
                    },
                }
            },
            _ => {},
        }
        assert(base[i as int]@ == converted(*m, cs@)[i as int]);
        i = i + 1;
    }
    assert(views(base@) =~= converted(*m, cs@));
    base
}

// ---------------------------------------------------------------- laws

/// A companion value with every field absent.
pub open spec fn all_absent(cs: Seq<Value>) -> bool {
    forall|i: int| 0 <= i < cs.len() ==> #[trigger] cs[i] == Value::Maybe(None)
}

/// Converting a companion value with every field absent yields exactly the defaults.
pub proof fn lemma_all_absent_gives_defaults(m: RecordModel, cs: Seq<Value>)
    requires
        model_wf(m),
        cs.len() == m.slots.len(),
        all_absent(cs),
    ensures
        companion_fits(m, cs),
        converted(m, cs) == views(m.defaults@),
{
    assert(converted(m, cs) =~= views(m.defaults@));
}

/// A plain field with a present companion value `x` becomes `x`, whatever the other fields
/// hold.
pub proof fn lemma_plain_present_overrides(m: RecordModel, cs: Seq<Value>, i: int, x: Value)
    requires
        model_wf(m),
        companion_fits(m, cs),
        0 <= i < m.slots.len(),
        m.slots[i] is Plain,
        cs[i] == Value::Maybe(Some(Box::new(x))),
    ensures
        converted(m, cs)[i] == x@,
{
}

/// A field that is already optional becomes `x`, present, when its companion value is the
/// present `x`; when that is absent it keeps its default, which may itself be present.
pub proof fn lemma_optional_field(m: RecordModel, cs: Seq<Value>, i: int)
    requires
        model_wf(m),
        companion_fits(m, cs),
        0 <= i < m.slots.len(),
        m.slots[i] is AlreadyOptional,
    ensures
        cs[i] matches Value::Maybe(Some(x)) ==> converted(m, cs)[i] == ValueView::Maybe(
            Some(Box::new((*x)@)),
        ),
        cs[i] == Value::Maybe(None) ==> converted(m, cs)[i] == m.defaults[i]@,
{
}

/// A present nested companion value is converted by the nested record's own conversion: all
/// absent inside, it yields the nested record's defaults; a present plain field inside takes
/// its value.
pub proof fn lemma_nested_converts(m: RecordModel, cs: Seq<Value>, i: int, inner: Vec<Value>)
    requires
        model_wf(m),
        companion_fits(m, cs),
        0 <= i < m.slots.len(),
        m.slots[i] is Nested,
        cs[i] == Value::Maybe(Some(Box::new(Value::Record(inner)))),
    ensures
        converted(m, cs)[i] == ValueView::Record(converted(*m.slots[i]->Nested_0, inner@)),
        all_absent(inner@) ==> converted(m, cs)[i] == ValueView::Record(
            views(m.slots[i]->Nested_0.defaults@),
        ),
        forall|j: int|
            0 <= j < inner.len() && m.slots[i]->Nested_0.slots[j] is Plain
                && #[trigger] inner[j] is Maybe && inner[j]->Maybe_0 is Some
                ==> converted(m, cs)[i]->Record_0[j] == (*inner[j]->Maybe_0->Some_0)@,
{
    let n = *m.slots[i]->Nested_0;
    assert(model_wf(n));
    assert(companion_fits(n, inner@));
    if all_absent(inner@) {
        lemma_all_absent_gives_defaults(n, inner@);
    }
}

} // verus!
