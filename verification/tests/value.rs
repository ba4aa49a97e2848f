use trapy::event::{field_value, FieldValue};
use trapy::value::{
    key_text, py_to_value, Answer, EntryCollector, ItemCollector, KeyProbe, KeyStep, OrderedMap,
    Probe, PyValue, Step, FIRST_PROBE,
};

/// A Python object, as far as it answers questions.
#[derive(Default)]
struct Obj {
    none: bool,
    boolean: Option<bool>,
    int: Option<(Option<i64>, Option<f64>)>,
    float: Option<f64>,
    string: Option<&'static str>,
    list: Option<Result<Vec<PyValue>, ()>>,
    tuple: Option<Result<Vec<PyValue>, ()>>,
    dict: Option<Result<Vec<(String, PyValue)>, ()>>,
    array: Option<Result<PyValue, ()>>,
    dataclass: Option<Result<Vec<(String, PyValue)>, ()>>,
    text: Option<&'static str>,
}

fn yes_no(b: bool) -> Answer {
    if b {
        Answer::Yes
    } else {
        Answer::No
    }
}

fn items(x: Option<Result<Vec<PyValue>, ()>>) -> Answer {
    match x {
        None => Answer::No,
        Some(Ok(v)) => Answer::Items(v),
        Some(Err(())) => Answer::Raised,
    }
}

fn entries(x: Option<Result<Vec<(String, PyValue)>, ()>>) -> Answer {
    match x {
        None => Answer::No,
        Some(Ok(v)) => Answer::Entries(v),
        Some(Err(())) => Answer::Raised,
    }
}

fn convert(mut o: Obj) -> Option<PyValue> {
    let mut probe = FIRST_PROBE;
    loop {
        let answer = match probe {
            Probe::IsNone => yes_no(o.none),
            Probe::AsBool => o.boolean.map_or(Answer::No, Answer::Bool),
            Probe::IsInt => yes_no(o.int.is_some()),
            Probe::IntAsI64 => o.int.unwrap().0.map_or(Answer::Raised, Answer::Int),
            Probe::IntAsFloat => o
                .int
                .unwrap()
                .1
                .map_or(Answer::Raised, |f| Answer::Float(f.to_bits())),
            Probe::IsFloat => yes_no(o.float.is_some()),
            Probe::FloatBits => Answer::Float(o.float.unwrap().to_bits()),
            Probe::AsStr => o
                .string
                .map_or(Answer::No, |s| Answer::Text(s.to_string())),
            Probe::AsList => items(o.list.take()),
            Probe::AsTuple => items(o.tuple.take()),
            Probe::AsDict => entries(o.dict.take()),
            Probe::HasArray => yes_no(o.array.is_some()),
            Probe::ArrayToList => match o.array.take().unwrap() {
                Ok(v) => Answer::Value(v),
                Err(()) => Answer::Raised,
            },
            Probe::HasDataclassFields => yes_no(o.dataclass.is_some()),
            Probe::DataclassFields => entries(o.dataclass.take()),
            Probe::Text => o
                .text
                .map_or(Answer::Raised, |s| Answer::Text(s.to_string())),
        };
        match py_to_value(probe, answer) {
            Step::Ask(next) => probe = next,
            Step::Done(v) => return Some(v),
            Step::Raise => return None,
        }
    }
}

fn text(s: &str) -> Option<PyValue> {
    Some(PyValue::Str(s.to_string()))
}

#[test]
fn primitives() {
    let none = Obj { none: true, text: Some("None"), ..Obj::default() };
    assert_eq!(convert(none), Some(PyValue::Null));
    let s = Obj { string: Some("abc"), ..Obj::default() };
    assert_eq!(convert(s), text("abc"));
    let f = Obj { float: Some(1.5), text: Some("1.5"), ..Obj::default() };
    assert_eq!(convert(f), Some(PyValue::Float(1.5f64.to_bits())));
}

#[test]
fn bool_comes_before_int() {
    let t = Obj {
        boolean: Some(true),
        int: Some((Some(1), Some(1.0))),
        text: Some("True"),
        ..Obj::default()
    };
    assert_eq!(convert(t), Some(PyValue::Bool(true)));
}

#[test]
fn ints_narrow_to_float_and_then_to_text() {
    let small = Obj { int: Some((Some(-7), Some(-7.0))), ..Obj::default() };
    assert_eq!(convert(small), Some(PyValue::Int(-7)));
    let big = Obj { int: Some((None, Some(1e30))), ..Obj::default() };
    assert_eq!(convert(big), Some(PyValue::Float(1e30f64.to_bits())));
    let huge = Obj { int: Some((None, None)), text: Some("1000"), ..Obj::default() };
    assert_eq!(convert(huge), text("1000"));
}

#[test]
fn lists_tuples_and_dicts_keep_their_order() {
    let l = Obj {
        list: Some(Ok(vec![PyValue::Int(2), PyValue::Int(1)])),
        ..Obj::default()
    };
    assert_eq!(
        convert(l),
        Some(PyValue::List(vec![PyValue::Int(2), PyValue::Int(1)]))
    );
    let t = Obj { tuple: Some(Ok(vec![PyValue::Null])), ..Obj::default() };
    assert_eq!(convert(t), Some(PyValue::List(vec![PyValue::Null])));
    let d = Obj {
        dict: Some(Ok(vec![
            ("z".to_string(), PyValue::Int(1)),
            ("a".to_string(), PyValue::Int(2)),
        ])),
        ..Obj::default()
    };
    let expected = OrderedMap(vec![
        ("z".to_string(), PyValue::Int(1)),
        ("a".to_string(), PyValue::Int(2)),
    ]);
    assert_eq!(expected.size_hint(), (2, Some(2)));
    assert_eq!(convert(d), Some(PyValue::Dict(expected)));
}

#[test]
fn arrays_come_before_dataclasses() {
    let a = Obj {
        array: Some(Ok(PyValue::List(vec![PyValue::Int(1)]))),
        dataclass: Some(Ok(vec![])),
        ..Obj::default()
    };
    assert_eq!(convert(a), Some(PyValue::List(vec![PyValue::Int(1)])));
    let d = Obj {
        dataclass: Some(Ok(vec![("x".to_string(), PyValue::Bool(false))])),
        text: Some("D(x=False)"),
        ..Obj::default()
    };
    assert_eq!(
        convert(d),
        Some(PyValue::Dict(OrderedMap(vec![(
            "x".to_string(),
            PyValue::Bool(false)
        )])))
    );
}

#[test]
fn anything_else_is_its_text() {
    let o = Obj { text: Some("<object>"), ..Obj::default() };
    assert_eq!(convert(o), text("<object>"));
}

#[test]
fn exotic_objects_fall_back_to_text() {
    let no_tolist = Obj { array: Some(Err(())), text: Some("weird"), ..Obj::default() };
    assert_eq!(convert(no_tolist), text("weird"));
    let array_and_dataclass = Obj {
        array: Some(Err(())),
        dataclass: Some(Ok(vec![])),
        text: Some("weird"),
        ..Obj::default()
    };
    assert_eq!(convert(array_and_dataclass), Some(PyValue::Dict(OrderedMap(vec![]))));
    let bad_item = Obj { list: Some(Err(())), text: Some("[?]"), ..Obj::default() };
    assert_eq!(convert(bad_item), text("[?]"));
    let bad_field = Obj { dataclass: Some(Err(())), text: Some("D"), ..Obj::default() };
    assert_eq!(convert(bad_field), text("D"));
}

#[test]
fn an_object_without_text_raises() {
    assert_eq!(convert(Obj::default()), None);
}

#[test]
fn values_are_recorded_by_kind() {
    assert!(field_value(&PyValue::Null).is_none());
    assert!(matches!(field_value(&PyValue::Bool(true)), Some(FieldValue::Bool(true))));
    assert!(matches!(field_value(&PyValue::Int(-3)), Some(FieldValue::I64(-3))));
    let bits = 2.5f64.to_bits();
    assert!(matches!(field_value(&PyValue::Float(bits)), Some(FieldValue::F64(b)) if b == bits));
    let s = PyValue::Str("hi".to_string());
    assert!(matches!(field_value(&s), Some(FieldValue::Str("hi"))));
    let l = PyValue::List(vec![PyValue::Int(1)]);
    assert!(matches!(field_value(&l), Some(FieldValue::Tree(t)) if *t == l));
    let d = PyValue::Dict(OrderedMap(vec![]));
    assert!(matches!(field_value(&d), Some(FieldValue::Tree(t)) if *t == d));
}

#[test]
fn keys_are_kept_or_made_text() {
    assert_eq!(
        key_text(KeyProbe::AsStr, Some("k".to_string())),
        KeyStep::Done("k".to_string())
    );
    assert_eq!(key_text(KeyProbe::AsStr, None), KeyStep::Ask(KeyProbe::Text));
    assert_eq!(
        key_text(KeyProbe::Text, Some("7".to_string())),
        KeyStep::Done("7".to_string())
    );
    assert_eq!(key_text(KeyProbe::Text, None), KeyStep::Raise);
}

#[test]
fn items_are_collected_in_order() {
    let mut c = ItemCollector::new();
    assert!(c.add_item(Some(PyValue::Int(2))));
    assert!(c.add_item(Some(PyValue::Null)));
    assert!(c.add_item(Some(PyValue::Int(1))));
    assert!(matches!(
        c.finish(),
        Answer::Items(l) if l == [PyValue::Int(2), PyValue::Null, PyValue::Int(1)]
    ));
    assert!(matches!(ItemCollector::new().finish(), Answer::Items(l) if l.is_empty()));
    let mut c = ItemCollector::new();
    assert!(c.add_item(Some(PyValue::Int(2))));
    assert!(!c.add_item(None));
    assert!(!c.add_item(Some(PyValue::Int(3))));
    assert!(matches!(c.finish(), Answer::Raised));
}

#[test]
fn entries_are_collected_in_order() {
    let key = |k: &str| Some(k.to_string());
    let mut c = EntryCollector::new();
    assert!(c.add_entry(key("1"), Some(PyValue::Int(2))));
    assert!(c.add_entry(key("1"), Some(PyValue::Bool(true))));
    assert!(c.add_entry(key("a"), Some(PyValue::Null)));
    match c.finish() {
        Answer::Entries(m) => assert_eq!(
            m,
            [
                ("1".to_string(), PyValue::Int(2)),
                ("1".to_string(), PyValue::Bool(true)),
                ("a".to_string(), PyValue::Null),
            ]
        ),
        _ => panic!("no entries"),
    }
    let mut c = EntryCollector::new();
    assert!(!c.add_entry(None, Some(PyValue::Int(1))));
    assert!(matches!(c.finish(), Answer::Raised));
    let mut c = EntryCollector::new();
    assert!(!c.add_entry(key("k"), None));
    assert!(!c.add_entry(key("l"), Some(PyValue::Null)));
    assert!(matches!(c.finish(), Answer::Raised));
}

/// A list, whose items are strings or lists again.
enum Nested {
    Leaf(&'static str),
    Branch(Vec<Nested>),
}

fn convert_nested(n: &Nested) -> PyValue {
    match n {
        Nested::Leaf(s) => convert(Obj { string: Some(s), ..Obj::default() }).unwrap(),
        Nested::Branch(items) => {
            let mut c = ItemCollector::new();
            for item in items {
                c.add_item(Some(convert_nested(item)));
            }
            match py_to_value(Probe::AsList, c.finish()) {
                Step::Done(v) => v,
                _ => panic!("not a list"),
            }
        }
    }
}

#[test]
fn lists_within_lists_are_converted_item_by_item() {
    let n = Nested::Branch(vec![
        Nested::Leaf("b"),
        Nested::Branch(vec![Nested::Leaf("a"), Nested::Branch(vec![])]),
    ]);
    let leaf = |s: &str| PyValue::Str(s.to_string());
    assert_eq!(
        convert_nested(&n),
        PyValue::List(vec![
            leaf("b"),
            PyValue::List(vec![leaf("a"), PyValue::List(vec![])]),
        ])
    );
}
