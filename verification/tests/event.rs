use trapy::callsite::{Kind, Registry};
use trapy::event::{caller_location, emit, FieldValue, Frame, Location};
use trapy::kwargs::{
    kwarg_role, parse_kwargs, KwargOutcome, KwargRole, ParsedKwargs, CALLER_SKIP_KWARG,
};
use trapy::level::Level;
use trapy::value::PyValue;

fn here() -> Location {
    Location {
        file: "a.py".to_string(),
        line: 10,
        module: "pkg.a".to_string(),
    }
}

fn field(p: &mut ParsedKwargs, kind: Kind, key: &str, v: PyValue) {
    assert_eq!(kwarg_role(kind, key), KwargRole::Field);
    p.parse_kwarg(kind, key.to_string(), KwargOutcome::Value(v));
}

#[test]
fn reserved_keywords() {
    assert_eq!(kwarg_role(Kind::Event, "message"), KwargRole::Message);
    assert_eq!(kwarg_role(Kind::Span, "message"), KwargRole::Field);
    assert_eq!(kwarg_role(Kind::Event, CALLER_SKIP_KWARG), KwargRole::CallerSkip);
    assert_eq!(kwarg_role(Kind::Span, "_trapy_caller_skip"), KwargRole::CallerSkip);
    assert_eq!(kwarg_role(Kind::Event, "Message"), KwargRole::Field);
    assert_eq!(kwarg_role(Kind::Event, "msg"), KwargRole::Field);
}

#[test]
fn keywords_are_sorted_in_order() {
    let mut p = ParsedKwargs::new();
    assert!(p.fields.is_empty());
    assert_eq!(p.message, None);
    assert_eq!(p.caller_skip, 0);
    field(&mut p, Kind::Event, "z", PyValue::Int(1));
    p.parse_kwarg(
        Kind::Event,
        "message".to_string(),
        KwargOutcome::Text("override".to_string()),
    );
    p.parse_kwarg(
        Kind::Event,
        CALLER_SKIP_KWARG.to_string(),
        KwargOutcome::Skip(Some(2)),
    );
    field(&mut p, Kind::Event, "a", PyValue::Int(2));
    let names: Vec<&str> = p.fields.iter().map(|f| f.0.as_str()).collect();
    assert_eq!(names, ["z", "a"]);
    assert_eq!(p.fields[1].1, PyValue::Int(2));
    assert_eq!(p.message.as_deref(), Some("override"));
    assert_eq!(p.caller_skip, 2);
    p.parse_kwarg(
        Kind::Event,
        CALLER_SKIP_KWARG.to_string(),
        KwargOutcome::Skip(None),
    );
    assert_eq!(p.caller_skip, 0);
}

#[test]
fn whole_calls() {
    let items = || {
        vec![
            ("z".to_string(), KwargOutcome::Value(PyValue::Bool(true))),
            (CALLER_SKIP_KWARG.to_string(), KwargOutcome::Skip(Some(3))),
            ("a".to_string(), KwargOutcome::Value(PyValue::Null)),
        ]
    };
    let mut with_message = items();
    with_message.insert(1, ("message".to_string(), KwargOutcome::Text("kw".to_string())));
    let e = parse_kwargs(Kind::Event, with_message);
    assert_eq!(
        e.fields,
        [("z".to_string(), PyValue::Bool(true)), ("a".to_string(), PyValue::Null)]
    );
    assert_eq!(e.message.as_deref(), Some("kw"));
    assert_eq!(e.caller_skip, 3);

    let mut with_field = items();
    with_field.push((
        "message".to_string(),
        KwargOutcome::Value(PyValue::Int(1)),
    ));
    let s = parse_kwargs(Kind::Span, with_field);
    assert_eq!(s.fields.len(), 3);
    assert_eq!(s.fields[2], ("message".to_string(), PyValue::Int(1)));
    assert_eq!(s.message, None);

    let none = parse_kwargs(Kind::Event, vec![]);
    assert!(none.fields.is_empty());
    assert_eq!(none.caller_skip, 0);
}

#[test]
fn locations() {
    let l = caller_location(Some(Frame {
        filename: "x.py".to_string(),
        lineno: 4,
        module: Some("m".to_string()),
    }));
    assert_eq!((l.file.as_str(), l.line, l.module.as_str()), ("x.py", 4, "m"));
    let l = caller_location(Some(Frame {
        filename: "x.py".to_string(),
        lineno: 4,
        module: None,
    }));
    assert_eq!((l.file.as_str(), l.line, l.module.as_str()), ("x.py", 4, "<unknown>"));
    let l = caller_location(None);
    assert_eq!(
        (l.file.as_str(), l.line, l.module.as_str()),
        ("<unknown>", 0, "<unknown>")
    );
}

#[test]
fn each_keyword_becomes_a_field() {
    let mut reg = Registry::new();
    let mut p = ParsedKwargs::new();
    field(&mut p, Kind::Event, "cat", PyValue::Str("planning".to_string()));
    field(&mut p, Kind::Event, "x", PyValue::Int(1));
    field(&mut p, Kind::Event, "nothing", PyValue::Null);
    field(&mut p, Kind::Event, "qs", PyValue::List(vec![PyValue::Int(3)]));
    let e = emit(&mut reg, Level::Info, "seam planned", &p, &here());
    let m = e.callsite.meta_static();
    assert_eq!(m.fields, ["message", "cat", "x", "nothing", "qs"]);
    assert_eq!(m.target, "py:pkg.a");
    assert_eq!(m.level, Level::Info);
    assert_eq!(e.values.len(), 5);
    assert!(matches!(e.values[0], Some(FieldValue::Str("seam planned"))));
    assert!(matches!(e.values[1], Some(FieldValue::Str("planning"))));
    assert!(matches!(e.values[2], Some(FieldValue::I64(1))));
    assert!(e.values[3].is_none());
    assert!(matches!(e.values[4], Some(FieldValue::Tree(_))));
}

#[test]
fn message_keyword_overrides_the_positional_message() {
    let mut reg = Registry::new();
    let mut p = ParsedKwargs::new();
    p.parse_kwarg(
        Kind::Event,
        "message".to_string(),
        KwargOutcome::Text("kw".to_string()),
    );
    let e = emit(&mut reg, Level::Error, "pos", &p, &here());
    assert_eq!(e.callsite.meta_static().fields, ["message"]);
    assert!(matches!(e.values[0], Some(FieldValue::Str("kw"))));
    let empty = ParsedKwargs::new();
    let e = emit(&mut reg, Level::Error, "", &empty, &here());
    assert!(matches!(e.values[0], Some(FieldValue::Str(""))));
    assert_eq!(reg.len(), 1);
}
