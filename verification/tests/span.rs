use trapy::callsite::{Kind, Registry};
use trapy::event::{FieldValue, Location};
use trapy::kwargs::{KwargOutcome, ParsedKwargs};
use trapy::level::Level;
use trapy::span::{
    delete_attribute_error, make_span, set_attribute_error, span_repr, Span, SpanDepth,
};
use trapy::value::PyValue;

fn plan_part(reg: &mut Registry) -> Span<u32> {
    let p = ParsedKwargs::new();
    let (span, _) = make_span(
        reg,
        Level::Debug,
        "plan_part",
        &p,
        Location {
            file: "a.py".to_string(),
            line: 5,
            module: "m".to_string(),
        },
    );
    span
}

#[test]
fn a_span_records_its_keywords() {
    let mut reg = Registry::new();
    let mut p = ParsedKwargs::new();
    p.parse_kwarg(
        Kind::Span,
        "message".to_string(),
        KwargOutcome::Value(PyValue::Str("not special".to_string())),
    );
    p.parse_kwarg(
        Kind::Span,
        "part".to_string(),
        KwargOutcome::Value(PyValue::Bool(true)),
    );
    let (span, e): (Span<()>, _) = make_span(
        &mut reg,
        Level::Warn,
        "outer",
        &p,
        Location {
            file: "b.py".to_string(),
            line: 8,
            module: "n".to_string(),
        },
    );
    assert_eq!(span.name(), "outer");
    assert_eq!(span.entered(), 0);
    let m = e.callsite.meta_static();
    assert_eq!(m.name, "outer");
    assert_eq!(m.kind, Kind::Span);
    assert_eq!(m.fields, ["message", "part"]);
    assert!(matches!(e.values[0], Some(FieldValue::Str("not special"))));
    assert!(matches!(e.values[1], Some(FieldValue::Bool(true))));
}

#[test]
fn exit_undoes_enter() {
    let mut reg = Registry::new();
    let mut depth = SpanDepth::new();
    let mut span = plan_part(&mut reg);
    assert_eq!(span.enter(&mut depth, 7), 0);
    assert_eq!(span.entered(), 1);
    assert_eq!(depth.get(), 1);
    assert_eq!(span.exit(), Ok(7));
    assert_eq!(depth.exit(), 0);
    assert_eq!(span.entered(), 0);
    assert_eq!(depth.get(), 0);
}

#[test]
fn reentry_is_left_in_reverse() {
    let mut reg = Registry::new();
    let mut depth = SpanDepth::new();
    let mut span = plan_part(&mut reg);
    assert_eq!(span.enter(&mut depth, 1), 0);
    assert_eq!(span.enter(&mut depth, 2), 1);
    assert_eq!(span.enter(&mut depth, 3), 2);
    assert_eq!(span.exit(), Ok(3));
    assert_eq!(depth.exit(), 2);
    assert_eq!(span.exit(), Ok(2));
    assert_eq!(depth.exit(), 1);
    assert_eq!(span.exit(), Ok(1));
    assert_eq!(depth.exit(), 0);
}

#[test]
fn exit_without_enter_is_refused() {
    let mut reg = Registry::new();
    let mut span = plan_part(&mut reg);
    assert_eq!(
        span.exit(),
        Err("Span.__exit__ called without a matching __enter__".to_string())
    );
    assert_eq!(span.entered(), 0);
}

#[test]
fn depth_stops_at_zero() {
    let mut depth = SpanDepth::new();
    assert_eq!(depth.exit(), 0);
    assert_eq!(depth.get(), 0);
    assert_eq!(depth.enter(), 0);
    assert_eq!(depth.enter(), 1);
    assert_eq!(depth.get(), 2);
}

#[test]
fn timing_events() {
    let mut reg = Registry::new();
    let span = plan_part(&mut reg);
    let e = span.enter_event(&mut reg, 4);
    let m = e.callsite.meta_static();
    assert_eq!(m.fields, ["message", "cat", "op", "name", "depth"]);
    assert_eq!(m.level, Level::Debug);
    assert_eq!(m.target, "py:m");
    assert_eq!((m.file, m.line, m.module), ("a.py", 5, "m"));
    assert!(e.values[0].is_none());
    assert!(matches!(e.values[1], Some(FieldValue::Str("timing"))));
    assert!(matches!(e.values[2], Some(FieldValue::Str("enter"))));
    assert!(matches!(e.values[3], Some(FieldValue::Str("plan_part"))));
    assert!(matches!(e.values[4], Some(FieldValue::I64(4))));
    assert_eq!(e.values.len(), 5);

    let bits = 12.25f64.to_bits();
    let x = span.exit_event(&mut reg, 4, bits);
    let m = x.callsite.meta_static();
    assert_eq!(m.fields, ["message", "cat", "op", "name", "depth", "elapsed_ms"]);
    assert!(matches!(x.values[2], Some(FieldValue::Str("exit"))));
    assert!(matches!(x.values[5], Some(FieldValue::F64(b)) if b == bits));
    assert_eq!(x.values.len(), 6);
}

#[test]
fn span_text() {
    let mut reg = Registry::new();
    let mut depth = SpanDepth::new();
    let mut span = plan_part(&mut reg);
    assert_eq!(span.repr(true), "Span(name=\"plan_part\", entered=0, enabled=true)");
    for i in 0..12 {
        span.enter(&mut depth, i);
    }
    assert_eq!(span.repr(false), "Span(name=\"plan_part\", entered=12, enabled=false)");
    assert_eq!(span_repr("Q", 1009, true), "Span(name=Q, entered=1009, enabled=true)");
}

#[test]
fn spans_are_frozen() {
    assert_eq!(
        set_attribute_error("na\\me"),
        "'Span' is frozen; cannot set attribute \"na\\\\me\""
    );
    assert_eq!(
        delete_attribute_error("name"),
        "'Span' is frozen; cannot delete attribute \"name\""
    );
}

#[test]
fn leaving_counts_out_what_was_entered() {
    let mut reg = Registry::new();
    let mut depth = SpanDepth::new();
    depth.enter();
    let mut span = plan_part(&mut reg);
    assert_eq!(span.enter(&mut depth, 5), 1);
    assert_eq!(span.enter(&mut depth, 6), 2);
    assert_eq!(span.leave(&mut depth), Ok((6, 2)));
    assert_eq!(span.leave(&mut depth), Ok((5, 1)));
    assert_eq!(depth.get(), 1);
    assert_eq!(
        span.leave(&mut depth),
        Err("Span.__exit__ called without a matching __enter__".to_string())
    );
    assert_eq!(depth.get(), 1);
}

#[test]
fn a_span_found_again_has_its_own_source() {
    let mut reg = Registry::new();
    let p = ParsedKwargs::new();
    let at = |module: &str| Location {
        file: "a.py".to_string(),
        line: 5,
        module: module.to_string(),
    };
    let (_, first): (Span<()>, _) = make_span(&mut reg, Level::Info, "s", &p, at("m"));
    let (span, again): (Span<()>, _) = make_span(&mut reg, Level::Info, "s", &p, at("n"));
    assert_eq!(again.callsite.id(), first.callsite.id());
    assert_eq!(again.callsite.meta_static().target, "py:m");
    let e = span.enter_event(&mut reg, 0);
    assert_eq!(e.callsite.meta_static().target, "py:n");
}
