use trapy::callsite::{
    get_event, get_event_full, get_span, intern, py_target, Interner, Kind, Registry,
    MESSAGE_FIELD,
};
use trapy::level::Level;

#[test]
fn interning_gives_the_same_text_once() {
    let mut table = Interner::new();
    let a = intern(&mut table, "alpha");
    let b = intern(&mut table, "beta");
    let again = intern(&mut table, &String::from("alpha"));
    assert_eq!(a, "alpha");
    assert_eq!(b, "beta");
    assert_eq!(again, "alpha");
    assert_eq!(a.as_ptr(), again.as_ptr());
    assert_eq!(intern(&mut table, ""), "");
}

#[test]
fn event_metadata_is_what_was_asked_for() {
    let mut reg = Registry::new();
    let c = get_event_full(
        &mut reg,
        "lib.rs",
        12,
        Level::Debug,
        "host::planner",
        "host::planner::path",
        &["cat", "x"],
    );
    let m = c.meta_static();
    assert_eq!(m.name, "trapy_event");
    assert_eq!(m.target, "host::planner");
    assert_eq!(m.level, Level::Debug);
    assert_eq!(m.file, "lib.rs");
    assert_eq!(m.line, 12);
    assert_eq!(m.module, "host::planner::path");
    assert_eq!(m.fields, ["message", "cat", "x"]);
    assert_eq!(m.kind, Kind::Event);
    assert_eq!(m.fields[0], MESSAGE_FIELD);
    assert_eq!(c.id(), 0);
    assert_eq!(reg.len(), 1);
}

#[test]
fn python_events_have_a_python_target() {
    let mut reg = Registry::new();
    let c = get_event(&mut reg, "a.py", 3, Level::Info, "pkg.mod", &[]);
    assert_eq!(c.meta_static().target, "py:pkg.mod");
    assert_eq!(c.meta_static().module, "pkg.mod");
    assert_eq!(c.meta_static().fields, ["message"]);
    assert_eq!(py_target("__main__"), "py:__main__");
}

#[test]
fn span_metadata_has_no_message() {
    let mut reg = Registry::new();
    let c = get_span(&mut reg, "a.py", 3, Level::Trace, "m", "plan_part", &["part"]);
    let m = c.meta_static();
    assert_eq!(m.name, "plan_part");
    assert_eq!(m.target, "py:m");
    assert_eq!(m.fields, ["part"]);
    assert_eq!(m.kind, Kind::Span);
}

#[test]
fn callsites_are_built_once() {
    let mut reg = Registry::new();
    let a = get_event(&mut reg, "a.py", 3, Level::Info, "m", &["x", "y"]);
    let b = get_event(&mut reg, "a.py", 3, Level::Info, "m", &["x", "y"]);
    assert!(std::ptr::eq(a, b));
    assert_eq!(reg.len(), 1);
    let s = get_span(&mut reg, "a.py", 3, Level::Info, "m", "s", &["x", "y"]);
    let t = get_span(&mut reg, "a.py", 3, Level::Info, "m", "s", &["x", "y"]);
    assert!(std::ptr::eq(s, t));
    assert_eq!(reg.len(), 2);
    assert_eq!(s.id(), 1);
}

#[test]
fn any_difference_makes_another_callsite() {
    let mut reg = Registry::new();
    let first = get_event(&mut reg, "a.py", 3, Level::Info, "m", &["x", "y"]).id();
    assert_eq!(first, 0);
    assert_eq!(get_event(&mut reg, "b.py", 3, Level::Info, "m", &["x", "y"]).id(), 1);
    assert_eq!(get_event(&mut reg, "a.py", 4, Level::Info, "m", &["x", "y"]).id(), 2);
    assert_eq!(get_event(&mut reg, "a.py", 3, Level::Warn, "m", &["x", "y"]).id(), 3);
    assert_eq!(get_event(&mut reg, "a.py", 3, Level::Info, "m", &["y", "x"]).id(), 4);
    assert_eq!(get_event(&mut reg, "a.py", 3, Level::Info, "m", &["x"]).id(), 5);
    // The same source run as another module keeps its own target.
    let other = get_event(&mut reg, "a.py", 3, Level::Info, "__main__", &["x", "y"]);
    assert_eq!(other.id(), 6);
    assert_eq!(other.meta_static().target, "py:__main__");
    assert_eq!(get_span(&mut reg, "a.py", 3, Level::Info, "m", "s", &["x", "y"]).id(), 7);
    assert_eq!(get_span(&mut reg, "a.py", 3, Level::Info, "m", "t", &["x", "y"]).id(), 8);
    assert_eq!(get_event(&mut reg, "a.py", 3, Level::Info, "m", &["x", "y"]).id(), first);
    assert_eq!(reg.len(), 9);
}

#[test]
fn events_and_spans_do_not_share_callsites() {
    let mut reg = Registry::new();
    let e = get_event(&mut reg, "a.py", 3, Level::Info, "m", &["x"]);
    let s = get_span(
        &mut reg,
        "a.py",
        3,
        Level::Info,
        "m",
        "trapy_event",
        &["message", "x"],
    );
    assert_eq!(e.meta_static().fields, s.meta_static().fields);
    assert_ne!(e.id(), s.id());
}

#[test]
fn a_span_keeps_the_module_of_the_first_request() {
    let mut reg = Registry::new();
    let a = get_span(&mut reg, "a.py", 3, Level::Info, "pkg.a", "s", &["x"]);
    let b = get_span(&mut reg, "a.py", 3, Level::Info, "__main__", "s", &["x"]);
    assert!(std::ptr::eq(a, b));
    assert_eq!(reg.len(), 1);
    assert_eq!(b.meta_static().target, "py:pkg.a");
    assert_eq!(b.meta_static().module, "pkg.a");
    assert_eq!(get_span(&mut reg, "a.py", 3, Level::Info, "pkg.a", "t", &["x"]).id(), 1);
    assert_eq!(get_span(&mut reg, "a.py", 3, Level::Warn, "pkg.a", "s", &["x"]).id(), 2);
    assert_eq!(get_span(&mut reg, "a.py", 4, Level::Info, "pkg.a", "s", &["x"]).id(), 3);
    assert_eq!(get_span(&mut reg, "b.py", 3, Level::Info, "pkg.a", "s", &["x"]).id(), 4);
    assert_eq!(get_span(&mut reg, "a.py", 3, Level::Info, "pkg.a", "s", &[]).id(), 5);
}
