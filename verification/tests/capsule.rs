use trapy::callsite::Registry;
use trapy::capsule::{
    cap_flush_sync, cap_init, cap_init_status, cap_submit_event, enabled, foreign_value,
    forward_event, import_trapy_subscriber, try_import_and_install, wrong_name, EventSource,
    ForeignField, ForeignVisitor, ImportNext, ImportReply, ImportStage, ImportState, SpanIds,
    FIELD_KIND_BOOL, FIELD_KIND_F64, FIELD_KIND_I64, FIELD_KIND_NULL, FIELD_KIND_STR,
    FIELD_KIND_U64,
};
use trapy::event::FieldValue;
use trapy::level::{level_byte, set_level_byte, Level, LevelFilter, LEVEL_OFF, LEVEL_WARN};
use trapy::text::ptr_to_str;
use trapy::{CAPSULE_NAME, CAPSULE_VERSION};

fn foreign<'a>(name: &'a str, kind: u8) -> ForeignField<'a> {
    ForeignField {
        name: Some(name.as_bytes()),
        kind,
        bool_val: 2,
        i64_val: -5,
        u64_val: 6,
        f64_val: 0.5f64.to_bits(),
        str_val: Some(b"text"),
    }
}

#[test]
fn texts_behind_pointers() {
    assert_eq!(ptr_to_str(None), "");
    assert_eq!(ptr_to_str(Some(b"")), "");
    assert_eq!(ptr_to_str(Some("h\u{e9}\u{1f600}".as_bytes())), "h\u{e9}\u{1f600}");
    assert_eq!(ptr_to_str(Some(b"\xff")), "<invalid utf-8>");
    // Overlong, surrogate and truncated encodings.
    assert_eq!(ptr_to_str(Some(b"\xc0\x80")), "<invalid utf-8>");
    assert_eq!(ptr_to_str(Some(b"\xed\xa0\x80")), "<invalid utf-8>");
    assert_eq!(ptr_to_str(Some(b"a\xe2\x82")), "<invalid utf-8>");
}

#[test]
fn the_kind_picks_the_value() {
    assert!(foreign_value(&foreign("n", FIELD_KIND_NULL)).is_none());
    assert!(matches!(
        foreign_value(&foreign("n", FIELD_KIND_BOOL)),
        Some(FieldValue::Bool(true))
    ));
    assert!(matches!(
        foreign_value(&foreign("n", FIELD_KIND_I64)),
        Some(FieldValue::I64(-5))
    ));
    assert!(matches!(
        foreign_value(&foreign("n", FIELD_KIND_U64)),
        Some(FieldValue::U64(6))
    ));
    assert!(matches!(
        foreign_value(&foreign("n", FIELD_KIND_F64)),
        Some(FieldValue::F64(b)) if f64::from_bits(b) == 0.5
    ));
    assert!(matches!(
        foreign_value(&foreign("n", FIELD_KIND_STR)),
        Some(FieldValue::Str("text"))
    ));
    assert!(foreign_value(&foreign("n", 6)).is_none());
    assert!(foreign_value(&foreign("n", 255)).is_none());
}

#[test]
fn submitted_events_are_rebuilt() {
    let mut reg = Registry::new();
    let filter = LevelFilter::new();
    let fields = [
        foreign("a", FIELD_KIND_U64),
        foreign("message", FIELD_KIND_STR),
        foreign("message", FIELD_KIND_I64),
        foreign("b", 99),
    ];
    let e = cap_submit_event(
        &mut reg,
        &filter,
        true,
        2,
        Some(b"tgt"),
        None,
        31,
        Some(b"\xff"),
        &fields,
    )
    .unwrap();
    let m = e.callsite.meta_static();
    assert_eq!(m.name, "trapy_event");
    assert_eq!(m.level, Level::Warn);
    assert_eq!(m.target, "tgt");
    assert_eq!(m.file, "");
    assert_eq!(m.line, 31);
    assert_eq!(m.module, "<invalid utf-8>");
    assert_eq!(m.fields, ["message", "a", "b"]);
    assert_eq!(e.values.len(), 3);
    assert!(matches!(e.values[0], Some(FieldValue::Str("text"))));
    assert!(matches!(e.values[1], Some(FieldValue::U64(6))));
    assert!(e.values[2].is_none());
}

#[test]
fn an_event_without_a_message_has_an_empty_slot() {
    let mut reg = Registry::new();
    let filter = LevelFilter::new();
    let e = cap_submit_event(&mut reg, &filter, true, 9, None, None, 0, None, &[]).unwrap();
    assert_eq!(e.callsite.meta_static().level, Level::Trace);
    assert_eq!(e.callsite.meta_static().fields, ["message"]);
    assert!(e.values[0].is_none());
}

#[test]
fn dropped_submissions() {
    let mut reg = Registry::new();
    let mut filter = LevelFilter::new();
    let mut submit = |filter: &LevelFilter, installed: bool, level: u8| {
        cap_submit_event(&mut reg, filter, installed, level, None, None, 0, None, &[]).is_some()
    };
    assert!(!submit(&filter, true, LEVEL_OFF));
    assert!(!submit(&filter, false, 1));
    set_level_byte(&mut filter, LEVEL_WARN);
    assert!(!submit(&filter, true, 3));
    assert!(!submit(&filter, true, 200));
    assert!(submit(&filter, true, 2));
    set_level_byte(&mut filter, LEVEL_OFF);
    assert!(!submit(&filter, true, 1));
    assert_eq!(reg.len(), 1);
}

#[test]
fn forwarded_events_arrive_as_they_were() {
    let mut v = ForeignVisitor::new();
    v.record_text("message", "plan\u{2713}".to_string());
    v.record_str("cat", "planning");
    v.record_bool("ok", false);
    v.record_i64("i", i64::MIN);
    v.record_u64("u", u64::MAX);
    v.record_f64("f", (-0.0f64).to_bits());
    v.record_str("", "");
    let source = EventSource {
        level: Level::Debug,
        target: "host::planner",
        file: Some("src/p.rs"),
        line: Some(77),
        module: None,
    };
    let s = forward_event(5, &source, &v).unwrap();
    assert_eq!(s.level, 4);
    let mut reg = Registry::new();
    let e = cap_submit_event(
        &mut reg,
        &LevelFilter::new(),
        true,
        s.level,
        Some(s.target),
        Some(s.file),
        s.line_no,
        Some(s.module),
        &s.fields,
    )
    .unwrap();
    let m = e.callsite.meta_static();
    assert_eq!(m.level, Level::Debug);
    assert_eq!(m.target, "host::planner");
    assert_eq!(m.file, "src/p.rs");
    assert_eq!(m.line, 77);
    assert_eq!(m.module, "");
    assert_eq!(m.fields, ["message", "cat", "ok", "i", "u", "f", ""]);
    assert!(matches!(e.values[0], Some(FieldValue::Str("plan\u{2713}"))));
    assert!(matches!(e.values[1], Some(FieldValue::Str("planning"))));
    assert!(matches!(e.values[2], Some(FieldValue::Bool(false))));
    assert!(matches!(e.values[3], Some(FieldValue::I64(i64::MIN))));
    assert!(matches!(e.values[4], Some(FieldValue::U64(u64::MAX))));
    assert!(matches!(e.values[5], Some(FieldValue::F64(b)) if b == (-0.0f64).to_bits()));
    assert!(matches!(e.values[6], Some(FieldValue::Str(""))));
}

#[test]
fn fields_are_laid_out_exactly() {
    let mut v = ForeignVisitor::new();
    v.record_bool("ok", true);
    v.record_i64("n", -1);
    v.record_u64("u", 7);
    v.record_str("s", "\u{e9}");
    v.record_bool("no", false);
    v.record_f64("f", 0.5f64.to_bits());
    let source = EventSource {
        level: Level::Info,
        target: "host",
        file: None,
        line: None,
        module: None,
    };
    let s = forward_event(3, &source, &v).unwrap();
    assert_eq!((s.level, s.target, s.line_no), (3, &b"host"[..], 0));
    assert!(s.file.is_empty() && s.module.is_empty());
    let laid_out: Vec<_> = s
        .fields
        .iter()
        .map(|f| {
            let name = f.name.unwrap();
            (name, f.kind, f.bool_val, f.i64_val, f.u64_val, f.f64_val, f.str_val)
        })
        .collect();
    let half = 0.5f64.to_bits();
    assert_eq!(
        laid_out,
        [
            (&b"ok"[..], 1, 1, 0, 0, 0, None),
            (&b"n"[..], 2, 0, -1, 0, 0, None),
            (&b"u"[..], 3, 0, 0, 7, 0, None),
            (&b"s"[..], 5, 0, 0, 0, 0, Some(&b"\xc3\xa9"[..])),
            (&b"no"[..], 1, 0, 0, 0, 0, None),
            (&b"f"[..], 4, 0, 0, 0, half, None),
        ]
    );
}

#[test]
fn hosts_drop_what_the_filter_does_not_admit() {
    let v = ForeignVisitor::new();
    let source = EventSource {
        level: Level::Info,
        target: "t",
        file: None,
        line: None,
        module: Some("m"),
    };
    assert!(forward_event(2, &source, &v).is_none());
    let s = forward_event(3, &source, &v).unwrap();
    assert_eq!((s.file, s.line_no, s.module), (&b""[..], 0, &b"m"[..]));
    assert!(enabled(&Level::Info, 3));
    assert!(!enabled(&Level::Debug, 3));
}

#[test]
fn both_sides_drop_alike() {
    let v = ForeignVisitor::new();
    for byte in 0..=7u8 {
        let mut filter = LevelFilter::new();
        set_level_byte(&mut filter, byte);
        for level in [Level::Error, Level::Warn, Level::Info, Level::Debug, Level::Trace] {
            let source = EventSource { level, target: "t", file: None, line: None, module: None };
            let sent = forward_event(byte, &source, &v);
            let mut reg = Registry::new();
            let level = level_byte(&level);
            let taken =
                cap_submit_event(&mut reg, &filter, true, level, None, None, 0, None, &[]);
            assert_eq!(sent.is_some(), taken.is_some());
        }
    }
}

#[test]
fn span_ids_are_fresh() {
    let mut ids = SpanIds::new();
    assert_eq!(ids.last(), 0);
    assert_eq!(ids.new_span(), 1);
    assert_eq!(ids.new_span(), 2);
    assert_eq!(ids.last(), 2);
}

#[test]
fn table_entry_points() {
    assert_eq!(cap_init(None, false, false), Err(-1));
    assert_eq!(cap_init(Some(b"/tmp/\xff"), false, false), Err(-1));
    assert_eq!(cap_init(Some(b"/tmp/t"), false, false), Ok("/tmp/t".to_string()));
    assert_eq!(cap_init(Some(b"/tmp/t"), true, false), Err(1));
    assert_eq!(cap_init(Some(b"/tmp/t"), false, true), Err(1));
    assert_eq!(cap_init_status(&Ok(())), 0);
    assert_eq!(cap_init_status(&Err("no".to_string())), -1);
    assert_eq!(cap_flush_sync(true), 1);
    assert_eq!(cap_flush_sync(false), 0);
}

fn goes_to(n: ImportNext, stage: ImportStage) -> bool {
    matches!(n, ImportNext::Go(s) if s == stage)
}

fn fails_with(n: ImportNext, text: &str) -> bool {
    match n {
        ImportNext::Finished(Err(e)) => e == text,
        _ => false,
    }
}

#[test]
fn handshake_goes_through() {
    assert_eq!(CAPSULE_NAME, "trapy._capsule");
    assert_eq!(CAPSULE_VERSION, 2);
    let mut state = ImportState::new();
    let stage = state.start().unwrap();
    assert_eq!(stage, ImportStage::Fetch);
    assert!(goes_to(
        try_import_and_install(stage, ImportReply::Done),
        ImportStage::ReadName
    ));
    let name = ImportReply::Name(Some(b"trapy._capsule".to_vec()));
    assert!(goes_to(
        try_import_and_install(ImportStage::ReadName, name),
        ImportStage::ReadPointer
    ));
    assert!(goes_to(
        try_import_and_install(ImportStage::ReadPointer, ImportReply::Pointer(false)),
        ImportStage::ReadVersion
    ));
    for v in [2, 3, u32::MAX] {
        assert!(goes_to(
            try_import_and_install(ImportStage::ReadVersion, ImportReply::Version(v)),
            ImportStage::Install
        ));
    }
    assert!(matches!(
        try_import_and_install(ImportStage::Install, ImportReply::Done),
        ImportNext::Finished(Ok(()))
    ));
    assert_eq!(import_trapy_subscriber(&mut state, Ok(())), (true, None));
    assert_eq!(state.start(), None);
}

#[test]
fn handshake_failures() {
    let failed = || ImportReply::Failed("boom".to_string());
    for stage in [ImportStage::Fetch, ImportStage::ReadName, ImportStage::ReadPointer] {
        assert!(fails_with(try_import_and_install(stage, failed()), "boom"));
    }
    assert!(fails_with(
        try_import_and_install(ImportStage::Install, failed()),
        "tracing::set_global_default failed: boom"
    ));
    assert!(fails_with(
        try_import_and_install(ImportStage::ReadName, ImportReply::Name(None)),
        "trapy capsule has no name"
    ));
    assert!(fails_with(
        try_import_and_install(
            ImportStage::ReadName,
            ImportReply::Name(Some(b"tr\xffpy".to_vec()))
        ),
        "expected capsule named \"trapy._capsule\", got \"tr\u{fffd}py\""
    ));
    assert!(fails_with(
        try_import_and_install(
            ImportStage::ReadName,
            ImportReply::Name(Some(b"trapy._capsul\xc3\xa9".to_vec()))
        ),
        "expected capsule named \"trapy._capsule\", got \"trapy._capsul\u{e9}\""
    ));
    assert!(fails_with(
        try_import_and_install(ImportStage::ReadPointer, ImportReply::Pointer(true)),
        "trapy capsule pointer is null"
    ));
    assert!(fails_with(
        try_import_and_install(ImportStage::ReadVersion, ImportReply::Version(1)),
        "trapy capsule version 1 older than required 2"
    ));
    assert_eq!(wrong_name("A", "B"), "expected capsule named A, got B");
}

#[test]
fn a_failed_import_is_reported_and_not_live() {
    let mut state = ImportState::new();
    let report = "trapy::import_trapy_subscriber: subscriber NOT installed (no module); \
                  tracing events from this cdylib will be dropped";
    assert_eq!(
        import_trapy_subscriber(&mut state, Err("no module".to_string())),
        (false, Some(report.to_string()))
    );
    // A failed attempt does not make the next one succeed by itself.
    assert_eq!(state.start(), Some(ImportStage::Fetch));
    assert_eq!(import_trapy_subscriber(&mut state, Ok(())), (true, None));
    assert_eq!(
        import_trapy_subscriber(&mut state, Err("late".to_string())),
        (true, None)
    );
}
