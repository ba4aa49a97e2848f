use tracing_subscriber::fmt::format::FmtSpan;
use trapy::fmt::{
    bad_format, bad_stream, json_knobs, json_options, parse_fmt_format, parse_fmt_request, parse_fmt_target,
    parse_span_events, unknown_span_event, FmtFormat, FmtOptions, FmtRequest, FmtTarget,
};

fn names(v: &[&str]) -> Vec<String> {
    v.iter().map(|s| s.to_string()).collect()
}

#[test]
fn each_span_event_name() {
    let one = |n: &str| parse_span_events(&names(&[n]));
    assert_eq!(one("none"), Ok(FmtSpan::NONE));
    assert_eq!(one("new"), Ok(FmtSpan::NEW));
    assert_eq!(one("enter"), Ok(FmtSpan::ENTER));
    assert_eq!(one("exit"), Ok(FmtSpan::EXIT));
    assert_eq!(one("close"), Ok(FmtSpan::CLOSE));
    assert_eq!(one("active"), Ok(FmtSpan::ENTER | FmtSpan::EXIT));
    assert_eq!(
        one("full"),
        Ok(FmtSpan::NEW | FmtSpan::ENTER | FmtSpan::EXIT | FmtSpan::CLOSE)
    );
}

#[test]
fn span_events_add_up() {
    assert_eq!(parse_span_events(&[]), Ok(FmtSpan::NONE));
    assert_eq!(
        parse_span_events(&names(&["CLOSE", "new", "New"])),
        Ok(FmtSpan::NEW | FmtSpan::CLOSE)
    );
    assert_eq!(
        parse_span_events(&names(&["new", "close"])),
        parse_span_events(&names(&["close", "none", "new"]))
    );
    assert_eq!(
        parse_span_events(&names(&["enter", "exit"])),
        Ok(FmtSpan::ACTIVE)
    );
}

#[test]
fn the_first_unknown_span_event_is_refused() {
    assert_eq!(
        parse_span_events(&names(&["new", "BOGUS", "worse"])),
        Err(
            "unknown span event \"bogus\"; expected one of none/new/enter/exit/close/active/full"
                .to_string()
        )
    );
    assert!(parse_span_events(&names(&[" new"])).is_err());
    assert_eq!(
        unknown_span_event("?"),
        "unknown span event ?; expected one of none/new/enter/exit/close/active/full"
    );
}

#[test]
fn targets() {
    assert_eq!(parse_fmt_target("StdErr", None), Ok(FmtTarget::Stderr));
    assert_eq!(parse_fmt_target("stdout", None), Ok(FmtTarget::Stdout));
    assert_eq!(
        parse_fmt_target("nonsense", Some("/tmp/x".to_string())),
        Ok(FmtTarget::File("/tmp/x".to_string()))
    );
    assert_eq!(
        parse_fmt_target("Pipe", None),
        Err("target_stream must be 'stderr' or 'stdout', got \"pipe\"".to_string())
    );
    assert_eq!(bad_stream("Q"), "target_stream must be 'stderr' or 'stdout', got Q");
}

#[test]
fn formats() {
    assert_eq!(parse_fmt_format("full"), Ok(FmtFormat::Full));
    assert_eq!(parse_fmt_format("COMPACT"), Ok(FmtFormat::Compact));
    assert_eq!(parse_fmt_format("pretty"), Ok(FmtFormat::Pretty));
    assert_eq!(parse_fmt_format("Json"), Ok(FmtFormat::Json));
    assert_eq!(
        parse_fmt_format("XML"),
        Err("format must be one of 'full'/'compact'/'pretty'/'json', got \"xml\"".to_string())
    );
    assert_eq!(
        bad_format("Q"),
        "format must be one of 'full'/'compact'/'pretty'/'json', got Q"
    );
}

#[test]
fn default_and_json_options() {
    let d = FmtOptions::default();
    assert_eq!(d.format, FmtFormat::Full);
    assert!(d.with_target && d.with_ansi && d.with_level);
    assert!(!d.with_file && !d.with_line_number && !d.with_thread_ids && !d.with_thread_names);
    assert_eq!(d.span_events, FmtSpan::NONE);
    assert!(!d.json_flatten && d.json_current_span && d.json_span_list);
    let j = json_options();
    assert_eq!(j.format, FmtFormat::Json);
    assert!(j.with_target && !j.with_ansi && j.with_level);
    assert_eq!(j.span_events, FmtSpan::NONE);
}

fn request() -> FmtRequest {
    FmtRequest {
        target_stream: "stderr".to_string(),
        with_target: false,
        with_ansi: true,
        file: None,
        format: "compact".to_string(),
        with_level: false,
        with_file: true,
        with_line_number: false,
        with_thread_ids: true,
        with_thread_names: false,
        span_events: Some(names(&["close"])),
        json_flatten: true,
        json_current_span: false,
        json_span_list: true,
    }
}

#[test]
fn a_request_is_read_as_a_whole() {
    let (target, o) = parse_fmt_request(request()).ok().unwrap();
    assert_eq!(target, FmtTarget::Stderr);
    assert_eq!(o.format, FmtFormat::Compact);
    assert_eq!(o.span_events, FmtSpan::CLOSE);
    assert!(!o.with_target && o.with_ansi && !o.with_level && o.with_file);
    assert!(!o.with_line_number && o.with_thread_ids && !o.with_thread_names);
    assert!(o.json_flatten && !o.json_current_span && o.json_span_list);
    let none = FmtRequest { span_events: None, ..request() };
    assert_eq!(parse_fmt_request(none).ok().unwrap().1.span_events, FmtSpan::NONE);
}

#[test]
fn the_first_mistake_in_a_request_is_reported() {
    let bad = |stream: &str, format: &str, event: &str| {
        parse_fmt_request(FmtRequest {
            target_stream: stream.to_string(),
            format: format.to_string(),
            span_events: Some(names(&[event])),
            ..request()
        })
        .err()
        .unwrap()
    };
    assert!(bad("x", "x", "x").starts_with("target_stream must be"));
    assert!(bad("stdout", "x", "x").starts_with("format must be"));
    assert!(bad("stdout", "full", "x").starts_with("unknown span event \"x\""));
}

#[test]
fn json_knobs_apply_to_json_only() {
    assert_eq!(json_knobs(&json_options()), Some((false, true, true)));
    for format in ["full", "compact", "pretty"] {
        let (_, o) = parse_fmt_request(FmtRequest { format: format.to_string(), ..request() })
            .ok()
            .unwrap();
        assert_eq!(json_knobs(&o), None);
    }
    let (_, o) = parse_fmt_request(FmtRequest { format: "json".to_string(), ..request() })
        .ok()
        .unwrap();
    assert_eq!(json_knobs(&o), Some((true, false, true)));
}
