use trapy::level::{
    current_level, current_level_byte, level_byte, level_from_byte, level_name, parse_level,
    set_level, set_level_byte, unknown_level, Level, LevelFilter, LEVEL_DEBUG, LEVEL_ERROR,
    LEVEL_INFO, LEVEL_OFF, LEVEL_TRACE, LEVEL_WARN,
};

const LEVELS: [Level; 5] = [
    Level::Error,
    Level::Warn,
    Level::Info,
    Level::Debug,
    Level::Trace,
];

#[test]
fn level_bytes_are_ordered_by_verbosity() {
    assert_eq!(level_byte(&Level::Error), 1);
    assert_eq!(level_byte(&Level::Warn), 2);
    assert_eq!(level_byte(&Level::Info), 3);
    assert_eq!(level_byte(&Level::Debug), 4);
    assert_eq!(level_byte(&Level::Trace), 5);
}

#[test]
fn level_survives_as_a_byte() {
    for l in LEVELS {
        assert_eq!(level_from_byte(level_byte(&l)), Some(l));
    }
    assert_eq!(level_from_byte(LEVEL_OFF), None);
    assert_eq!(level_from_byte(6), Some(Level::Trace));
    assert_eq!(level_from_byte(255), Some(Level::Trace));
}

#[test]
fn level_words() {
    assert_eq!(parse_level("off"), Some(LEVEL_OFF));
    assert_eq!(parse_level("none"), Some(LEVEL_OFF));
    assert_eq!(parse_level("error"), Some(LEVEL_ERROR));
    assert_eq!(parse_level("err"), Some(LEVEL_ERROR));
    assert_eq!(parse_level("warn"), Some(LEVEL_WARN));
    assert_eq!(parse_level("warning"), Some(LEVEL_WARN));
    assert_eq!(parse_level("info"), Some(LEVEL_INFO));
    assert_eq!(parse_level("debug"), Some(LEVEL_DEBUG));
    assert_eq!(parse_level("trace"), Some(LEVEL_TRACE));
    assert_eq!(parse_level(""), None);
    assert_eq!(parse_level("inf"), None);
    assert_eq!(parse_level("info!"), None);
    assert_eq!(parse_level("in fo"), None);
}

#[test]
fn level_words_ignore_case_and_padding() {
    assert_eq!(parse_level("  WaRnInG\t\n"), Some(LEVEL_WARN));
    assert_eq!(parse_level("\u{3000}TRACE\u{a0}"), Some(LEVEL_TRACE));
    // Only ASCII letters are folded.
    assert_eq!(parse_level("\u{130}nfo"), None);
}

#[test]
fn padding_is_what_unicode_calls_white_space() {
    for c in '\u{0}'..=char::MAX {
        let padded = format!("{}info{}", c, c);
        let expected = if c.is_whitespace() { Some(LEVEL_INFO) } else { None };
        assert_eq!(parse_level(&padded), expected, "{:?}", c);
    }
}

#[test]
fn only_ascii_capitals_are_lowered() {
    for c in '\u{0}'..=char::MAX {
        let word = format!("i{}fo", c);
        let expected = if c == 'n' || c == 'N' { Some(LEVEL_INFO) } else { None };
        assert_eq!(parse_level(&word), expected, "{:?}", c);
    }
}

#[test]
fn level_names_parse_back() {
    for b in LEVEL_OFF..=LEVEL_TRACE {
        assert_eq!(parse_level(level_name(b)), Some(b));
    }
    assert_eq!(level_name(0), "off");
    assert_eq!(level_name(5), "trace");
    assert_eq!(level_name(77), "trace");
}

#[test]
fn set_and_read_back() {
    let mut f = LevelFilter::new();
    assert_eq!(current_level(&f), "trace");
    assert_eq!(set_level(&mut f, " ERR "), Ok(()));
    assert_eq!(current_level(&f), "error");
    assert_eq!(current_level_byte(&f), LEVEL_ERROR);
    set_level_byte(&mut f, 9);
    assert_eq!(current_level_byte(&f), 9);
    assert_eq!(current_level(&f), "trace");
}

#[test]
fn unknown_level_keeps_the_filter() {
    let mut f = LevelFilter::new();
    assert_eq!(set_level(&mut f, "debug"), Ok(()));
    assert_eq!(
        set_level(&mut f, "lo\"ud\n"),
        Err(
            "unknown level \"lo\\\"ud\\n\"; expected one of off/error/warn/info/debug/trace"
                .to_string()
        )
    );
    assert_eq!(current_level(&f), "debug");
    assert_eq!(
        unknown_level("<q>"),
        "unknown level <q>; expected one of off/error/warn/info/debug/trace"
    );
}

#[test]
fn filter_admits_what_is_less_verbose() {
    let mut f = LevelFilter::new();
    for l in LEVELS {
        assert!(f.admits(&l));
    }
    set_level_byte(&mut f, LEVEL_WARN);
    assert!(f.admits(&Level::Error));
    assert!(f.admits(&Level::Warn));
    assert!(!f.admits(&Level::Info));
    set_level_byte(&mut f, LEVEL_OFF);
    for l in LEVELS {
        assert!(!f.admits(&l));
    }
}
