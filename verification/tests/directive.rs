use std::str::FromStr;

use tracing_subscriber::EnvFilter;
use trapy::directive::directive_is_safe;
use trapy::init::{
    add_env_filter, try_add_env_filter, try_add_env_filter_from_env, SubscriberState,
};

#[test]
fn ascii_directives_are_safe() {
    assert!(directive_is_safe(""));
    assert!(directive_is_safe("info, planning=trace ,  x=warn"));
    assert!(directive_is_safe(" [span{x=1}]=debug,\t="));
}

#[test]
fn unpadded_directives_are_safe() {
    assert!(directive_is_safe("\u{e9}=info"));
    assert!(directive_is_safe("\u{e9}=info, debug"));
    assert!(directive_is_safe("info ,\u{e9}[\u{e9}{\u{e9}=1}]=debug"));
}

#[test]
fn cuts_inside_a_character_are_not_safe() {
    assert!(!directive_is_safe(" \u{e9}=info"));
    assert!(!directive_is_safe("info, x\u{e9}=debug"));
    assert!(!directive_is_safe("\u{2003}x=info"));
    assert!(!directive_is_safe(" [\u{e9}]"));
    assert!(!directive_is_safe(" [s{\u{e9}}]"));
    assert!(!directive_is_safe(" \u{e9}[s]"));
}

#[test]
fn other_padded_pieces_are_safe() {
    assert!(directive_is_safe(" x=\u{e9}"));
    assert!(directive_is_safe(" \u{e9}"));
    assert!(directive_is_safe("\u{2003}info"));
    assert!(directive_is_safe("info,\u{a0}"));
    assert!(directive_is_safe(" x=\u{e9}="));
    assert!(directive_is_safe(" [s{x\u{e9}"));
    assert!(directive_is_safe(" ={\u{e9}}"));
    let mut s: SubscriberState<(), ()> = SubscriberState::new();
    let why = EnvFilter::from_str(" x=\u{e9}").err().unwrap().to_string();
    assert_eq!(
        add_env_filter(&mut s, " x=\u{e9}"),
        Err(format!("invalid env-filter directive \" x=\u{e9}\": {}", why))
    );
    assert_eq!(add_env_filter(&mut s, " \u{e9}"), Ok(()));
    assert_eq!(s.queued(), 1);
}

#[test]
fn a_refused_piece_is_cut_no_more() {
    let refused = [
        // A first character that starts no piece.
        " \u{2014}=x",
        " \u{20ac}[s]",
        // A piece behind one that is refused.
        "=, \u{e9}=x",
        "x=loud, \u{e9}=x",
        // A level behind a field that is no pattern.
        "    [{a=(xxx\u{e9}}]=x",
    ];
    for d in refused {
        assert!(directive_is_safe(d), "{:?}", d);
        let why = EnvFilter::from_str(d).err().unwrap().to_string();
        let mut s: SubscriberState<(), ()> = SubscriberState::new();
        assert_eq!(
            try_add_env_filter(&mut s, d),
            Some(Err(format!("invalid env-filter directive {:?}: {}", d, why)))
        );
        assert_eq!(
            try_add_env_filter_from_env(&mut s, None, Ok(d.to_string())),
            Ok(Err(format!("env-filter from RUST_LOG: {}", why)))
        );
        assert_eq!(s.queued(), 0);
    }
    assert!(!directive_is_safe("x=warn, \u{e9}=x"));
    assert!(!directive_is_safe("    [{a=bxxx\u{e9}}]=x"));
}

#[test]
fn what_cannot_be_read_comes_back() {
    let mut s: SubscriberState<(), ()> = SubscriberState::new();
    let bad = " \u{e9}=info";
    assert_eq!(try_add_env_filter(&mut s, bad), None);
    assert_eq!(
        try_add_env_filter_from_env(&mut s, Some("V"), Ok(bad.to_string())),
        Err(bad.to_string())
    );
    assert_eq!(s.queued(), 0);
    assert_eq!(try_add_env_filter(&mut s, "info"), Some(Ok(())));
    assert_eq!(
        try_add_env_filter_from_env(&mut s, None, Err("unset".to_string())),
        Ok(Err("env-filter from RUST_LOG: unset".to_string()))
    );
    assert_eq!(s.queued(), 1);
}

#[test]
fn padding_counts_by_its_bytes() {
    for c in '\u{0}'..=char::MAX {
        let d = format!("{}\u{e9}=x", c);
        assert_eq!(directive_is_safe(&d), !c.is_whitespace(), "{:?}", c);
    }
}

#[test]
fn safe_directives_do_not_panic() {
    let alphabet = [' ', '\u{2003}', '\u{e9}', 'x', '=', '[', ']', '{', '}'];
    let mut texts = vec![String::new()];
    let mut safe = 0;
    for _ in 0..5 {
        let mut longer = Vec::new();
        for t in &texts {
            for c in alphabet {
                longer.push(format!("{}{}", t, c));
            }
        }
        for t in &longer {
            if directive_is_safe(t) {
                // A panic fails the test.
                let _ = EnvFilter::from_str(t);
                safe += 1;
            }
        }
        texts = longer;
    }
    assert!(safe > 50_000);
}
