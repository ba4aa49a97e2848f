use std::str::FromStr;
use std::sync::atomic::{AtomicUsize, Ordering};
use std::sync::{Arc, OnceLock};

use tracing_core::callsite::{Callsite, Identifier};
use tracing_core::field::{FieldSet, Value};
use tracing_core::{Dispatch, Event, Interest, Metadata};
use tracing_subscriber::layer::{Context, Layer, SubscriberExt};
use tracing_subscriber::registry::Registry;
use tracing_subscriber::EnvFilter;
use trapy::fmt::{FmtFormat, FmtOptions, FmtTarget};
use trapy::init::{
    add_env_filter, add_env_filter_from_env, add_file_router, add_file_router_with, add_fmt_layer,
    add_json_file, add_layer, add_opentelemetry_layer, add_parsed_filter,
    add_parsed_filter_from_env, add_timing_layer, add_tracy_layer,
    env_filter_variable, init_subscriber, init_tracing, install_layers, is_installed,
    may_configure_opentelemetry, opentelemetry_flush, opentelemetry_shutdown, FmtWriter,
    QueuedLayer, SubscriberState,
};
use trapy::router::{default_router_config, router_config};

type State = SubscriberState<&'static str, &'static str>;

const FROZEN: &str = "trapy subscriber already initialised; add layers before init_subscriber()";

fn names(v: &[&str]) -> Vec<String> {
    v.iter().map(|s| s.to_string()).collect()
}

#[test]
fn layers_are_installed_in_order() {
    let mut s = State::new();
    assert!(!is_installed(&s));
    assert_eq!(add_layer(&mut s, "mine"), Ok(()));
    assert_eq!(add_timing_layer(&mut s, 1_000_000_000, 2), Ok(()));
    assert_eq!(add_tracy_layer(&mut s), Ok(()));
    assert_eq!(
        add_fmt_layer(&mut s, FmtTarget::Stdout, None, FmtOptions::default()),
        Ok(())
    );
    assert_eq!(s.queued(), 4);
    let layers = init_subscriber(&mut s).ok().unwrap();
    assert!(is_installed(&s));
    assert_eq!(s.queued(), 0);
    assert_eq!(layers.len(), 4);
    assert!(matches!(layers[0], QueuedLayer::Custom("mine")));
    assert!(matches!(
        layers[1],
        QueuedLayer::Timing { max_value_ns: 1_000_000_000, precision: 2 }
    ));
    assert!(matches!(layers[2], QueuedLayer::Tracy));
    assert!(matches!(
        layers[3],
        QueuedLayer::Fmt { writer: FmtWriter::Stdout, .. }
    ));
}

#[test]
fn installing_is_one_shot() {
    let mut s = State::new();
    assert_eq!(add_layer(&mut s, "mine"), Ok(()));
    assert!(init_subscriber(&mut s).is_ok());
    assert_eq!(
        init_subscriber(&mut s).err().unwrap(),
        "trapy::init_subscriber called twice"
    );
    let frozen = Err(FROZEN.to_string());
    assert_eq!(add_layer(&mut s, "late"), frozen);
    assert_eq!(add_timing_layer(&mut s, 1, 1), frozen);
    assert_eq!(add_tracy_layer(&mut s), frozen);
    assert_eq!(add_file_router(&mut s, Ok("tx")), frozen);
    assert_eq!(add_env_filter(&mut s, "info"), frozen);
    assert_eq!(add_json_file(&mut s, "p".to_string(), Ok("file")), frozen);
    assert_eq!(init_tracing(&mut s, Ok("tx")).err().unwrap(), FROZEN);
    assert_eq!(s.queued(), 0);
}

#[test]
fn installing_nothing_is_refused_and_counts() {
    let mut s = State::new();
    assert_eq!(
        init_subscriber(&mut s).err().unwrap(),
        "no layers configured; call add_file_router/add_fmt_layer/... first"
    );
    assert!(is_installed(&s));
    assert_eq!(add_layer(&mut s, "late"), Err(FROZEN.to_string()));
}

#[test]
fn outcome_of_the_installation() {
    assert_eq!(install_layers(Ok(())), Ok(()));
    assert_eq!(
        install_layers(Err("taken".to_string())),
        Err("set_global_default failed: taken".to_string())
    );
}

#[test]
fn file_router_with_the_stock_policy() {
    let mut s = State::new();
    assert_eq!(
        add_file_router(&mut s, Err("disk full".to_string())),
        Err("file-router writer: disk full".to_string())
    );
    assert_eq!(s.queued(), 0);
    assert_eq!(add_file_router(&mut s, Ok("tx")), Ok(()));
    let layers = init_subscriber(&mut s).ok().unwrap();
    match &layers[0] {
        QueuedLayer::FileRouter { sender, config } => {
            assert_eq!(*sender, "tx");
            assert_eq!(
                format!("{:?}", config),
                "CattyConfig { console_cats: {\"progress\"}, console_only_cats: {\"console\"}, \
                 split_errors: true, split_warnings: false }"
            );
        }
        _ => panic!("not a file router"),
    }
}

#[test]
fn file_router_with_a_policy_of_its_own() {
    let config = router_config(Some(vec![]), Some(names(&["chat", "chat"])), false, true);
    assert_eq!(
        format!("{:?}", config),
        "CattyConfig { console_cats: {}, console_only_cats: {\"chat\"}, \
         split_errors: false, split_warnings: true }"
    );
    let stock = router_config(None, None, true, false);
    assert_eq!(format!("{:?}", stock), format!("{:?}", default_router_config()));
    let many = format!("{:?}", router_config(Some(names(&["a", "b"])), None, true, true));
    assert!(many.contains("\"a\"") && many.contains("\"b\"") && many.contains("\"console\""));
    let mut s = State::new();
    assert_eq!(add_file_router_with(&mut s, Ok("tx"), config), Ok(()));
    assert_eq!(s.queued(), 1);
}

#[test]
fn init_tracing_is_router_and_install() {
    let mut s = State::new();
    assert_eq!(
        init_tracing(&mut s, Err("no".to_string())).err().unwrap(),
        "file-router writer: no"
    );
    assert!(!is_installed(&s));
    assert_eq!(add_layer(&mut s, "before"), Ok(()));
    let layers = init_tracing(&mut s, Ok("tx")).ok().unwrap();
    assert_eq!(layers.len(), 2);
    assert!(matches!(layers[0], QueuedLayer::Custom("before")));
    assert!(matches!(layers[1], QueuedLayer::FileRouter { sender: "tx", .. }));
    assert!(is_installed(&s));
}

#[test]
fn init_tracing_does_what_its_two_parts_do() {
    let mut s = State::new();
    let mut t = State::new();
    assert_eq!(add_layer(&mut s, "before"), Ok(()));
    assert_eq!(add_layer(&mut t, "before"), Ok(()));
    let at_once = init_tracing(&mut s, Ok("tx")).ok().unwrap();
    assert_eq!(add_file_router(&mut t, Ok("tx")), Ok(()));
    let in_turn = init_subscriber(&mut t).ok().unwrap();
    assert_eq!(at_once.len(), in_turn.len());
    for layers in [at_once, in_turn] {
        assert!(matches!(layers[0], QueuedLayer::Custom("before")));
        match &layers[1] {
            QueuedLayer::FileRouter { sender, config } => {
                assert_eq!(*sender, "tx");
                assert_eq!(format!("{:?}", config), format!("{:?}", default_router_config()));
            }
            _ => panic!("not a file router"),
        }
    }
    assert_eq!(is_installed(&s), is_installed(&t));
}

#[test]
fn files_that_cannot_be_opened() {
    let mut s = State::new();
    assert_eq!(
        add_fmt_layer(
            &mut s,
            FmtTarget::File("/no/where".to_string()),
            Some(Err("not found".to_string())),
            FmtOptions::default()
        ),
        Err("open /no/where: not found".to_string())
    );
    assert_eq!(
        add_json_file(&mut s, "/no".to_string(), Err("denied".to_string())),
        Err("open /no: denied".to_string())
    );
    assert_eq!(s.queued(), 0);
}

#[test]
fn json_files() {
    let mut s = State::new();
    assert_eq!(add_json_file(&mut s, "/tmp/e".to_string(), Ok("handle")), Ok(()));
    let layers = init_subscriber(&mut s).ok().unwrap();
    match &layers[0] {
        QueuedLayer::Fmt { writer: FmtWriter::File(h), opts } => {
            assert_eq!(*h, "handle");
            assert_eq!(opts.format, FmtFormat::Json);
            assert!(!opts.with_ansi);
        }
        _ => panic!("not a JSON file"),
    }
}

#[test]
fn the_exporter_is_configured_once() {
    let mut s = State::new();
    assert!(s.provider().is_none());
    assert_eq!(may_configure_opentelemetry(&s), Ok(()));
    assert_eq!(
        add_opentelemetry_layer(&mut s, Err("no endpoint".to_string())),
        Err("otlp span exporter: no endpoint".to_string())
    );
    assert_eq!(add_opentelemetry_layer(&mut s, Ok(("provider", "tracer"))), Ok(()));
    assert_eq!(s.provider(), Some(&"provider"));
    let again = Err("opentelemetry layer already configured".to_string());
    assert_eq!(may_configure_opentelemetry(&s), again);
    assert_eq!(add_opentelemetry_layer(&mut s, Ok(("p2", "t2"))), again);
    assert_eq!(s.provider(), Some(&"provider"));
    assert_eq!(s.queued(), 1);
}

#[test]
fn a_late_exporter_is_kept_but_not_queued() {
    let mut s = State::new();
    assert_eq!(add_layer(&mut s, "mine"), Ok(()));
    assert!(init_subscriber(&mut s).is_ok());
    assert_eq!(
        add_opentelemetry_layer(&mut s, Ok(("provider", "tracer"))),
        Err(FROZEN.to_string())
    );
    assert_eq!(s.provider(), Some(&"provider"));
}

#[test]
fn exporter_outcomes() {
    assert!(opentelemetry_flush(Some(Ok::<(), u8>(()))));
    assert!(!opentelemetry_flush(Some(Err(1u8))));
    assert!(!opentelemetry_flush::<u8>(None));
    assert!(opentelemetry_shutdown(Some(Ok::<(), u8>(()))));
    assert!(!opentelemetry_shutdown(Some(Err(1u8))));
    assert!(!opentelemetry_shutdown::<u8>(None));
}

fn filter_text(s: &mut State) -> String {
    match init_subscriber(s).ok().unwrap().pop() {
        Some(QueuedLayer::Filter(f)) => f.to_string(),
        _ => panic!("not a filter"),
    }
}

#[test]
fn filters_are_parsed() {
    let mut s = State::new();
    assert_eq!(add_env_filter(&mut s, "info,planning=trace"), Ok(()));
    let text = filter_text(&mut s);
    assert_eq!(text, EnvFilter::from_str("info,planning=trace").unwrap().to_string());
    assert!(text.contains("planning=trace"));
}

#[test]
fn invalid_filters_are_reported() {
    let mut s = State::new();
    let bad = "planning=\"loud\"";
    let why = EnvFilter::from_str(bad).err().unwrap().to_string();
    assert_eq!(
        add_env_filter(&mut s, bad),
        Err(format!(
            "invalid env-filter directive \"planning=\\\"loud\\\"\": {}",
            why
        ))
    );
    assert_eq!(
        add_parsed_filter(&mut s, "x", Err("reason".to_string())),
        Err("invalid env-filter directive \"x\": reason".to_string())
    );
    assert_eq!(s.queued(), 0);
}

#[test]
fn filters_from_the_environment() {
    let mut s = State::new();
    assert_eq!(env_filter_variable(None), "RUST_LOG");
    assert_eq!(env_filter_variable(Some("MY_LOG")), "MY_LOG");
    assert_eq!(
        add_env_filter_from_env(
            &mut s,
            None,
            Err("environment variable not found".to_string())
        ),
        Err("env-filter from RUST_LOG: environment variable not found".to_string())
    );
    let why = EnvFilter::from_str("a=b").err().unwrap().to_string();
    assert_eq!(
        add_env_filter_from_env(&mut s, Some("MY_LOG"), Ok("a=b".to_string())),
        Err(format!("env-filter from MY_LOG: {}", why))
    );
    assert_eq!(
        add_parsed_filter_from_env(&mut s, Some("V"), Err("e".to_string())),
        Err("env-filter from V: e".to_string())
    );
    assert_eq!(s.queued(), 0);
    assert_eq!(add_env_filter_from_env(&mut s, None, Ok("debug".to_string())), Ok(()));
    assert_eq!(filter_text(&mut s), "debug");
}

struct Recorder(Arc<AtomicUsize>);

impl Layer<Registry> for Recorder {
    fn on_event(&self, _: &Event<'_>, _: Context<'_, Registry>) {
        self.0.fetch_add(1, Ordering::SeqCst);
    }
}

struct Site(OnceLock<Metadata<'static>>);

impl Callsite for Site {
    fn set_interest(&self, _: Interest) {}

    fn metadata(&self) -> &Metadata<'_> {
        self.0.get().unwrap()
    }
}

fn metadata(level: tracing::Level) -> &'static Metadata<'static> {
    let site: &'static Site = Box::leak(Box::new(Site(OnceLock::new())));
    let fields = FieldSet::new(&["message"], Identifier(site));
    let kind = tracing_core::Kind::EVENT;
    let meta = Metadata::new("e", "planning", level, None, None, None, fields, kind);
    site.0.get_or_init(|| meta)
}

#[test]
fn a_filter_keeps_events_from_the_layers_on_both_sides() {
    let seen = Arc::new(AtomicUsize::new(0));
    let mut s = State::new();
    assert_eq!(add_layer(&mut s, "first"), Ok(()));
    assert_eq!(add_env_filter(&mut s, "planning=info"), Ok(()));
    assert_eq!(add_layer(&mut s, "last"), Ok(()));
    let layers: Vec<Box<dyn Layer<Registry> + Send + Sync>> = init_subscriber(&mut s)
        .ok()
        .unwrap()
        .into_iter()
        .map(|layer| match layer {
            QueuedLayer::Filter(f) => Box::new(f) as Box<dyn Layer<Registry> + Send + Sync>,
            _ => Box::new(Recorder(seen.clone())),
        })
        .collect();
    assert_eq!(layers.len(), 3);
    let dispatch = Dispatch::new(Registry::default().with(layers));
    for (level, wanted) in [(tracing::Level::DEBUG, false), (tracing::Level::INFO, true)] {
        let meta = metadata(level);
        assert_eq!(dispatch.enabled(meta), wanted);
        if dispatch.enabled(meta) {
            let values: [Option<&dyn Value>; 1] = [None];
            let value_set = meta.fields().value_set_all(&values);
            dispatch.event(&Event::new(meta, &value_set));
        }
    }
    assert_eq!(seen.load(Ordering::SeqCst), 2);
}
