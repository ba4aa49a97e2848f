//! Layered subscriber: layers are queued one by one and installed once.
//!
//! The state holds the queue, whether the subscriber was installed, and the
//! exporter that is kept for flushing. What a layer needs from outside (the
//! sender of a writer thread, an open file, a tracer, a layer of the caller's
//! own) is a handle `H`; the exporter is a `P`.

use tracing_catty::CattyConfig;
use tracing_subscriber::EnvFilter;
use vstd::prelude::*;
use vstd::string::StringExecFns;

use crate::directive::{directive_is_safe, env_filter_parse};
use crate::directive::{cuts_between_characters, env_filter_of};
use crate::fmt::{json_options, FmtFormat, FmtModel, FmtOptions, FmtTarget};
use crate::fmt::json_file_options;
use crate::router::default_router_config;
use crate::router::{console_cats, console_only_cats, mirrors_errors, mirrors_warnings};
use crate::router::{default_policy, policy};
use crate::text::{concat2, concat3, debug_quote};
use crate::text::debug_text;

verus! {

/// Where an `fmt` layer writes.
pub enum FmtWriter<H> {
    Stderr,
    Stdout,
    File(H),
}

/// A layer in the queue.
pub enum QueuedLayer<H> {
    /// A layer of the caller's own.
    Custom(H),
    /// The per-category file router behind a writer thread.
    FileRouter { sender: H, config: CattyConfig },
    Fmt { writer: FmtWriter<H>, opts: FmtOptions },
    Filter(EnvFilter),
    /// Inter-event timing histograms.
    Timing { max_value_ns: u64, precision: u8 },
    Tracy,
    OpenTelemetry { tracer: H },
}

pub struct SubscriberState<H, P> {
    layers: Vec<QueuedLayer<H>>,
    init_done: bool,
    provider: Option<P>,
}

/// What a state holds.
#[verifier::ext_equal]
pub struct StateModel<H, P> {
    pub queue: Seq<QueuedLayer<H>>,
    pub installed: bool,
    pub provider: Option<P>,
}

impl<H, P> View for SubscriberState<H, P> {
    type V = StateModel<H, P>;

    closed spec fn view(&self) -> StateModel<H, P> {
        StateModel {
            queue: self.layers@,
            installed: self.init_done,
            provider: self.provider,
        }
    }
}

impl<H, P> SubscriberState<H, P> {
    pub fn new() -> (r: Self)
        ensures
            r@.queue == Seq::<QueuedLayer<H>>::empty(),
            !r@.installed,
            r@.provider is None,
    {
        SubscriberState { layers: Vec::new(), init_done: false, provider: None }
    }

    /// The exporter, once one was configured.
    pub fn provider(&self) -> (r: Option<&P>)
        ensures
            match r {
                Some(p) => self@.provider == Some(*p),
                None => self@.provider is None,
            },
    {
        match &self.provider {
            Some(p) => Some(p),
            None => None,
        }
    }

    /// How many layers are queued.
    pub fn queued(&self) -> (r: usize)
        ensures
            r == self@.queue.len(),
    {
        self.layers.len()
    }
}

// ---------------------------------------------------------------------------
// Queueing
// ---------------------------------------------------------------------------

pub open spec fn frozen_text() -> Seq<char> {
    "trapy subscriber already initialised; add layers before init_subscriber()"@
}

/// A state after a request to queue `layer`: once the subscriber was installed
/// nothing is queued any more.
pub open spec fn with_layer<H, P>(s: StateModel<H, P>, layer: QueuedLayer<H>) -> StateModel<H, P> {
    if s.installed {
        s
    } else {
        StateModel { queue: s.queue.push(layer), ..s }
    }
}

/// What a request to queue a layer answers: it is refused once the subscriber
/// was installed.
pub open spec fn queue_answer(installed: bool, r: Result<(), String>) -> bool {
    if installed {
        r matches Err(e) && e@ == frozen_text()
    } else {
        r is Ok
    }
}

fn enqueue<H, P>(state: &mut SubscriberState<H, P>, layer: QueuedLayer<H>) -> (r: Result<
    (),
    String,
>)
    ensures
        queue_answer(old(state)@.installed, r),
        final(state)@ == with_layer(old(state)@, layer),
{
    if state.init_done {
        return Err(
            "trapy subscriber already initialised; add layers before init_subscriber()".to_owned(),
        );
    }
    state.layers.push(layer);
    Ok(())
}

/// Queues a layer of the caller's own.
pub fn add_layer<H, P>(state: &mut SubscriberState<H, P>, layer: H) -> (r: Result<(), String>)
    ensures
        queue_answer(old(state)@.installed, r),
        final(state)@ == with_layer(old(state)@, QueuedLayer::Custom(layer)),
        r is Ok <==> !old(state)@.installed,
        r is Ok ==> final(state)@.queue == old(state)@.queue.push(QueuedLayer::Custom(layer)),
        r is Err ==> final(state)@ == old(state)@,
{
    enqueue(state, QueuedLayer::Custom(layer))
}

pub open spec fn writer_failed_text(e: Seq<char>) -> Seq<char> {
    "file-router writer: "@ + e
}

/// Queues the file router behind the writer thread that was started for it, or
/// reports that it could not be started.
pub fn add_file_router_with<H, P>(
    state: &mut SubscriberState<H, P>,
    writer: Result<H, String>,
    config: CattyConfig,
) -> (r: Result<(), String>)
    ensures
        match writer {
            Ok(sender) => {
                &&& queue_answer(old(state)@.installed, r)
                &&& final(state)@ == with_layer(
                    old(state)@,
                    QueuedLayer::FileRouter { sender, config },
                )
            },
            Err(e) => {
                &&& r matches Err(text) && text@ == writer_failed_text(e@)
                &&& final(state)@ == old(state)@
            },
        },
{
    match writer {
        Ok(sender) => enqueue(state, QueuedLayer::FileRouter { sender, config }),
        Err(e) => Err(concat2("file-router writer: ", e.as_str())),
    }
}

/// Queues the file router with the stock policy.
pub fn add_file_router<H, P>(
    state: &mut SubscriberState<H, P>,
    writer: Result<H, String>,
) -> (r: Result<(), String>)
    ensures
        match writer {
            Ok(sender) => {
                &&& queue_answer(old(state)@.installed, r)
                &&& queues_stock_router(old(state)@, final(state)@, sender)
            },
            Err(e) => {
                &&& r matches Err(text) && text@ == writer_failed_text(e@)
                &&& final(state)@ == old(state)@
            },
        },
{
    let config: CattyConfig = default_router_config();
    let r: Result<(), String> = add_file_router_with(state, writer, config);
    assert(old(state)@.queue.push(state@.queue.last()).drop_last() =~= old(state)@.queue);
    r
}

/// Whether `after` is `before` with a request to queue the file router behind
/// `sender` with the stock policy.
pub open spec fn queues_stock_router<H, P>(
    before: StateModel<H, P>,
    after: StateModel<H, P>,
    sender: H,
) -> bool {
    if before.installed {
        after == before
    } else {
        &&& after.queue.len() == before.queue.len() + 1
        &&& after.queue.drop_last() == before.queue
        &&& after.queue.last() matches QueuedLayer::FileRouter { sender: s, config }
        &&& s == sender
        &&& policy(config) == default_policy()
        &&& after.installed == before.installed
        &&& after.provider == before.provider
    }
}

pub open spec fn open_failed_text(path: Seq<char>, e: Seq<char>) -> Seq<char> {
    "open "@ + path + ": "@ + e
}

/// Queues an `fmt` layer. Where it writes to a file, `file` is that file opened,
/// or what went wrong when it was; a file that cannot be opened is reported
/// before anything else.
pub fn add_fmt_layer<H, P>(
    state: &mut SubscriberState<H, P>,
    target: FmtTarget,
    file: Option<Result<H, String>>,
    opts: FmtOptions,
) -> (r: Result<(), String>)
    requires
        target is File <==> file is Some,
    ensures
        match (target, file) {
            (FmtTarget::File(path), Some(Err(e))) => {
                &&& r matches Err(text) && text@ == open_failed_text(path@, e@)
                &&& final(state)@ == old(state)@
            },
            _ => {
                &&& queue_answer(old(state)@.installed, r)
                &&& final(state)@ == with_layer(
                    old(state)@,
                    QueuedLayer::Fmt { writer: writer_of(target, file), opts },
                )
            },
        },
        r is Ok ==> {
            &&& final(state)@.queue.len() == old(state)@.queue.len() + 1
            &&& final(state)@.queue.last() matches QueuedLayer::Fmt { writer, opts: o }
            &&& o == opts
            &&& target is Stderr <==> writer is Stderr
            &&& target is Stdout <==> writer is Stdout
            &&& target is File <==> writer is File
            &&& file matches Some(Ok(h)) ==> writer == FmtWriter::File(h)
        },
{
    let writer: FmtWriter<H> = match target {
        FmtTarget::Stderr => FmtWriter::Stderr,
        FmtTarget::Stdout => FmtWriter::Stdout,
        FmtTarget::File(path) => match file {
            Some(Ok(h)) => FmtWriter::File(h),
            Some(Err(e)) => {
                return Err(open_failed(path.as_str(), e.as_str()));
            },
            None => FmtWriter::Stderr,
        },
    };
    enqueue(state, QueuedLayer::Fmt { writer, opts })
}

/// What an `fmt` layer with a target, opened, writes to.
pub open spec fn writer_of<H>(target: FmtTarget, file: Option<Result<H, String>>) -> FmtWriter<H> {
    match (target, file) {
        (FmtTarget::File(_), Some(Ok(h))) => FmtWriter::File(h),
        (FmtTarget::Stdout, _) => FmtWriter::Stdout,
        _ => FmtWriter::Stderr,
    }
}

fn open_failed(path: &str, e: &str) -> (r: String)
    ensures
        r@ == open_failed_text(path@, e@),
{
    let mut out: String = concat3("open ", path, ": ");
    out.append(e);
    out
}

/// Queues a JSON-per-line layer that writes to the file at `path`, opened as
/// `file`.
pub fn add_json_file<H, P>(
    state: &mut SubscriberState<H, P>,
    path: String,
    file: Result<H, String>,
) -> (r: Result<(), String>)
    ensures
        match file {
            Ok(h) => {
                &&& queue_answer(old(state)@.installed, r)
                &&& queues_fmt(old(state)@, final(state)@, FmtWriter::File(h), json_file_options())
            },
            Err(e) => {
                &&& r matches Err(text) && text@ == open_failed_text(path@, e@)
                &&& final(state)@ == old(state)@
            },
        },
{
    let opts: FmtOptions = json_options();
    let r: Result<(), String> = add_fmt_layer(state, FmtTarget::File(path), Some(file), opts);
    assert(old(state)@.queue.push(state@.queue.last()).drop_last() =~= old(state)@.queue);
    r
}

/// Whether `after` is `before` with a request to queue an `fmt` layer that writes
/// to `writer` with options that say `model`.
pub open spec fn queues_fmt<H, P>(
    before: StateModel<H, P>,
    after: StateModel<H, P>,
    writer: FmtWriter<H>,
    model: FmtModel,
) -> bool {
    if before.installed {
        after == before
    } else {
        &&& after.queue.len() == before.queue.len() + 1
        &&& after.queue.drop_last() == before.queue
        &&& after.queue.last() matches QueuedLayer::Fmt { writer: w, opts }
        &&& w == writer
        &&& opts@ == model
        &&& after.installed == before.installed
        &&& after.provider == before.provider
    }
}

/// Queues a layer that keeps timing histograms with values up to `max_value_ns`
/// and `precision` significant digits.
pub fn add_timing_layer<H, P>(
    state: &mut SubscriberState<H, P>,
    max_value_ns: u64,
    precision: u8,
) -> (r: Result<(), String>)
    ensures
        queue_answer(old(state)@.installed, r),
        final(state)@ == with_layer(
            old(state)@,
            QueuedLayer::Timing { max_value_ns, precision },
        ),
{
    enqueue(state, QueuedLayer::Timing { max_value_ns, precision })
}

/// Queues a layer that streams to a Tracy profiler.
pub fn add_tracy_layer<H, P>(state: &mut SubscriberState<H, P>) -> (r: Result<(), String>)
    ensures
        queue_answer(old(state)@.installed, r),
        final(state)@ == with_layer(old(state)@, QueuedLayer::Tracy),
{
    enqueue(state, QueuedLayer::Tracy)
}

// ---------------------------------------------------------------------------
// Exporter
// ---------------------------------------------------------------------------

pub open spec fn already_configured_text() -> Seq<char> {
    "opentelemetry layer already configured"@
}

/// Whether an exporter may still be built: it is configured once.
pub fn may_configure_opentelemetry<H, P>(state: &SubscriberState<H, P>) -> (r: Result<(), String>)
    ensures
        match state@.provider {
            Some(_) => r matches Err(e) && e@ == already_configured_text(),
            None => r is Ok,
        },
{
    match &state.provider {
        Some(_) => Err("opentelemetry layer already configured".to_owned()),
        None => Ok(()),
    }
}

pub open spec fn exporter_failed_text(e: Seq<char>) -> Seq<char> {
    "otlp span exporter: "@ + e
}

/// Queues the layer that exports spans over OTLP, from the exporter that was
/// built with its tracer, or from what went wrong. The exporter is kept even where
/// the layer comes too late to be queued.
pub fn add_opentelemetry_layer<H, P>(
    state: &mut SubscriberState<H, P>,
    built: Result<(P, H), String>,
) -> (r: Result<(), String>)
    ensures
        match built {
            Err(e) => if old(state)@.provider is Some {
                &&& r matches Err(text) && text@ == already_configured_text()
                &&& final(state)@ == old(state)@
            } else {
                &&& r matches Err(text) && text@ == exporter_failed_text(e@)
                &&& final(state)@ == old(state)@
            },
            Ok(x) => if old(state)@.provider is Some {
                &&& r matches Err(text) && text@ == already_configured_text()
                &&& final(state)@ == old(state)@
            } else {
                &&& queue_answer(old(state)@.installed, r)
                &&& final(state)@ == with_layer(
                    (StateModel { provider: Some(x.0), ..old(state)@ }),
                    QueuedLayer::OpenTelemetry { tracer: x.1 },
                )
            },
        },
{
    match may_configure_opentelemetry(state) {
        Ok(_) => {},
        Err(e) => {
            return Err(e);
        },
    }
    match built {
        Ok((provider, tracer)) => {
            state.provider = Some(provider);
            enqueue(state, QueuedLayer::OpenTelemetry { tracer })
        },
        Err(e) => Err(concat2("otlp span exporter: ", e.as_str())),
    }
}

/// Whether a flush succeeded: `outcome` is what the exporter said, and absent
/// where there is no exporter.
pub fn opentelemetry_flush<E>(outcome: Option<Result<(), E>>) -> (r: bool)
    ensures
        r <==> outcome matches Some(Ok(_)),
{
    match outcome {
        Some(Ok(_)) => true,
        Some(Err(_)) => false,
        None => false,
    }
}

/// Whether a shutdown succeeded: `outcome` is what the exporter said, and absent
/// where there is no exporter.
pub fn opentelemetry_shutdown<E>(outcome: Option<Result<(), E>>) -> (r: bool)
    ensures
        r <==> outcome matches Some(Ok(_)),
{
    match outcome {
        Some(Ok(_)) => true,
        Some(Err(_)) => false,
        None => false,
    }
}

// ---------------------------------------------------------------------------
// Filters
// ---------------------------------------------------------------------------

pub open spec fn bad_directive_text(quoted: Seq<char>, e: Seq<char>) -> Seq<char> {
    "invalid env-filter directive "@ + quoted + ": "@ + e
}

fn bad_directive(quoted: &str, e: &str) -> (r: String)
    ensures
        r@ == bad_directive_text(quoted@, e@),
{
    let mut out: String = concat3("invalid env-filter directive ", quoted, ": ");
    out.append(e);
    out
}

/// Queues a filter that was read from `directive`, or reports why it could not
/// be.
pub fn add_parsed_filter<H, P>(
    state: &mut SubscriberState<H, P>,
    directive: &str,
    parsed: Result<EnvFilter, String>,
) -> (r: Result<(), String>)
    ensures
        match parsed {
            Ok(f) => {
                &&& queue_answer(old(state)@.installed, r)
                &&& final(state)@ == with_layer(old(state)@, QueuedLayer::Filter(f))
            },
            Err(e) => {
                &&& r matches Err(text) && text@ == bad_directive_text(
                    debug_text(directive@),
                    e@,
                )
                &&& final(state)@ == old(state)@
            },
        },
{
    match parsed {
        Ok(f) => enqueue(state, QueuedLayer::Filter(f)),
        Err(e) => {
            let quoted: String = debug_quote(directive);
            Err(bad_directive(quoted.as_str(), e.as_str()))
        },
    }
}

/// Queues a filter with the `RUST_LOG` syntax, for example
/// `info,planning=trace`. Events that it rejects never reach the other layers.
pub fn add_env_filter<H, P>(state: &mut SubscriberState<H, P>, directive: &str) -> (r: Result<
    (),
    String,
>)
    requires
        cuts_between_characters(directive@),
    ensures
        match env_filter_of(directive@) {
            Ok(f) => {
                &&& queue_answer(old(state)@.installed, r)
                &&& final(state)@ == with_layer(old(state)@, QueuedLayer::Filter(f))
            },
            Err(e) => {
                &&& r matches Err(text) && text@ == bad_directive_text(debug_text(directive@), e)
                &&& final(state)@ == old(state)@
            },
        },
{
    let parsed: Result<EnvFilter, String> = env_filter_parse(directive);
    add_parsed_filter(state, directive, parsed)
}

/// Queues a filter like [`add_env_filter`], where the directive can be read at all;
/// where it cannot, nothing happens and there is no answer.
pub fn try_add_env_filter<H, P>(state: &mut SubscriberState<H, P>, directive: &str) -> (r: Option<
    Result<(), String>,
>)
    ensures
        r is Some <==> cuts_between_characters(directive@),
        match r {
            Some(answer) => match env_filter_of(directive@) {
                Ok(f) => {
                    &&& queue_answer(old(state)@.installed, answer)
                    &&& final(state)@ == with_layer(old(state)@, QueuedLayer::Filter(f))
                },
                Err(e) => {
                    &&& answer matches Err(text) && text@ == bad_directive_text(
                        debug_text(directive@),
                        e,
                    )
                    &&& final(state)@ == old(state)@
                },
            },
            None => final(state)@ == old(state)@,
        },
{
    if directive_is_safe(directive) {
        Some(add_env_filter(state, directive))
    } else {
        None
    }
}

/// The environment variable that a filter is read from.
pub open spec fn variable_or_default(var: Option<&str>) -> Seq<char> {
    match var {
        Some(v) => v@,
        None => "RUST_LOG"@,
    }
}

/// The name of the environment variable that a filter is read from: `RUST_LOG`
/// unless another is given.
pub fn env_filter_variable<'a>(var: Option<&'a str>) -> (r: &'a str)
    ensures
        r@ == variable_or_default(var),
{
    match var {
        Some(v) => v,
        None => "RUST_LOG",
    }
}

pub open spec fn bad_variable_text(var: Seq<char>, e: Seq<char>) -> Seq<char> {
    "env-filter from "@ + var + ": "@ + e
}

fn bad_variable(var: &str, e: &str) -> (r: String)
    ensures
        r@ == bad_variable_text(var@, e@),
{
    let mut out: String = concat3("env-filter from ", var, ": ");
    out.append(e);
    out
}

/// Queues a filter that was read from the environment, or reports why it could
/// not be.
pub fn add_parsed_filter_from_env<H, P>(
    state: &mut SubscriberState<H, P>,
    var: Option<&str>,
    parsed: Result<EnvFilter, String>,
) -> (r: Result<(), String>)
    ensures
        match parsed {
            Ok(f) => {
                &&& queue_answer(old(state)@.installed, r)
                &&& final(state)@ == with_layer(old(state)@, QueuedLayer::Filter(f))
            },
            Err(e) => {
                &&& r matches Err(text) && text@ == bad_variable_text(variable_or_default(var), e@)
                &&& final(state)@ == old(state)@
            },
        },
{
    match parsed {
        Ok(f) => enqueue(state, QueuedLayer::Filter(f)),
        Err(e) => Err(bad_variable(env_filter_variable(var), e.as_str())),
    }
}

/// Queues a filter read from the environment variable `var`, whose contents are
/// `contents`, or why they could not be read. A variable that is unset is an
/// error, as is one that holds no valid directive, so that a typo fails loudly
/// rather than recording everything.
pub fn add_env_filter_from_env<H, P>(
    state: &mut SubscriberState<H, P>,
    var: Option<&str>,
    contents: Result<String, String>,
) -> (r: Result<(), String>)
    requires
        contents matches Ok(d) ==> cuts_between_characters(d@),
    ensures
        match contents {
            Ok(d) => match env_filter_of(d@) {
                Ok(f) => {
                    &&& queue_answer(old(state)@.installed, r)
                    &&& final(state)@ == with_layer(old(state)@, QueuedLayer::Filter(f))
                },
                Err(e) => {
                    &&& r matches Err(text) && text@ == bad_variable_text(
                        variable_or_default(var),
                        e,
                    )
                    &&& final(state)@ == old(state)@
                },
            },
            Err(e) => {
                &&& r matches Err(text) && text@ == bad_variable_text(variable_or_default(var), e@)
                &&& final(state)@ == old(state)@
            },
        },
{
    let parsed: Result<EnvFilter, String> = match contents {
        Ok(d) => env_filter_parse(d.as_str()),
        Err(e) => Err(e),
    };
    add_parsed_filter_from_env(state, var, parsed)
}

/// Queues a filter like [`add_env_filter_from_env`], where the contents of the
/// variable can be read at all; where they cannot, nothing happens and they come
/// back.
pub fn try_add_env_filter_from_env<H, P>(
    state: &mut SubscriberState<H, P>,
    var: Option<&str>,
    contents: Result<String, String>,
) -> (r: Result<Result<(), String>, String>)
    ensures
        match (contents, r) {
            (Ok(d), Ok(answer)) => {
                &&& cuts_between_characters(d@)
                &&& match env_filter_of(d@) {
                    Ok(f) => {
                        &&& queue_answer(old(state)@.installed, answer)
                        &&& final(state)@ == with_layer(old(state)@, QueuedLayer::Filter(f))
                    },
                    Err(e) => {
                        &&& answer matches Err(text) && text@ == bad_variable_text(
                            variable_or_default(var),
                            e,
                        )
                        &&& final(state)@ == old(state)@
                    },
                }
            },
            (Ok(d), Err(back)) => {
                &&& !cuts_between_characters(d@)
                &&& back@ == d@
                &&& final(state)@ == old(state)@
            },
            (Err(e), Ok(answer)) => {
                &&& answer matches Err(text) && text@ == bad_variable_text(
                    variable_or_default(var),
                    e@,
                )
                &&& final(state)@ == old(state)@
            },
            (Err(_), Err(_)) => false,
        },
{
    match contents {
        Ok(d) => if directive_is_safe(d.as_str()) {
            Ok(add_env_filter_from_env(state, var, Ok(d)))
        } else {
            Err(d)
        },
        Err(e) => Ok(add_env_filter_from_env(state, var, Err(e))),
    }
}

// ---------------------------------------------------------------------------
// Installing
// ---------------------------------------------------------------------------

/// What a request to install hands out, or why it is refused: it is granted
/// once, and only where a layer was queued.
pub open spec fn install_answer<H, P>(
    s: StateModel<H, P>,
    r: Result<Vec<QueuedLayer<H>>, String>,
) -> bool {
    if s.installed {
        r matches Err(e) && e@ == "trapy::init_subscriber called twice"@
    } else if s.queue.len() == 0 {
        r matches Err(e) && e@
            == "no layers configured; call add_file_router/add_fmt_layer/... first"@
    } else {
        r matches Ok(layers) && layers@ == s.queue
    }
}

/// A state after a request to install: the queue is drained and frozen.
pub open spec fn after_install<H, P>(s: StateModel<H, P>) -> StateModel<H, P> {
    if s.installed {
        s
    } else {
        StateModel { queue: Seq::empty(), installed: true, ..s }
    }
}

/// Hands out the queued layers, in order, for installation, and freezes the
/// queue. One-shot: the attempt counts even where no layer was queued.
pub fn init_subscriber<H, P>(state: &mut SubscriberState<H, P>) -> (r: Result<
    Vec<QueuedLayer<H>>,
    String,
>)
    ensures
        install_answer(old(state)@, r),
        final(state)@ == after_install(old(state)@),
        r is Ok <==> !old(state)@.installed && old(state)@.queue.len() > 0,
        r matches Ok(layers) ==> layers@ == old(state)@.queue,
        final(state)@.installed,
        final(state)@.provider == old(state)@.provider,
{
    if state.init_done {
        return Err("trapy::init_subscriber called twice".to_owned());
    }
    state.init_done = true;
    if state.layers.len() == 0 {
        assert(state@.queue =~= Seq::empty());
        return Err(
            "no layers configured; call add_file_router/add_fmt_layer/... first".to_owned(),
        );
    }
    let mut drained: Vec<QueuedLayer<H>> = Vec::new();
    std::mem::swap(&mut drained, &mut state.layers);
    assert(state@.queue =~= Seq::empty());
    Ok(drained)
}

/// What the installation of the layers came to.
pub fn install_layers(outcome: Result<(), String>) -> (r: Result<(), String>)
    ensures
        match outcome {
            Ok(_) => r is Ok,
            Err(e) => r matches Err(text) && text@ == "set_global_default failed: "@ + e@,
        },
{
    match outcome {
        Ok(_) => Ok(()),
        Err(e) => Err(concat2("set_global_default failed: ", e.as_str())),
    }
}

/// Queues the file router with the stock policy and hands the layers out for
/// installation, all in one.
pub fn init_tracing<H, P>(state: &mut SubscriberState<H, P>, writer: Result<H, String>) -> (r:
    Result<Vec<QueuedLayer<H>>, String>)
    ensures
        match writer {
            Ok(sender) => if old(state)@.installed {
                &&& r matches Err(e) && e@ == frozen_text()
                &&& final(state)@ == old(state)@
            } else {
                &&& r matches Ok(layers) && queues_stock_router(
                    old(state)@,
                    (StateModel { queue: layers@, ..old(state)@ }),
                    sender,
                )
                &&& final(state)@ == after_install(old(state)@)
            },
            Err(e) => {
                &&& r matches Err(text) && text@ == writer_failed_text(e@)
                &&& final(state)@ == old(state)@
            },
        },
{
    match add_file_router(state, writer) {
        Ok(_) => init_subscriber(state),
        Err(e) => Err(e),
    }
}

/// Whether [`init_subscriber`] was called, with whatever layers were queued by
/// then.
pub fn is_installed<H, P>(state: &SubscriberState<H, P>) -> (r: bool)
    ensures
        r == state@.installed,
{
    state.init_done
}

// ---------------------------------------------------------------------------
// Laws
// ---------------------------------------------------------------------------

/// Installing is one-shot: after it every request to queue a layer is refused
/// and every further request to install is refused, and neither changes anything.
pub proof fn law_install_is_one_shot<H, P>(s: StateModel<H, P>, layer: QueuedLayer<H>)
    ensures
        after_install(s).installed,
        with_layer(after_install(s), layer) == after_install(s),
        after_install(after_install(s)) == after_install(s),
        forall|r: Result<(), String>|
            #[trigger] queue_answer(after_install(s).installed, r) ==> r is Err,
        forall|r: Result<Vec<QueuedLayer<H>>, String>|
            #[trigger] install_answer(after_install(s), r) ==> r is Err,
{
}

/// What [`init_tracing`] does is what [`add_file_router`] and then
/// [`init_subscriber`] do: the layers that come out are those that were queued with
/// the file router behind them, and the state is drained and frozen.
pub proof fn law_init_tracing_is_router_then_install<H, P>(
    before: StateModel<H, P>,
    routed: StateModel<H, P>,
    sender: H,
    r: Result<Vec<QueuedLayer<H>>, String>,
)
    requires
        !before.installed,
        queues_stock_router(before, routed, sender),
        install_answer(routed, r),
    ensures
        r matches Ok(layers) && queues_stock_router(
            before,
            (StateModel { queue: layers@, ..before }),
            sender,
        ),
        after_install(routed) == after_install(before),
{
}

/// The queue of a run of requests on a state that was not installed: the layers
/// in the order of the requests.
pub open spec fn with_layers<H, P>(
    s: StateModel<H, P>,
    layers: Seq<QueuedLayer<H>>,
) -> StateModel<H, P>
    decreases layers.len(),
{
    if layers.len() == 0 {
        s
    } else {
        with_layer(with_layers(s, layers.drop_last()), layers.last())
    }
}

/// Layers are installed in the order in which they were queued, and none is lost
/// or added.
pub proof fn law_layers_keep_their_order<H, P>(
    s: StateModel<H, P>,
    layers: Seq<QueuedLayer<H>>,
    r: Result<Vec<QueuedLayer<H>>, String>,
)
    requires
        !s.installed,
        s.queue.len() == 0,
        layers.len() > 0,
        install_answer(with_layers(s, layers), r),
    ensures
        r matches Ok(installed) && installed@ == layers,
{
    lemma_with_layers(s, layers);
    assert(s.queue + layers =~= layers);
}

proof fn lemma_with_layers<H, P>(s: StateModel<H, P>, layers: Seq<QueuedLayer<H>>)
    requires
        !s.installed,
    ensures
        !with_layers(s, layers).installed,
        with_layers(s, layers).queue == s.queue + layers,
    decreases layers.len(),
{
    if layers.len() == 0 {
        assert(s.queue + layers =~= s.queue);
    } else {
        lemma_with_layers(s, layers.drop_last());
        assert(s.queue + layers =~= (s.queue + layers.drop_last()).push(layers.last()));
    }
}

/// An `fmt` layer writes where its target says: to stderr, to stdout or to the file
/// that was opened for it, so that two different targets never share a writer.
pub proof fn law_target_decides_the_writer<H>(path: String, h: H, file: Option<Result<H, String>>)
    ensures
        writer_of(FmtTarget::Stderr, file) == FmtWriter::<H>::Stderr,
        writer_of(FmtTarget::Stdout, file) == FmtWriter::<H>::Stdout,
        writer_of(FmtTarget::File(path), Some(Ok(h))) == FmtWriter::File(h),
{
}

/// A layer is queued behind those that are there as long as nothing was installed,
/// and not at all afterwards; nothing else changes.
pub proof fn law_a_layer_is_queued_last<H, P>(s: StateModel<H, P>, layer: QueuedLayer<H>)
    ensures
        !s.installed ==> with_layer(s, layer).queue == s.queue.push(layer),
        s.installed ==> with_layer(s, layer).queue == s.queue,
        with_layer(s, layer).installed == s.installed,
        with_layer(s, layer).provider == s.provider,
{
}

/// A request to queue succeeds exactly while nothing was installed, and is refused
/// with one text afterwards.
pub proof fn law_queueing_is_refused_once_installed(r: Result<(), String>)
    ensures
        queue_answer(false, r) <==> r is Ok,
        queue_answer(true, r) <==> (r matches Err(e) && e@
            == "trapy subscriber already initialised; add layers before init_subscriber()"@),
{
}

/// A request to install hands out the whole queue, exactly where it is the first
/// and something is queued; each refusal has its own text. Either way the queue is
/// empty and frozen afterwards, and the exporter is kept.
pub proof fn law_installing_drains_the_queue<H, P>(
    s: StateModel<H, P>,
    r: Result<Vec<QueuedLayer<H>>, String>,
)
    requires
        install_answer(s, r),
    ensures
        r is Ok <==> !s.installed && s.queue.len() > 0,
        r matches Ok(layers) ==> layers@ == s.queue,
        s.installed ==> (r matches Err(e) && e@ == "trapy::init_subscriber called twice"@),
        !s.installed && s.queue.len() == 0 ==> (r matches Err(e) && e@
            == "no layers configured; call add_file_router/add_fmt_layer/... first"@),
        after_install(s).installed,
        !s.installed ==> after_install(s).queue.len() == 0,
        s.installed ==> after_install(s) == s,
        after_install(s).provider == s.provider,
{
}

/// To queue the stock file router is to queue one layer, the router behind the given
/// sender, with `progress` mirrored, `console` off disk and errors split off.
pub proof fn law_stock_router_is_queued_last<H, P>(
    before: StateModel<H, P>,
    after: StateModel<H, P>,
    sender: H,
)
    requires
        queues_stock_router(before, after, sender),
    ensures
        before.installed ==> after == before,
        !before.installed ==> {
            &&& after.queue.len() == before.queue.len() + 1
            &&& forall|i: int|
                0 <= i < before.queue.len() ==> (#[trigger] after.queue[i]) == before.queue[i]
            &&& after.queue.last() matches QueuedLayer::FileRouter { sender: s, config }
            &&& s == sender
            &&& console_cats(config) == set!["progress"@]
            &&& console_only_cats(config) == set!["console"@]
            &&& mirrors_errors(config)
            &&& !mirrors_warnings(config)
            &&& !after.installed
            &&& after.provider == before.provider
        },
{
    if !before.installed {
        let config = match after.queue.last() {
            QueuedLayer::FileRouter { config, .. } => config,
            _ => arbitrary(),
        };
        assert(policy(config).console_cats == set!["progress"@]);
        assert forall|i: int| 0 <= i < before.queue.len() implies (#[trigger] after.queue[i])
            == before.queue[i] by {
            assert(after.queue.drop_last()[i] == after.queue[i]);
        }
    }
}

/// To queue a JSON file is to queue one `fmt` layer that writes to the opened file
/// as JSON and without colours.
pub proof fn law_json_file_is_queued_last<H, P>(
    before: StateModel<H, P>,
    after: StateModel<H, P>,
    h: H,
)
    requires
        queues_fmt(before, after, FmtWriter::File(h), json_file_options()),
    ensures
        before.installed ==> after == before,
        !before.installed ==> {
            &&& after.queue.len() == before.queue.len() + 1
            &&& forall|i: int|
                0 <= i < before.queue.len() ==> (#[trigger] after.queue[i]) == before.queue[i]
            &&& after.queue.last() matches QueuedLayer::Fmt { writer, opts }
            &&& writer == FmtWriter::File(h)
            &&& opts.format == FmtFormat::Json
            &&& !opts.with_ansi
            &&& opts.with_target && opts.with_level
            &&& !after.installed
            &&& after.provider == before.provider
        },
{
    if !before.installed {
        assert forall|i: int| 0 <= i < before.queue.len() implies (#[trigger] after.queue[i])
            == before.queue[i] by {
            assert(after.queue.drop_last()[i] == after.queue[i]);
        }
    }
}

/// Each failure is told with the words of its own request around what went wrong.
pub proof fn law_failures_are_told_apart(
    e: Seq<char>,
    path: Seq<char>,
    quoted: Seq<char>,
    var: Seq<char>,
)
    ensures
        writer_failed_text(e) == "file-router writer: "@ + e,
        open_failed_text(path, e) == "open "@ + path + ": "@ + e,
        exporter_failed_text(e) == "otlp span exporter: "@ + e,
        already_configured_text() == "opentelemetry layer already configured"@,
        bad_directive_text(quoted, e) == "invalid env-filter directive "@ + quoted + ": "@ + e,
        bad_variable_text(var, e) == "env-filter from "@ + var + ": "@ + e,
        frozen_text()
            == "trapy subscriber already initialised; add layers before init_subscriber()"@,
{
}

/// A filter is read from the variable that is named, and from `RUST_LOG` where none
/// is.
pub proof fn law_variable_is_the_one_named(var: &str)
    ensures
        variable_or_default(Some(var)) == var@,
        variable_or_default(None) == "RUST_LOG"@,
{
}

}
