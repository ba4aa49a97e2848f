//! Options of the `fmt` layer, and how they are read from text.

use tracing_subscriber::fmt::format::FmtSpan;
use vstd::prelude::*;

use crate::text::{concat2, concat3, debug_quote, str_eq};
use crate::text::{debug_text, lowered};

verus! {

// ---------------------------------------------------------------------------
// Span events
// ---------------------------------------------------------------------------

#[verifier::external_type_specification]
#[verifier::external_body]
pub struct ExFmtSpan(FmtSpan);

/// The points of a span's life that a `FmtSpan` holds: some of `new`, `enter`,
/// `exit` and `close`.
pub uninterp spec fn span_points(s: FmtSpan) -> Set<Seq<char>>;

/// `FmtSpan::NONE`: no point.
#[verifier::external_body]
fn span_none() -> (r: FmtSpan)
    ensures
        span_points(r) == Set::<Seq<char>>::empty(),
{
    FmtSpan::NONE
}

/// `FmtSpan::NEW`: the creation of a span.
#[verifier::external_body]
fn span_new() -> (r: FmtSpan)
    ensures
        span_points(r) == set!["new"@],
{
    FmtSpan::NEW
}

/// `FmtSpan::ENTER`: each entry into a span.
#[verifier::external_body]
fn span_enter() -> (r: FmtSpan)
    ensures
        span_points(r) == set!["enter"@],
{
    FmtSpan::ENTER
}

/// `FmtSpan::EXIT`: each exit from a span.
#[verifier::external_body]
fn span_exit() -> (r: FmtSpan)
    ensures
        span_points(r) == set!["exit"@],
{
    FmtSpan::EXIT
}

/// `FmtSpan::CLOSE`: the end of a span.
#[verifier::external_body]
fn span_close() -> (r: FmtSpan)
    ensures
        span_points(r) == set!["close"@],
{
    FmtSpan::CLOSE
}

/// `FmtSpan::ACTIVE`: each entry and each exit.
#[verifier::external_body]
fn span_active() -> (r: FmtSpan)
    ensures
        span_points(r) == set!["enter"@, "exit"@],
{
    FmtSpan::ACTIVE
}

/// `FmtSpan::FULL`: every point.
#[verifier::external_body]
fn span_full() -> (r: FmtSpan)
    ensures
        span_points(r) == set!["new"@, "enter"@, "exit"@, "close"@],
{
    FmtSpan::FULL
}

/// `<FmtSpan as BitOrAssign>::bitor_assign`: the points of both.
#[verifier::external_body]
fn span_add(into: &mut FmtSpan, more: FmtSpan)
    ensures
        span_points(*final(into)) == span_points(*old(into)).union(span_points(more)),
{
    *into |= more;
}

/// The points that a word names.
pub open spec fn points_of_word(w: Seq<char>) -> Option<Set<Seq<char>>> {
    if w == "none"@ {
        Some(Set::empty())
    } else if w == "new"@ {
        Some(set!["new"@])
    } else if w == "enter"@ {
        Some(set!["enter"@])
    } else if w == "exit"@ {
        Some(set!["exit"@])
    } else if w == "close"@ {
        Some(set!["close"@])
    } else if w == "active"@ {
        Some(set!["enter"@, "exit"@])
    } else if w == "full"@ {
        Some(set!["new"@, "enter"@, "exit"@, "close"@])
    } else {
        None
    }
}

/// The points that a name stands for, whatever its case.
pub open spec fn points_of_name(name: Seq<char>) -> Option<Set<Seq<char>>> {
    points_of_word(lowered(name))
}

/// Whether every name stands for points.
pub open spec fn all_known(names: Seq<Seq<char>>) -> bool {
    forall|i: int| 0 <= i < names.len() ==> points_of_name(#[trigger] names[i]) is Some
}

/// The points that a list of names stands for together.
pub open spec fn points_of_names(names: Seq<Seq<char>>) -> Set<Seq<char>>
    decreases names.len(),
{
    if names.len() == 0 {
        Set::empty()
    } else {
        match points_of_name(names.last()) {
            Some(p) => points_of_names(names.drop_last()).union(p),
            None => points_of_names(names.drop_last()),
        }
    }
}

/// The contents of each string in turn.
pub open spec fn strings_model(names: Seq<String>) -> Seq<Seq<char>> {
    Seq::new(names.len(), |i: int| names[i]@)
}

pub open spec fn unknown_span_event_text(quoted: Seq<char>) -> Seq<char> {
    "unknown span event "@ + quoted
        + "; expected one of none/new/enter/exit/close/active/full"@
}

/// The complaint about a name, from its quoted form.
pub fn unknown_span_event(quoted: &str) -> (r: String)
    ensures
        r@ == unknown_span_event_text(quoted@),
{
    concat3(
        "unknown span event ",
        quoted,
        "; expected one of none/new/enter/exit/close/active/full",
    )
}

/// The points that one name stands for.
fn parse_span_event(name: &str) -> (r: Result<FmtSpan, String>)
    ensures
        match points_of_name(name@) {
            Some(p) => r matches Ok(s) && span_points(s) == p,
            None => r matches Err(e) && e@ == unknown_span_event_text(debug_text(lowered(name@))),
        },
{
    let low: String = name.to_ascii_lowercase();
    let w: &str = low.as_str();
    if str_eq(w, "none") {
        Ok(span_none())
    } else if str_eq(w, "new") {
        Ok(span_new())
    } else if str_eq(w, "enter") {
        Ok(span_enter())
    } else if str_eq(w, "exit") {
        Ok(span_exit())
    } else if str_eq(w, "close") {
        Ok(span_close())
    } else if str_eq(w, "active") {
        Ok(span_active())
    } else if str_eq(w, "full") {
        Ok(span_full())
    } else {
        let quoted: String = debug_quote(w);
        Err(unknown_span_event(quoted.as_str()))
    }
}

/// Reads a list of span-event names into the points that they stand for
/// together. The first name that is not known is refused.
pub fn parse_span_events(names: &[String]) -> (r: Result<FmtSpan, String>)
    ensures
        match r {
            Ok(s) => {
                &&& all_known(strings_model(names@))
                &&& span_points(s) == points_of_names(strings_model(names@))
            },
            Err(e) => exists|i: int|
                #![trigger names@[i]]
                {
                    &&& 0 <= i < names@.len()
                    &&& all_known(strings_model(names@).subrange(0, i))
                    &&& points_of_name(names@[i]@) is None
                    &&& e@ == unknown_span_event_text(debug_text(lowered(names@[i]@)))
                },
        },
{
    let ghost all = strings_model(names@);
    let mut out: FmtSpan = span_none();
    let n: usize = names.len();
    let mut i: usize = 0;
    assert(all.subrange(0, 0) =~= Seq::<Seq<char>>::empty());
    while i < n
        invariant
            n == names@.len(),
            i <= n,
            all == strings_model(names@),
            all_known(all.subrange(0, i as int)),
            span_points(out) == points_of_names(all.subrange(0, i as int)),
        decreases n - i,
    {
        match parse_span_event(names[i].as_str()) {
            Ok(s) => {
                span_add(&mut out, s);
                let ghost part = all.subrange(0, i + 1);
                assert(part.drop_last() =~= all.subrange(0, i as int));
                assert(part.last() == names@[i as int]@);
                assert forall|j: int| 0 <= j < part.len() implies points_of_name(
                    #[trigger] part[j],
                ) is Some by {
                    if j < i {
                        assert(part[j] == all.subrange(0, i as int)[j]);
                    }
                }
            },
            Err(e) => {
                assert(points_of_name(names@[i as int]@) is None);
                return Err(e);
            },
        }
        i = i + 1;
    }
    assert(all.subrange(0, n as int) =~= all);
    Ok(out)
}

// ---------------------------------------------------------------------------
// Target and format
// ---------------------------------------------------------------------------

/// Where an `fmt` layer's bytes go.
#[derive(Debug, PartialEq, Eq)]
pub enum FmtTarget {
    Stderr,
    Stdout,
    /// The file at this path, truncated on opening.
    File(String),
}

/// Event formatter shape.
#[derive(Clone, Copy, Debug, PartialEq, Eq, Structural)]
pub enum FmtFormat {
    Full,
    Compact,
    Pretty,
    Json,
}

/// Knobs of the `fmt` layer. The `json_*` fields apply to [`FmtFormat::Json`]
/// only.
pub struct FmtOptions {
    pub format: FmtFormat,
    pub with_target: bool,
    pub with_ansi: bool,
    pub with_level: bool,
    pub with_file: bool,
    pub with_line_number: bool,
    pub with_thread_ids: bool,
    pub with_thread_names: bool,
    pub span_events: FmtSpan,
    pub json_flatten: bool,
    pub json_current_span: bool,
    pub json_span_list: bool,
}

/// What the knobs are set to.
#[verifier::ext_equal]
pub struct FmtModel {
    pub format: FmtFormat,
    pub with_target: bool,
    pub with_ansi: bool,
    pub with_level: bool,
    pub with_file: bool,
    pub with_line_number: bool,
    pub with_thread_ids: bool,
    pub with_thread_names: bool,
    pub span_events: Set<Seq<char>>,
    pub json_flatten: bool,
    pub json_current_span: bool,
    pub json_span_list: bool,
}

impl View for FmtOptions {
    type V = FmtModel;

    open spec fn view(&self) -> FmtModel {
        FmtModel {
            format: self.format,
            with_target: self.with_target,
            with_ansi: self.with_ansi,
            with_level: self.with_level,
            with_file: self.with_file,
            with_line_number: self.with_line_number,
            with_thread_ids: self.with_thread_ids,
            with_thread_names: self.with_thread_names,
            span_events: span_points(self.span_events),
            json_flatten: self.json_flatten,
            json_current_span: self.json_current_span,
            json_span_list: self.json_span_list,
        }
    }
}

/// The knobs as they are unless set otherwise.
pub open spec fn default_options() -> FmtModel {
    FmtModel {
        format: FmtFormat::Full,
        with_target: true,
        with_ansi: true,
        with_level: true,
        with_file: false,
        with_line_number: false,
        with_thread_ids: false,
        with_thread_names: false,
        span_events: Set::empty(),
        json_flatten: false,
        json_current_span: true,
        json_span_list: true,
    }
}

impl Default for FmtOptions {
    fn default() -> (r: Self)
        ensures
            r@ == default_options(),
            r.format == FmtFormat::Full,
            r.with_target && r.with_ansi && r.with_level,
            !r.with_file && !r.with_line_number && !r.with_thread_ids && !r.with_thread_names,
            span_points(r.span_events) == Set::<Seq<char>>::empty(),
            !r.json_flatten && r.json_current_span && r.json_span_list,
    {
        FmtOptions {
            format: FmtFormat::Full,
            with_target: true,
            with_ansi: true,
            with_level: true,
            with_file: false,
            with_line_number: false,
            with_thread_ids: false,
            with_thread_names: false,
            span_events: span_none(),
            json_flatten: false,
            json_current_span: true,
            json_span_list: true,
        }
    }
}

/// The knobs of a JSON-per-line file.
pub open spec fn json_file_options() -> FmtModel {
    FmtModel { format: FmtFormat::Json, with_ansi: false, ..default_options() }
}

pub fn json_options() -> (r: FmtOptions)
    ensures
        r@ == json_file_options(),
        r.format == FmtFormat::Json,
        r.with_target && !r.with_ansi && r.with_level,
        !r.with_file && !r.with_line_number && !r.with_thread_ids && !r.with_thread_names,
        span_points(r.span_events) == Set::<Seq<char>>::empty(),
        !r.json_flatten && r.json_current_span && r.json_span_list,
{
    let mut opts: FmtOptions = FmtOptions::default();
    opts.format = FmtFormat::Json;
    opts.with_ansi = false;
    opts
}

/// The knobs of the JSON formatter in the order flatten, current span, span list;
/// there are none in any other format.
pub open spec fn json_knobs_of(m: FmtModel) -> Option<(bool, bool, bool)> {
    if m.format == FmtFormat::Json {
        Some((m.json_flatten, m.json_current_span, m.json_span_list))
    } else {
        None
    }
}

/// The knobs that apply to the formatter: the `json_*` fields, and only where the
/// format is [`FmtFormat::Json`].
pub fn json_knobs(opts: &FmtOptions) -> (r: Option<(bool, bool, bool)>)
    ensures
        r == json_knobs_of(opts@),
        r == (if opts.format == FmtFormat::Json {
            Some((opts.json_flatten, opts.json_current_span, opts.json_span_list))
        } else {
            None
        }),
{
    match opts.format {
        FmtFormat::Json => Some((opts.json_flatten, opts.json_current_span, opts.json_span_list)),
        FmtFormat::Full | FmtFormat::Compact | FmtFormat::Pretty => None,
    }
}

/// What a target is, with the characters of its path.
pub enum TargetModel {
    Stderr,
    Stdout,
    File(Seq<char>),
}

impl View for FmtTarget {
    type V = TargetModel;

    open spec fn view(&self) -> TargetModel {
        match *self {
            FmtTarget::Stderr => TargetModel::Stderr,
            FmtTarget::Stdout => TargetModel::Stdout,
            FmtTarget::File(path) => TargetModel::File(path@),
        }
    }
}

/// The target that a file and the name of a stream select: the file wins.
pub open spec fn target_of(stream: Seq<char>, file: Option<String>) -> Option<TargetModel> {
    match file {
        Some(path) => Some(TargetModel::File(path@)),
        None => if lowered(stream) == "stderr"@ {
            Some(TargetModel::Stderr)
        } else if lowered(stream) == "stdout"@ {
            Some(TargetModel::Stdout)
        } else {
            None
        },
    }
}

pub open spec fn bad_stream_text(quoted: Seq<char>) -> Seq<char> {
    "target_stream must be 'stderr' or 'stdout', got "@ + quoted
}

/// The complaint about a stream, from its quoted form.
pub fn bad_stream(quoted: &str) -> (r: String)
    ensures
        r@ == bad_stream_text(quoted@),
{
    concat2("target_stream must be 'stderr' or 'stdout', got ", quoted)
}

/// Reads the target of an `fmt` layer.
pub fn parse_fmt_target(target_stream: &str, file: Option<String>) -> (r: Result<
    FmtTarget,
    String,
>)
    ensures
        match target_of(target_stream@, file) {
            Some(t) => r matches Ok(x) && x@ == t,
            None => r matches Err(e) && e@ == bad_stream_text(
                debug_text(lowered(target_stream@)),
            ),
        },
        file matches Some(path) ==> (r matches Ok(FmtTarget::File(p)) && p == path),
        file is None ==> {
            &&& (r matches Ok(FmtTarget::Stderr)) <==> lowered(target_stream@) == "stderr"@
            &&& (r matches Ok(FmtTarget::Stdout)) <==> lowered(target_stream@) == "stdout"@
            &&& !(r matches Ok(FmtTarget::File(_)))
        },
{
    proof {
        lemma_names_differ();
    }
    match file {
        Some(path) => Ok(FmtTarget::File(path)),
        None => {
            let low: String = target_stream.to_ascii_lowercase();
            if str_eq(low.as_str(), "stderr") {
                Ok(FmtTarget::Stderr)
            } else if str_eq(low.as_str(), "stdout") {
                Ok(FmtTarget::Stdout)
            } else {
                let quoted: String = debug_quote(low.as_str());
                Err(bad_stream(quoted.as_str()))
            }
        },
    }
}

/// The format that a name selects, whatever its case.
pub open spec fn format_of(name: Seq<char>) -> Option<FmtFormat> {
    let w = lowered(name);
    if w == "full"@ {
        Some(FmtFormat::Full)
    } else if w == "compact"@ {
        Some(FmtFormat::Compact)
    } else if w == "pretty"@ {
        Some(FmtFormat::Pretty)
    } else if w == "json"@ {
        Some(FmtFormat::Json)
    } else {
        None
    }
}

pub open spec fn bad_format_text(quoted: Seq<char>) -> Seq<char> {
    "format must be one of 'full'/'compact'/'pretty'/'json', got "@ + quoted
}

/// The complaint about a format, from its quoted form.
pub fn bad_format(quoted: &str) -> (r: String)
    ensures
        r@ == bad_format_text(quoted@),
{
    concat2("format must be one of 'full'/'compact'/'pretty'/'json', got ", quoted)
}

/// Reads the format of an `fmt` layer.
pub fn parse_fmt_format(format: &str) -> (r: Result<FmtFormat, String>)
    ensures
        match format_of(format@) {
            Some(f) => r == Ok::<FmtFormat, String>(f),
            None => r matches Err(e) && e@ == bad_format_text(debug_text(lowered(format@))),
        },
        r == Ok::<FmtFormat, String>(FmtFormat::Full) <==> lowered(format@) == "full"@,
        r == Ok::<FmtFormat, String>(FmtFormat::Compact) <==> lowered(format@) == "compact"@,
        r == Ok::<FmtFormat, String>(FmtFormat::Pretty) <==> lowered(format@) == "pretty"@,
        r == Ok::<FmtFormat, String>(FmtFormat::Json) <==> lowered(format@) == "json"@,
{
    proof {
        lemma_names_differ();
    }
    let low: String = format.to_ascii_lowercase();
    let w: &str = low.as_str();
    if str_eq(w, "full") {
        Ok(FmtFormat::Full)
    } else if str_eq(w, "compact") {
        Ok(FmtFormat::Compact)
    } else if str_eq(w, "pretty") {
        Ok(FmtFormat::Pretty)
    } else if str_eq(w, "json") {
        Ok(FmtFormat::Json)
    } else {
        let quoted: String = debug_quote(w);
        Err(bad_format(quoted.as_str()))
    }
}

// ---------------------------------------------------------------------------
// The whole call
// ---------------------------------------------------------------------------

/// The arguments of a call that adds an `fmt` layer, as they came.
pub struct FmtRequest {
    pub target_stream: String,
    pub with_target: bool,
    pub with_ansi: bool,
    pub file: Option<String>,
    pub format: String,
    pub with_level: bool,
    pub with_file: bool,
    pub with_line_number: bool,
    pub with_thread_ids: bool,
    pub with_thread_names: bool,
    pub span_events: Option<Vec<String>>,
    pub json_flatten: bool,
    pub json_current_span: bool,
    pub json_span_list: bool,
}

/// The names of span events in a request; none where the argument is absent.
pub open spec fn requested_events(req: FmtRequest) -> Seq<Seq<char>> {
    match req.span_events {
        Some(names) => strings_model(names@),
        None => Seq::empty(),
    }
}

/// The options that a request with a known format and known span events asks
/// for.
pub open spec fn requested_options(req: FmtRequest) -> FmtModel {
    FmtModel {
        format: format_of(req.format@)->0,
        with_target: req.with_target,
        with_ansi: req.with_ansi,
        with_level: req.with_level,
        with_file: req.with_file,
        with_line_number: req.with_line_number,
        with_thread_ids: req.with_thread_ids,
        with_thread_names: req.with_thread_names,
        span_events: points_of_names(requested_events(req)),
        json_flatten: req.json_flatten,
        json_current_span: req.json_current_span,
        json_span_list: req.json_span_list,
    }
}

/// Reads a request: the target first, then the format, then the span events;
/// the first that is wrong is refused.
pub fn parse_fmt_request(req: FmtRequest) -> (r: Result<(FmtTarget, FmtOptions), String>)
    ensures
        match target_of(req.target_stream@, req.file) {
            None => r matches Err(e) && e@ == bad_stream_text(
                debug_text(lowered(req.target_stream@)),
            ),
            Some(t) => match format_of(req.format@) {
                None => r matches Err(e) && e@ == bad_format_text(debug_text(lowered(req.format@))),
                Some(_) => match r {
                    Ok(x) => {
                        &&& all_known(requested_events(req))
                        &&& x.0@ == t
                        &&& x.1@ == requested_options(req)
                    },
                    Err(e) => exists|i: int|
                        {
                            &&& 0 <= i < requested_events(req).len()
                            &&& all_known(requested_events(req).subrange(0, i))
                            &&& points_of_name(#[trigger] requested_events(req)[i]) is None
                            &&& e@ == unknown_span_event_text(
                                debug_text(lowered(requested_events(req)[i])),
                            )
                        },
                },
            },
        },
        r matches Ok(x) ==> {
            &&& req.file matches Some(path) ==> (x.0 matches FmtTarget::File(p) && p == path)
            &&& req.file is None ==> {
                &&& x.0 is Stderr <==> lowered(req.target_stream@) == "stderr"@
                &&& x.0 is Stdout <==> lowered(req.target_stream@) == "stdout"@
            }
            &&& x.1.format == FmtFormat::Full <==> lowered(req.format@) == "full"@
            &&& x.1.format == FmtFormat::Compact <==> lowered(req.format@) == "compact"@
            &&& x.1.format == FmtFormat::Pretty <==> lowered(req.format@) == "pretty"@
            &&& x.1.format == FmtFormat::Json <==> lowered(req.format@) == "json"@
            &&& x.1.with_target == req.with_target
            &&& x.1.with_ansi == req.with_ansi
            &&& x.1.with_level == req.with_level
            &&& x.1.with_file == req.with_file
            &&& x.1.with_line_number == req.with_line_number
            &&& x.1.with_thread_ids == req.with_thread_ids
            &&& x.1.with_thread_names == req.with_thread_names
            &&& x.1.json_flatten == req.json_flatten
            &&& x.1.json_current_span == req.json_current_span
            &&& x.1.json_span_list == req.json_span_list
            &&& req.span_events is None ==> span_points(x.1.span_events) == Set::<
                Seq<char>,
            >::empty()
        },
{
    let target: FmtTarget = match parse_fmt_target(req.target_stream.as_str(), req.file) {
        Ok(t) => t,
        Err(e) => {
            return Err(e);
        },
    };
    let format: FmtFormat = match parse_fmt_format(req.format.as_str()) {
        Ok(f) => f,
        Err(e) => {
            return Err(e);
        },
    };
    let span_events: FmtSpan = match &req.span_events {
        Some(names) => match parse_span_events(names.as_slice()) {
            Ok(s) => s,
            Err(e) => {
                proof {
                    let i = choose|i: int|
                        #![trigger names@[i]]
                        {
                            &&& 0 <= i < names@.len()
                            &&& all_known(strings_model(names@).subrange(0, i))
                            &&& points_of_name(names@[i]@) is None
                            &&& e@ == unknown_span_event_text(debug_text(lowered(names@[i]@)))
                        };
                    assert(requested_events(req)[i] == names@[i]@);
                }
                return Err(e);
            },
        },
        None => span_none(),
    };
    Ok(
        (
            target,
            FmtOptions {
                format,
                with_target: req.with_target,
                with_ansi: req.with_ansi,
                with_level: req.with_level,
                with_file: req.with_file,
                with_line_number: req.with_line_number,
                with_thread_ids: req.with_thread_ids,
                with_thread_names: req.with_thread_names,
                span_events,
                json_flatten: req.json_flatten,
                json_current_span: req.json_current_span,
                json_span_list: req.json_span_list,
            },
        ),
    )
}

// ---------------------------------------------------------------------------
// Laws
// ---------------------------------------------------------------------------

/// A point is selected exactly where one of the names stands for it, so neither
/// the order of the names nor repeating one matters.
pub proof fn law_points_are_the_union(names: Seq<Seq<char>>, point: Seq<char>)
    requires
        all_known(names),
    ensures
        points_of_names(names).contains(point) <==> exists|i: int|
            0 <= i < names.len() && (points_of_name(#[trigger] names[i])->0).contains(point),
    decreases names.len(),
{
    if names.len() > 0 {
        let init = names.drop_last();
        assert forall|i: int| 0 <= i < init.len() implies points_of_name(
            #[trigger] init[i],
        ) is Some by {
            assert(init[i] == names[i]);
        }
        law_points_are_the_union(init, point);
        assert(points_of_name(names[names.len() - 1]) is Some);
        if points_of_names(init).contains(point) {
            let i = choose|i: int|
                0 <= i < init.len() && (points_of_name(#[trigger] init[i])->0).contains(point);
            assert(names[i] == init[i]);
        }
        if exists|i: int|
            0 <= i < names.len() && (points_of_name(#[trigger] names[i])->0).contains(point) {
            let i = choose|i: int|
                0 <= i < names.len() && (points_of_name(#[trigger] names[i])->0).contains(point);
            if i < init.len() {
                assert(init[i] == names[i]);
            }
        }
    }
}

/// The `json_*` fields make no difference in any format but JSON.
pub proof fn law_json_knobs_apply_to_json_only(a: FmtModel, b: FmtModel)
    requires
        a.format == b.format,
        a.format != FmtFormat::Json,
    ensures
        json_knobs_of(a) == json_knobs_of(b),
{
}

/// Names are read without regard to case.
pub proof fn law_names_ignore_case(a: Seq<char>, b: Seq<char>, file: Option<String>)
    requires
        lowered(a) == lowered(b),
    ensures
        points_of_name(a) == points_of_name(b),
        format_of(a) == format_of(b),
        target_of(a, file) == target_of(b, file),
{
}

proof fn lemma_names_differ()
    ensures
        "none"@[0] == 'n' && "none"@.len() == 4,
        "new"@[0] == 'n' && "new"@.len() == 3,
        "enter"@[0] == 'e' && "enter"@.len() == 5,
        "exit"@[0] == 'e' && "exit"@.len() == 4,
        "close"@[0] == 'c' && "close"@.len() == 5,
        "active"@[0] == 'a' && "active"@.len() == 6,
        "full"@[0] == 'f' && "full"@.len() == 4,
        "compact"@[0] == 'c' && "compact"@.len() == 7,
        "pretty"@[0] == 'p' && "pretty"@.len() == 6,
        "json"@[0] == 'j' && "json"@.len() == 4,
        "stderr"@[3] == 'e' && "stderr"@.len() == 6,
        "stdout"@[3] == 'o' && "stdout"@.len() == 6,
{
    reveal_strlit("none");
    reveal_strlit("new");
    reveal_strlit("enter");
    reveal_strlit("exit");
    reveal_strlit("close");
    reveal_strlit("active");
    reveal_strlit("full");
    reveal_strlit("compact");
    reveal_strlit("pretty");
    reveal_strlit("json");
    reveal_strlit("stderr");
    reveal_strlit("stdout");
}

/// Seven names stand for points, in any case, and no other name does.
pub proof fn law_only_the_point_names_are_known(name: Seq<char>)
    ensures
        points_of_name(name) is Some <==> {
            ||| lowered(name) == "none"@
            ||| lowered(name) == "new"@
            ||| lowered(name) == "enter"@
            ||| lowered(name) == "exit"@
            ||| lowered(name) == "close"@
            ||| lowered(name) == "active"@
            ||| lowered(name) == "full"@
        },
{
}

/// `none` stands for no point, the four points stand for themselves, `active` for
/// entries and exits and `full` for all four.
pub proof fn law_names_stand_for_their_points(name: Seq<char>, point: Seq<char>)
    ensures
        lowered(name) == "none"@ ==> !(points_of_name(name)->0).contains(point),
        lowered(name) == "new"@ ==> ((points_of_name(name)->0).contains(point) <==> point
            == "new"@),
        lowered(name) == "enter"@ ==> ((points_of_name(name)->0).contains(point) <==> point
            == "enter"@),
        lowered(name) == "exit"@ ==> ((points_of_name(name)->0).contains(point) <==> point
            == "exit"@),
        lowered(name) == "close"@ ==> ((points_of_name(name)->0).contains(point) <==> point
            == "close"@),
        lowered(name) == "active"@ ==> ((points_of_name(name)->0).contains(point) <==> point
            == "enter"@ || point == "exit"@),
        lowered(name) == "full"@ ==> ((points_of_name(name)->0).contains(point) <==> point
            == "new"@ || point == "enter"@ || point == "exit"@ || point == "close"@),
{
    lemma_names_differ();
}

/// A file wins over a stream, the two streams are read in any case, and no other
/// stream is.
pub proof fn law_target_by_its_name(stream: Seq<char>, path: String)
    ensures
        target_of(stream, Some(path)) == Some(TargetModel::File(path@)),
        target_of(stream, None) == Some(TargetModel::Stderr) <==> lowered(stream) == "stderr"@,
        target_of(stream, None) == Some(TargetModel::Stdout) <==> lowered(stream) == "stdout"@,
        target_of(stream, None) is None <==> lowered(stream) != "stderr"@ && lowered(stream)
            != "stdout"@,
{
    lemma_names_differ();
}

/// Each format has one name, read in any case, and no other name is a format.
pub proof fn law_format_by_its_name(name: Seq<char>)
    ensures
        format_of(name) == Some(FmtFormat::Full) <==> lowered(name) == "full"@,
        format_of(name) == Some(FmtFormat::Compact) <==> lowered(name) == "compact"@,
        format_of(name) == Some(FmtFormat::Pretty) <==> lowered(name) == "pretty"@,
        format_of(name) == Some(FmtFormat::Json) <==> lowered(name) == "json"@,
        format_of(name) is None <==> lowered(name) != "full"@ && lowered(name) != "compact"@
            && lowered(name) != "pretty"@ && lowered(name) != "json"@,
{
    lemma_names_differ();
}

/// The options of a request are the knobs of the request, each under its own name,
/// with the points of all its span events.
pub proof fn law_options_are_the_requested_knobs(req: FmtRequest)
    ensures
        ({
            let m = requested_options(req);
            &&& m.with_target == req.with_target
            &&& m.with_ansi == req.with_ansi
            &&& m.with_level == req.with_level
            &&& m.with_file == req.with_file
            &&& m.with_line_number == req.with_line_number
            &&& m.with_thread_ids == req.with_thread_ids
            &&& m.with_thread_names == req.with_thread_names
            &&& m.json_flatten == req.json_flatten
            &&& m.json_current_span == req.json_current_span
            &&& m.json_span_list == req.json_span_list
            &&& format_of(req.format@) matches Some(f) ==> m.format == f
            &&& req.span_events is None ==> m.span_events == Set::<Seq<char>>::empty()
            &&& req.span_events matches Some(names) ==> m.span_events == points_of_names(
                strings_model(names@),
            )
        }),
{
}

/// What options say is what they hold.
pub proof fn law_options_say_what_they_hold(o: FmtOptions)
    ensures
        o@.format == o.format,
        o@.with_target == o.with_target,
        o@.with_ansi == o.with_ansi,
        o@.with_level == o.with_level,
        o@.with_file == o.with_file,
        o@.with_line_number == o.with_line_number,
        o@.with_thread_ids == o.with_thread_ids,
        o@.with_thread_names == o.with_thread_names,
        o@.span_events == span_points(o.span_events),
        o@.json_flatten == o.json_flatten,
        o@.json_current_span == o.json_current_span,
        o@.json_span_list == o.json_span_list,
{
}

/// What a target says is what it is.
pub proof fn law_targets_say_what_they_are(t: FmtTarget)
    ensures
        t is Stderr <==> t@ is Stderr,
        t is Stdout <==> t@ is Stdout,
        t matches FmtTarget::File(path) ==> t@ == TargetModel::File(path@),
{
}

/// A JSON file has the default options but for the format and the colours.
pub proof fn law_json_file_differs_in_format_and_colours()
    ensures
        json_file_options() == (FmtModel {
            format: FmtFormat::Json,
            with_ansi: false,
            ..default_options()
        }),
        default_options().format == FmtFormat::Full,
        default_options().with_target && default_options().with_ansi
            && default_options().with_level,
        !default_options().with_file && !default_options().with_line_number
            && !default_options().with_thread_ids && !default_options().with_thread_names,
        default_options().span_events == Set::<Seq<char>>::empty(),
        !default_options().json_flatten && default_options().json_current_span
            && default_options().json_span_list,
{
}

/// Each complaint names what was found, in quotes, behind what was expected.
pub proof fn law_complaints_quote_what_was_found(quoted: Seq<char>)
    ensures
        unknown_span_event_text(quoted) == "unknown span event "@ + quoted
            + "; expected one of none/new/enter/exit/close/active/full"@,
        bad_stream_text(quoted) == "target_stream must be 'stderr' or 'stdout', got "@ + quoted,
        bad_format_text(quoted)
            == "format must be one of 'full'/'compact'/'pretty'/'json', got "@ + quoted,
{
}

/// The contents of a list of strings are those of its strings, one by one.
pub proof fn law_contents_are_the_strings(names: Seq<String>, i: int)
    requires
        0 <= i < names.len(),
    ensures
        strings_model(names).len() == names.len(),
        strings_model(names)[i] == names[i]@,
{
}

}
