//! Spans: entering, leaving and the timing events that go with it.
//!
//! A span may be entered more than once: each entry pushes a guard, each exit
//! pops the most recent one. Every entry and every exit of a span emits an event
//! with `cat="timing"`, which carries the nesting depth so that the tree can be
//! rebuilt from a flat log.

use vstd::prelude::*;
use vstd::string::StringExecFns;

use crate::callsite::{get_event_full, get_span, py_target, DynCallsite, Kind, Registry};
use crate::callsite::{event_metadata, python_target, registered, texts};
use crate::callsite::{law_span_has_the_requested_signature, registered_span};
use crate::callsite::{span_callsite, span_metadata};
use crate::event::{borrow_names, push_slots, Emission, FieldModel, FieldValue, Location};
use crate::event::{recorded, recorded_all, slot_model, slots_model};
use crate::kwargs::{field_names, law_parsed_says_what_it_holds, ParsedKwargs};
use crate::level::Level;
use crate::value::PyValue;
use crate::text::{concat3, debug_quote, decimal};
use crate::text::{debug_text, decimal_text};
use crate::timing::TIMING_CAT;

verus! {

// ---------------------------------------------------------------------------
// Depth
// ---------------------------------------------------------------------------

/// How many spans are entered on a thread.
pub struct SpanDepth {
    depth: u32,
}

impl View for SpanDepth {
    type V = u32;

    closed spec fn view(&self) -> u32 {
        self.depth
    }
}

impl SpanDepth {
    pub fn new() -> (r: Self)
        ensures
            r@ == 0,
    {
        SpanDepth { depth: 0 }
    }

    pub fn get(&self) -> (r: u32)
        ensures
            r == self@,
    {
        self.depth
    }

    /// Counts one more entered span and gives the depth at which it stands.
    pub fn enter(&mut self) -> (r: i64)
        requires
            old(self)@ < u32::MAX,
        ensures
            final(self)@ == old(self)@ + 1,
            r == old(self)@,
    {
        let cur: u32 = self.depth;
        self.depth = cur + 1;
        cur as i64
    }

    /// Counts one entered span less, none below zero, and gives the depth at
    /// which it stood.
    pub fn exit(&mut self) -> (r: i64)
        ensures
            final(self)@ == depth_after_exit(old(self)@ as int),
            old(self)@ > 0 ==> final(self)@ == old(self)@ - 1,
            old(self)@ == 0 ==> final(self)@ == 0,
            r == final(self)@,
    {
        let new: u32 = self.depth.saturating_sub(1);
        self.depth = new;
        new as i64
    }
}

/// The depth after one exit.
pub open spec fn depth_after_exit(depth: int) -> int {
    if depth > 0 {
        depth - 1
    } else {
        0
    }
}

/// The depth after a run of entries (`true`) and exits (`false`).
pub open spec fn depth_after(depth: int, run: Seq<bool>) -> int
    decreases run.len(),
{
    if run.len() == 0 {
        depth
    } else {
        let before = depth_after(depth, run.drop_last());
        if run.last() {
            before + 1
        } else {
            depth_after_exit(before)
        }
    }
}

/// Entries less exits in a run.
pub open spec fn balance(run: Seq<bool>) -> int
    decreases run.len(),
{
    if run.len() == 0 {
        0
    } else {
        balance(run.drop_last()) + (if run.last() {
            1int
        } else {
            -1int
        })
    }
}

/// Whether no part of a run leaves more spans than it entered.
pub open spec fn well_nested(run: Seq<bool>) -> bool {
    forall|n: int| 0 <= n <= run.len() ==> balance(#[trigger] run.subrange(0, n)) >= 0
}

/// The depth counts the open spans: over a run of entries and exits that never
/// leaves a span it did not enter, it grows by the entries less the exits. A run
/// that leaves all it entered brings the depth back to where it was.
pub proof fn law_depth_counts_open_spans(depth: int, run: Seq<bool>)
    requires
        depth >= 0,
        well_nested(run),
    ensures
        depth_after(depth, run) == depth + balance(run),
    decreases run.len(),
{
    if run.len() > 0 {
        let init = run.drop_last();
        assert forall|n: int| 0 <= n <= init.len() implies balance(
            #[trigger] init.subrange(0, n),
        ) >= 0 by {
            assert(init.subrange(0, n) =~= run.subrange(0, n));
        }
        law_depth_counts_open_spans(depth, init);
        assert(run.subrange(0, run.len() as int) =~= run);
        assert(balance(run) >= 0);
    }
}

// ---------------------------------------------------------------------------
// Timing events
// ---------------------------------------------------------------------------

/// An end of a span's life on a thread.
#[derive(Clone, Copy, Debug, PartialEq, Eq, Structural)]
pub enum SpanOp {
    Enter,
    Exit,
}

pub open spec fn op_text(op: SpanOp) -> Seq<char> {
    match op {
        SpanOp::Enter => "enter"@,
        SpanOp::Exit => "exit"@,
    }
}

/// The fields of a timing event behind its message. Only an exit has an elapsed
/// time.
pub open spec fn timing_fields(elapsed_ms: Option<u64>) -> Seq<Seq<char>> {
    let common = seq!["cat"@, "op"@, "name"@, "depth"@];
    match elapsed_ms {
        Some(_) => common.push("elapsed_ms"@),
        None => common,
    }
}

/// The values of a timing event: no message, the category `timing`, the end of
/// the span's life, its name, the depth and the elapsed time.
pub open spec fn timing_slots(
    op: SpanOp,
    name: Seq<char>,
    depth: i64,
    elapsed_ms: Option<u64>,
) -> Seq<Option<FieldModel>> {
    let common = seq![
        None,
        Some(FieldModel::Str(TIMING_CAT@)),
        Some(FieldModel::Str(op_text(op))),
        Some(FieldModel::Str(name)),
        Some(FieldModel::I64(depth)),
    ];
    match elapsed_ms {
        Some(ms) => common.push(Some(FieldModel::F64(ms))),
        None => common,
    }
}

/// The timing event of a span, at the span's own level and source location. The
/// elapsed time is held by the bits of a double.
pub fn emit_span_event<'a>(
    reg: &mut Registry,
    level: Level,
    file: &str,
    line: u32,
    module: &str,
    op: SpanOp,
    name: &'a str,
    depth: i64,
    elapsed_ms: Option<u64>,
) -> (r: Emission<'a>)
    requires
        old(reg).wf(),
    ensures
        final(reg).wf(),
        r.wf(),
        r.callsite@ == event_metadata(
            file@,
            line,
            level,
            python_target(module@),
            module@,
            timing_fields(elapsed_ms),
        ),
        r.slots() == timing_slots(op, name@, depth, elapsed_ms),
        final(reg)@ == registered(
            old(reg)@,
            r.callsite@,
            seq![file@, python_target(module@), module@] + timing_fields(elapsed_ms),
        ),
        r.callsite@.kind == Kind::Event,
        r.callsite@.level == level,
        r.callsite@.file == file@,
        r.callsite@.line == line,
        r.callsite@.target == "py:"@ + module@,
        r.callsite@.module == module@,
        elapsed_ms is None ==> r.callsite@.fields == seq!["message"@, "cat"@, "op"@, "name"@, "depth"@],
        elapsed_ms is Some ==> r.callsite@.fields == seq![
            "message"@,
            "cat"@,
            "op"@,
            "name"@,
            "depth"@,
            "elapsed_ms"@,
        ],
        r.values@.len() == (if elapsed_ms is Some {
            6int
        } else {
            5int
        }),
        r.values@[0] is None,
        r.values@[1] matches Some(FieldValue::Str(x)) && x@ == "timing"@,
        op == SpanOp::Enter ==> (r.values@[2] matches Some(FieldValue::Str(x)) && x@ == "enter"@),
        op == SpanOp::Exit ==> (r.values@[2] matches Some(FieldValue::Str(x)) && x@ == "exit"@),
        r.values@[3] matches Some(FieldValue::Str(x)) && x@ == name@,
        r.values@[4] matches Some(FieldValue::I64(x)) && x == depth,
        elapsed_ms matches Some(ms) ==> (r.values@[5] matches Some(FieldValue::F64(x)) && x == ms),
        r.callsite.number() < final(reg)@.callsites.len(),
        final(reg)@.callsites[r.callsite.number() as int] == r.callsite@,
{
    let target: String = py_target(module);
    let mut names: Vec<&str> = Vec::new();
    names.push("cat");
    names.push("op");
    names.push("name");
    names.push("depth");
    let mut values: Vec<Option<FieldValue<'a>>> = Vec::new();
    values.push(None);
    values.push(Some(FieldValue::Str(TIMING_CAT)));
    values.push(
        Some(
            FieldValue::Str(
                match op {
                    SpanOp::Enter => "enter",
                    SpanOp::Exit => "exit",
                },
            ),
        ),
    );
    values.push(Some(FieldValue::Str(name)));
    values.push(Some(FieldValue::I64(depth)));
    if let Some(ms) = elapsed_ms {
        names.push("elapsed_ms");
        values.push(Some(FieldValue::F64(ms)));
    }
    assert(texts(names@) =~= timing_fields(elapsed_ms));
    assert(slots_model(values@) =~= timing_slots(op, name@, depth, elapsed_ms));
    let callsite: &'static DynCallsite = get_event_full(
        reg,
        file,
        line,
        level,
        target.as_str(),
        module,
        names.as_slice(),
    );
    assert(callsite@.fields =~= seq!["message"@] + timing_fields(elapsed_ms));
    Emission { callsite, values }
}

// ---------------------------------------------------------------------------
// Spans
// ---------------------------------------------------------------------------

/// A span, with the stack of its active entries. `G` is what an entry holds: a
/// guard of the dispatcher's and the time at which it was taken.
pub struct Span<G> {
    name: String,
    level: Level,
    file: String,
    line: u32,
    module: String,
    guards: Vec<G>,
}

impl<G> Span<G> {
    pub closed spec fn label(&self) -> Seq<char> {
        self.name@
    }

    /// The level at which the span was made, and at which it is timed.
    pub closed spec fn severity(&self) -> Level {
        self.level
    }

    pub closed spec fn source_file(&self) -> Seq<char> {
        self.file@
    }

    pub closed spec fn source_line(&self) -> u32 {
        self.line
    }

    pub closed spec fn source_module(&self) -> Seq<char> {
        self.module@
    }

    /// The active entries, the most recent one last.
    pub closed spec fn entries(&self) -> Seq<G> {
        self.guards@
    }

    /// Whether two spans differ in their entries at most.
    pub open spec fn same_span(&self, other: &Self) -> bool {
        &&& self.label() == other.label()
        &&& self.severity() == other.severity()
        &&& self.source_file() == other.source_file()
        &&& self.source_line() == other.source_line()
        &&& self.source_module() == other.source_module()
    }

    /// The human-readable label set at construction.
    pub fn name(&self) -> (r: &str)
        ensures
            r@ == self.label(),
    {
        self.name.as_str()
    }

    /// How many entries are active.
    pub fn entered(&self) -> (r: usize)
        ensures
            r == self.entries().len(),
    {
        self.guards.len()
    }

    /// Enters the span: the guard goes on top of the stack, and the depth of the
    /// new entry comes back.
    pub fn enter(&mut self, depth: &mut SpanDepth, guard: G) -> (r: i64)
        requires
            old(depth)@ < u32::MAX,
        ensures
            final(self).entries() == old(self).entries().push(guard),
            final(self).same_span(old(self)),
            final(self).label() == old(self).label(),
            final(self).severity() == old(self).severity(),
            final(self).source_file() == old(self).source_file(),
            final(self).source_line() == old(self).source_line(),
            final(self).source_module() == old(self).source_module(),
            final(depth)@ == old(depth)@ + 1,
            r == old(depth)@,
    {
        let at: i64 = depth.enter();
        self.guards.push(guard);
        at
    }

    /// Leaves the most recent entry and gives back its guard. Fails, and changes
    /// nothing, where no entry is active.
    pub fn exit(&mut self) -> (r: Result<G, String>)
        ensures
            final(self).same_span(old(self)),
            final(self).label() == old(self).label(),
            final(self).severity() == old(self).severity(),
            final(self).source_file() == old(self).source_file(),
            final(self).source_line() == old(self).source_line(),
            final(self).source_module() == old(self).source_module(),
            match r {
                Ok(guard) => {
                    &&& old(self).entries().len() > 0
                    &&& guard == old(self).entries().last()
                    &&& final(self).entries() == old(self).entries().drop_last()
                },
                Err(e) => {
                    &&& old(self).entries().len() == 0
                    &&& e@ == "Span.__exit__ called without a matching __enter__"@
                    &&& final(self).entries() == old(self).entries()
                },
            },
    {
        match self.guards.pop() {
            Some(guard) => Ok(guard),
            None => Err("Span.__exit__ called without a matching __enter__".to_owned()),
        }
    }

    /// Leaves the most recent entry and counts it out: gives back its guard and the
    /// depth at which it stood. Fails, and changes neither the span nor the depth,
    /// where no entry is active.
    pub fn leave(&mut self, depth: &mut SpanDepth) -> (r: Result<(G, i64), String>)
        ensures
            final(self).same_span(old(self)),
            final(self).label() == old(self).label(),
            final(self).severity() == old(self).severity(),
            final(self).source_file() == old(self).source_file(),
            final(self).source_line() == old(self).source_line(),
            final(self).source_module() == old(self).source_module(),
            match r {
                Ok(x) => {
                    &&& old(self).entries().len() > 0
                    &&& x.0 == old(self).entries().last()
                    &&& final(self).entries() == old(self).entries().drop_last()
                    &&& final(depth)@ == depth_after_exit(old(depth)@ as int)
                    &&& old(depth)@ > 0 ==> final(depth)@ == old(depth)@ - 1
                    &&& old(depth)@ == 0 ==> final(depth)@ == 0
                    &&& x.1 == final(depth)@
                },
                Err(e) => {
                    &&& old(self).entries().len() == 0
                    &&& e@ == "Span.__exit__ called without a matching __enter__"@
                    &&& final(self).entries() == old(self).entries()
                    &&& final(depth)@ == old(depth)@
                },
            },
    {
        match self.exit() {
            Ok(guard) => Ok((guard, depth.exit())),
            Err(e) => Err(e),
        }
    }

    /// The `enter` event of an entry at `depth`.
    pub fn enter_event<'a>(&'a self, reg: &mut Registry, depth: i64) -> (r: Emission<'a>)
        requires
            old(reg).wf(),
        ensures
            final(reg).wf(),
            r.wf(),
            r.callsite@ == event_metadata(
                self.source_file(),
                self.source_line(),
                self.severity(),
                python_target(self.source_module()),
                self.source_module(),
                timing_fields(None),
            ),
            r.slots() == timing_slots(SpanOp::Enter, self.label(), depth, None),
            final(reg)@ == registered(
                old(reg)@,
                r.callsite@,
                seq![
                    self.source_file(),
                    python_target(self.source_module()),
                    self.source_module(),
                ] + timing_fields(None),
            ),
            r.callsite@.kind == Kind::Event,
            r.callsite@.level == self.severity(),
            r.callsite@.file == self.source_file(),
            r.callsite@.line == self.source_line(),
            r.callsite@.target == "py:"@ + self.source_module(),
            r.callsite@.module == self.source_module(),
            r.callsite@.fields == seq!["message"@, "cat"@, "op"@, "name"@, "depth"@],
            r.values@.len() == 5,
            r.values@[0] is None,
            r.values@[1] matches Some(FieldValue::Str(x)) && x@ == "timing"@,
            r.values@[2] matches Some(FieldValue::Str(x)) && x@ == "enter"@,
            r.values@[3] matches Some(FieldValue::Str(x)) && x@ == self.label(),
            r.values@[4] matches Some(FieldValue::I64(x)) && x == depth,
            r.callsite.number() < final(reg)@.callsites.len(),
            final(reg)@.callsites[r.callsite.number() as int] == r.callsite@,
    {
        emit_span_event(
            reg,
            self.level,
            self.file.as_str(),
            self.line,
            self.module.as_str(),
            SpanOp::Enter,
            self.name.as_str(),
            depth,
            None,
        )
    }

    /// The `exit` event of an entry at `depth` that took `elapsed_ms`.
    pub fn exit_event<'a>(&'a self, reg: &mut Registry, depth: i64, elapsed_ms: u64) -> (r:
        Emission<'a>)
        requires
            old(reg).wf(),
        ensures
            final(reg).wf(),
            r.wf(),
            r.callsite@ == event_metadata(
                self.source_file(),
                self.source_line(),
                self.severity(),
                python_target(self.source_module()),
                self.source_module(),
                timing_fields(Some(elapsed_ms)),
            ),
            r.slots() == timing_slots(SpanOp::Exit, self.label(), depth, Some(elapsed_ms)),
            final(reg)@ == registered(
                old(reg)@,
                r.callsite@,
                seq![
                    self.source_file(),
                    python_target(self.source_module()),
                    self.source_module(),
                ] + timing_fields(Some(elapsed_ms)),
            ),
            r.callsite@.kind == Kind::Event,
            r.callsite@.level == self.severity(),
            r.callsite@.file == self.source_file(),
            r.callsite@.line == self.source_line(),
            r.callsite@.target == "py:"@ + self.source_module(),
            r.callsite@.module == self.source_module(),
            r.callsite@.fields == seq![
                "message"@,
                "cat"@,
                "op"@,
                "name"@,
                "depth"@,
                "elapsed_ms"@,
            ],
            r.values@.len() == 6,
            r.values@[0] is None,
            r.values@[1] matches Some(FieldValue::Str(x)) && x@ == "timing"@,
            r.values@[2] matches Some(FieldValue::Str(x)) && x@ == "exit"@,
            r.values@[3] matches Some(FieldValue::Str(x)) && x@ == self.label(),
            r.values@[4] matches Some(FieldValue::I64(x)) && x == depth,
            r.values@[5] matches Some(FieldValue::F64(x)) && x == elapsed_ms,
            r.callsite.number() < final(reg)@.callsites.len(),
            final(reg)@.callsites[r.callsite.number() as int] == r.callsite@,
    {
        emit_span_event(
            reg,
            self.level,
            self.file.as_str(),
            self.line,
            self.module.as_str(),
            SpanOp::Exit,
            self.name.as_str(),
            depth,
            Some(elapsed_ms),
        )
    }

    /// `Span(name="...", entered=n, enabled=...)`.
    pub fn repr(&self, enabled: bool) -> (r: String)
        ensures
            r@ == repr_text(debug_text(self.label()), self.entries().len(), enabled),
    {
        let quoted: String = debug_quote(self.name.as_str());
        span_repr(quoted.as_str(), self.guards.len(), enabled)
    }
}

/// The text of a span, around its quoted name.
pub open spec fn repr_text(quoted_name: Seq<char>, entered: nat, enabled: bool) -> Seq<char> {
    "Span(name="@ + quoted_name + ", entered="@ + decimal_text(entered) + ", enabled="@ + (
    if enabled {
        "true"@
    } else {
        "false"@
    }) + ")"@
}

pub fn span_repr(quoted_name: &str, entered: usize, enabled: bool) -> (r: String)
    ensures
        r@ == repr_text(quoted_name@, entered as nat, enabled),
{
    let mut out: String = concat3("Span(name=", quoted_name, ", entered=");
    let count: String = decimal(entered as u64);
    out.append(count.as_str());
    out.append(", enabled=");
    if enabled {
        out.append("true");
    } else {
        out.append("false");
    }
    out.append(")");
    out
}

/// What Python is told when it assigns or deletes an attribute of a span.
pub open spec fn frozen_text(verb: Seq<char>, quoted_attribute: Seq<char>) -> Seq<char> {
    "'Span' is frozen; cannot "@ + verb + " attribute "@ + quoted_attribute
}

pub fn frozen(verb: &str, quoted_attribute: &str) -> (r: String)
    ensures
        r@ == frozen_text(verb@, quoted_attribute@),
{
    let mut out: String = concat3("'Span' is frozen; cannot ", verb, " attribute ");
    out.append(quoted_attribute);
    out
}

/// The refusal to assign `attribute`.
pub fn set_attribute_error(attribute: &str) -> (r: String)
    ensures
        r@ == frozen_text("set"@, debug_text(attribute@)),
{
    let quoted: String = debug_quote(attribute);
    frozen("set", quoted.as_str())
}

/// The refusal to delete `attribute`.
pub fn delete_attribute_error(attribute: &str) -> (r: String)
    ensures
        r@ == frozen_text("delete"@, debug_text(attribute@)),
{
    let quoted: String = debug_quote(attribute);
    frozen("delete", quoted.as_str())
}

/// A span at `level` labelled `name`, with the sorted arguments `parsed`, made
/// at `location`: the span itself, with no entry, and what the dispatcher is to
/// record of it.
pub fn make_span<'a, G>(
    reg: &mut Registry,
    level: Level,
    name: &str,
    parsed: &'a ParsedKwargs,
    location: Location,
) -> (r: (Span<G>, Emission<'a>))
    requires
        old(reg).wf(),
    ensures
        final(reg).wf(),
        r.0.label() == name@,
        r.0.severity() == level,
        r.0.source_file() == location.file@,
        r.0.source_line() == location.line,
        r.0.source_module() == location.module@,
        r.0.entries() == Seq::<G>::empty(),
        r.1.wf(),
        r.1.callsite@ == span_callsite(
            old(reg)@,
            span_metadata(
                location.file@,
                location.line,
                level,
                location.module@,
                name@,
                field_names(parsed@.fields),
            ),
        ),
        r.1.slots() == recorded_all(parsed@.fields),
        final(reg)@ == registered_span(
            old(reg)@,
            span_metadata(
                location.file@,
                location.line,
                level,
                location.module@,
                name@,
                field_names(parsed@.fields),
            ),
            seq![location.file@, python_target(location.module@), location.module@, name@]
                + field_names(parsed@.fields),
        ),
        r.1.callsite@.kind == Kind::Span,
        r.1.callsite@.level == level,
        r.1.callsite@.file == location.file@,
        r.1.callsite@.line == location.line,
        r.1.callsite@.name == name@,
        r.1.callsite@.fields.len() == parsed.fields@.len(),
        forall|i: int|
            0 <= i < parsed.fields@.len() ==> r.1.callsite@.fields[i] == (
            #[trigger] parsed.fields@[i]).0@,
        r.1.callsite.number() >= old(reg)@.callsites.len() ==> {
            &&& r.1.callsite@.target == "py:"@ + location.module@
            &&& r.1.callsite@.module == location.module@
        },
        r.1.values@.len() == parsed.fields@.len(),
        forall|i: int|
            0 <= i < parsed.fields@.len() ==> match (#[trigger] parsed.fields@[i]).1 {
                PyValue::Null => r.1.values@[i] is None,
                PyValue::Bool(b) => r.1.values@[i] matches Some(FieldValue::Bool(x)) && x == b,
                PyValue::Int(n) => r.1.values@[i] matches Some(FieldValue::I64(x)) && x == n,
                PyValue::Float(f) => r.1.values@[i] matches Some(FieldValue::F64(x)) && x == f,
                PyValue::Str(s) => r.1.values@[i] matches Some(FieldValue::Str(x)) && x@ == s@,
                _ => r.1.values@[i] matches Some(FieldValue::Tree(x)) && *x == parsed.fields@[i].1,
            },
        r.1.callsite.number() < final(reg)@.callsites.len(),
        final(reg)@.callsites[r.1.callsite.number() as int] == r.1.callsite@,
{
    proof {
        law_span_has_the_requested_signature(
            reg@,
            span_metadata(
                location.file@,
                location.line,
                level,
                location.module@,
                name@,
                field_names(parsed@.fields),
            ),
        );
    }
    let names: Vec<&str> = borrow_names(&parsed.fields);
    let callsite: &'static DynCallsite = get_span(
        reg,
        location.file.as_str(),
        location.line,
        level,
        location.module.as_str(),
        name,
        names.as_slice(),
    );
    let mut values: Vec<Option<FieldValue<'a>>> = Vec::new();
    push_slots(&mut values, &parsed.fields);
    assert(slots_model(values@) =~= recorded_all(parsed@.fields));
    assert(values@.len() == slots_model(values@).len());
    proof {
        law_parsed_says_what_it_holds(*parsed);
        let slots = slots_model(values@);
        assert forall|i: int| 0 <= i < parsed.fields@.len() implies slot_model(values@[i])
            == recorded((#[trigger] parsed.fields@[i]).1) by {
            assert(slots[i] == recorded_all(parsed@.fields)[i]);
            assert(slots[i] == slot_model(values@[i]));
        }
        assert forall|i: int| 0 <= i < parsed.fields@.len() implies callsite@.fields[i] == (
        #[trigger] parsed.fields@[i]).0@ by {
            assert(callsite@.fields[i] == field_names(parsed@.fields)[i]);
        }
    }
    let span = Span {
        name: name.to_owned(),
        level,
        file: location.file,
        line: location.line,
        module: location.module,
        guards: Vec::new(),
    };
    (span, Emission { callsite, values })
}

// ---------------------------------------------------------------------------
// Laws
// ---------------------------------------------------------------------------

/// What an entry does, the matching exit undoes: after both, the stack of
/// entries and the depth are what they were, and the guard that came back is the
/// one that was pushed.
pub proof fn law_exit_undoes_enter<G>(
    before: Span<G>,
    inside: Span<G>,
    after: Span<G>,
    guard: G,
    depth_before: SpanDepth,
    depth_inside: SpanDepth,
    depth_after: SpanDepth,
)
    requires
        inside.entries() == before.entries().push(guard),
        inside.same_span(&before),
        depth_inside@ == depth_before@ + 1,
        after.entries() == inside.entries().drop_last(),
        after.same_span(&inside),
        depth_after@ == depth_after_exit(depth_inside@ as int),
    ensures
        after.entries() == before.entries(),
        after.same_span(&before),
        inside.entries().last() == guard,
        depth_after@ == depth_before@,
{
    assert(before.entries().push(guard).drop_last() =~= before.entries());
}

/// Entries of one span are left in the reverse of the order in which they were
/// made.
pub proof fn law_entries_are_left_in_reverse<G>(
    span: Span<G>,
    once: Span<G>,
    twice: Span<G>,
    left: Span<G>,
    first: G,
    second: G,
)
    requires
        once.entries() == span.entries().push(first),
        twice.entries() == once.entries().push(second),
        left.entries() == twice.entries().drop_last(),
    ensures
        twice.entries().last() == second,
        left.entries().last() == first,
        left.entries().drop_last() == span.entries(),
{
    assert(left.entries() =~= once.entries());
    assert(left.entries().drop_last() =~= span.entries());
}

/// The two timing events of one entry differ in their end and their elapsed
/// time alone, and both stand under the category `timing`.
pub proof fn law_timing_events_agree(name: Seq<char>, depth: i64, elapsed_ms: u64)
    ensures
        ({
            let enter = timing_slots(SpanOp::Enter, name, depth, None);
            let exit = timing_slots(SpanOp::Exit, name, depth, Some(elapsed_ms));
            &&& timing_fields(Some(elapsed_ms)) == timing_fields(None).push("elapsed_ms"@)
            &&& timing_fields(None)[0] == "cat"@
            &&& enter[1] == Some(FieldModel::Str(TIMING_CAT@))
            &&& exit[1] == enter[1]
            &&& exit[3] == enter[3]
            &&& exit[4] == enter[4]
        }),
{
}

/// A timing event has the fields `cat`, `op`, `name` and `depth` behind its message,
/// and `elapsed_ms` behind those where a time is given.
pub proof fn law_timing_events_have_fixed_fields(elapsed_ms: u64)
    ensures
        timing_fields(None) == seq!["cat"@, "op"@, "name"@, "depth"@],
        timing_fields(Some(elapsed_ms)) == seq!["cat"@, "op"@, "name"@, "depth"@, "elapsed_ms"@],
{
    assert(timing_fields(Some(elapsed_ms)) =~= seq![
        "cat"@,
        "op"@,
        "name"@,
        "depth"@,
        "elapsed_ms"@,
    ]);
}

/// A timing event has no message, the category `timing`, the end of the span's life
/// that it stands for, and the name, depth and time as they were given.
pub proof fn law_timing_events_carry_what_is_given(
    name: Seq<char>,
    depth: i64,
    elapsed_ms: Option<u64>,
)
    ensures
        ({
            let enter = timing_slots(SpanOp::Enter, name, depth, elapsed_ms);
            let exit = timing_slots(SpanOp::Exit, name, depth, elapsed_ms);
            &&& enter.len() == exit.len()
            &&& enter.len() == (if elapsed_ms is Some {
                6int
            } else {
                5int
            })
            &&& enter[0] is None
            &&& exit[0] is None
            &&& enter[1] == Some(FieldModel::Str("timing"@))
            &&& exit[1] == Some(FieldModel::Str("timing"@))
            &&& enter[2] == Some(FieldModel::Str("enter"@))
            &&& exit[2] == Some(FieldModel::Str("exit"@))
            &&& enter[3] == Some(FieldModel::Str(name))
            &&& exit[3] == Some(FieldModel::Str(name))
            &&& enter[4] == Some(FieldModel::I64(depth))
            &&& exit[4] == Some(FieldModel::I64(depth))
            &&& elapsed_ms matches Some(ms) ==> {
                &&& enter[5] == Some(FieldModel::F64(ms))
                &&& exit[5] == Some(FieldModel::F64(ms))
            }
        }),
{
}

/// An exit counts one span less, and none below zero.
pub proof fn law_exit_counts_one_less(depth: int)
    requires
        depth >= 0,
    ensures
        depth > 0 ==> depth_after_exit(depth) == depth - 1,
        depth == 0 ==> depth_after_exit(depth) == 0,
{
}

/// The text of a span shows its name, the number of its entries and whether it is
/// enabled, in this order.
pub proof fn law_repr_shows_name_entries_and_state(quoted_name: Seq<char>, entered: nat)
    ensures
        repr_text(quoted_name, entered, true) == "Span(name="@ + quoted_name + ", entered="@
            + decimal_text(entered) + ", enabled="@ + "true"@ + ")"@,
        repr_text(quoted_name, entered, false) == "Span(name="@ + quoted_name + ", entered="@
            + decimal_text(entered) + ", enabled="@ + "false"@ + ")"@,
{
}

/// The refusal to change a span names what was tried and the attribute.
pub proof fn law_frozen_names_the_attribute(verb: Seq<char>, quoted_attribute: Seq<char>)
    ensures
        frozen_text(verb, quoted_attribute) == "'Span' is frozen; cannot "@ + verb + " attribute "@
            + quoted_attribute,
{
}

/// Two spans that differ in their entries at most have one label, level and place.
pub proof fn law_same_span_has_one_origin<G>(a: Span<G>, b: Span<G>)
    ensures
        a.same_span(&b) <==> {
            &&& a.label() == b.label()
            &&& a.severity() == b.severity()
            &&& a.source_file() == b.source_file()
            &&& a.source_line() == b.source_line()
            &&& a.source_module() == b.source_module()
        },
{
}

}
