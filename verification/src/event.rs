//! Events: where they come from, which callsite they use and which value goes
//! into which field.

use vstd::prelude::*;

use crate::callsite::{get_event, DynCallsite, Kind, Registry, MESSAGE_FIELD};
use crate::callsite::{event_metadata, python_target, registered, texts};
use crate::kwargs::{field_names, fields_model, law_parsed_says_what_it_holds, parsed_all};
use crate::kwargs::law_no_message_no_override;
use crate::kwargs::{KwargOutcome, ParsedKwargs, ParsedModel};
use crate::level::Level;
use crate::value::PyValue;

verus! {

// ---------------------------------------------------------------------------
// Source location
// ---------------------------------------------------------------------------

/// What a Python frame says of itself. The module is absent where the frame's
/// globals have no usable `__name__`.
pub struct Frame {
    pub filename: String,
    pub lineno: u32,
    pub module: Option<String>,
}

/// The place in the source that an event or a span is attributed to.
pub struct Location {
    pub file: String,
    pub line: u32,
    pub module: String,
}

/// The location of a frame. Where the stack is exhausted there is no frame, and
/// a sentinel location stands in.
pub fn caller_location(frame: Option<Frame>) -> (r: Location)
    ensures
        match frame {
            Some(f) => {
                &&& r.file@ == f.filename@
                &&& r.line == f.lineno
                &&& r.module@ == (match f.module {
                    Some(m) => m@,
                    None => "<unknown>"@,
                })
            },
            None => r.file@ == "<unknown>"@ && r.line == 0 && r.module@ == "<unknown>"@,
        },
{
    match frame {
        Some(f) => Location {
            file: f.filename,
            line: f.lineno,
            module: match f.module {
                Some(m) => m,
                None => "<unknown>".to_owned(),
            },
        },
        None => Location {
            file: "<unknown>".to_owned(),
            line: 0,
            module: "<unknown>".to_owned(),
        },
    }
}

// ---------------------------------------------------------------------------
// Field values
// ---------------------------------------------------------------------------

/// A value on its way into a field, in the form in which it is recorded: a
/// primitive by its own kind, anything compound as a tree. A double is held by
/// its bits.
pub enum FieldValue<'a> {
    Bool(bool),
    I64(i64),
    U64(u64),
    F64(u64),
    Str(&'a str),
    Tree(&'a PyValue),
}

/// What a field records.
pub enum FieldModel {
    Bool(bool),
    I64(i64),
    U64(u64),
    F64(u64),
    Str(Seq<char>),
    Tree(PyValue),
}

impl<'a> View for FieldValue<'a> {
    type V = FieldModel;

    open spec fn view(&self) -> FieldModel {
        match *self {
            FieldValue::Bool(b) => FieldModel::Bool(b),
            FieldValue::I64(i) => FieldModel::I64(i),
            FieldValue::U64(u) => FieldModel::U64(u),
            FieldValue::F64(f) => FieldModel::F64(f),
            FieldValue::Str(s) => FieldModel::Str(s@),
            FieldValue::Tree(v) => FieldModel::Tree(*v),
        }
    }
}

/// What a slot records, if anything.
pub open spec fn slot_model(slot: Option<FieldValue>) -> Option<FieldModel> {
    match slot {
        Some(v) => Some(v@),
        None => None,
    }
}

/// What each slot records in turn.
pub open spec fn slots_model(slots: Seq<Option<FieldValue>>) -> Seq<Option<FieldModel>> {
    Seq::new(slots.len(), |i: int| slot_model(slots[i]))
}

/// How a Python value is recorded: `None` not at all, primitives natively, and
/// lists and maps as trees.
pub open spec fn recorded(v: PyValue) -> Option<FieldModel> {
    match v {
        PyValue::Null => None,
        PyValue::Bool(b) => Some(FieldModel::Bool(b)),
        PyValue::Int(i) => Some(FieldModel::I64(i)),
        PyValue::Float(f) => Some(FieldModel::F64(f)),
        PyValue::Str(s) => Some(FieldModel::Str(s@)),
        PyValue::List(_) => Some(FieldModel::Tree(v)),
        PyValue::Dict(_) => Some(FieldModel::Tree(v)),
    }
}

/// How the values of structured fields are recorded in turn.
pub open spec fn recorded_all(fields: Seq<(Seq<char>, PyValue)>) -> Seq<Option<FieldModel>> {
    Seq::new(fields.len(), |i: int| recorded(fields[i].1))
}

pub fn field_value<'a>(v: &'a PyValue) -> (r: Option<FieldValue<'a>>)
    ensures
        slot_model(r) == recorded(*v),
        r is None <==> *v is Null,
        *v matches PyValue::Bool(b) ==> r == Some(FieldValue::<'a>::Bool(b)),
        *v matches PyValue::Int(i) ==> r == Some(FieldValue::<'a>::I64(i)),
        *v matches PyValue::Float(f) ==> r == Some(FieldValue::<'a>::F64(f)),
        *v matches PyValue::Str(s) ==> (r matches Some(FieldValue::Str(x)) && x@ == s@),
        *v is List || *v is Dict ==> (r matches Some(FieldValue::Tree(t)) && *t == *v),
{
    match v {
        PyValue::Null => None,
        PyValue::Bool(b) => Some(FieldValue::Bool(*b)),
        PyValue::Int(i) => Some(FieldValue::I64(*i)),
        PyValue::Float(f) => Some(FieldValue::F64(*f)),
        PyValue::Str(s) => Some(FieldValue::Str(s.as_str())),
        PyValue::List(_) => Some(FieldValue::Tree(v)),
        PyValue::Dict(_) => Some(FieldValue::Tree(v)),
    }
}

/// An event or a span about to be handed to the dispatcher: its callsite, and a
/// slot for each field of the callsite, in order.
pub struct Emission<'a> {
    pub callsite: &'static DynCallsite,
    pub values: Vec<Option<FieldValue<'a>>>,
}

impl<'a> Emission<'a> {
    /// There is exactly one slot for each field.
    pub open spec fn wf(&self) -> bool {
        self.values@.len() == self.callsite@.fields.len()
    }

    /// What the slots record.
    pub open spec fn slots(&self) -> Seq<Option<FieldModel>> {
        slots_model(self.values@)
    }
}

/// The names of structured fields, borrowed.
pub(crate) fn borrow_names<'a>(fields: &'a Vec<(String, PyValue)>) -> (r: Vec<&'a str>)
    ensures
        texts(r@) == field_names(fields_model(fields@)),
{
    let mut out: Vec<&'a str> = Vec::new();
    let n: usize = fields.len();
    let mut i: usize = 0;
    while i < n
        invariant
            n == fields@.len(),
            i <= n,
            out@.len() == i,
            forall|j: int| 0 <= j < i ==> (#[trigger] out@[j])@ == fields@[j].0@,
        decreases n - i,
    {
        out.push(fields[i].0.as_str());
        i = i + 1;
    }
    assert(texts(out@) =~= field_names(fields_model(fields@)));
    out
}

/// The slots of structured fields, behind those already in `out`.
pub(crate) fn push_slots<'a>(
    out: &mut Vec<Option<FieldValue<'a>>>,
    fields: &'a Vec<(String, PyValue)>,
)
    ensures
        slots_model(final(out)@) == slots_model(old(out)@) + recorded_all(fields_model(fields@)),
{
    let ghost all = recorded_all(fields_model(fields@));
    let n: usize = fields.len();
    let mut i: usize = 0;
    assert(slots_model(out@) =~= slots_model(old(out)@) + all.subrange(0, 0));
    while i < n
        invariant
            n == fields@.len(),
            i <= n,
            all == recorded_all(fields_model(fields@)),
            slots_model(out@) == slots_model(old(out)@) + all.subrange(0, i as int),
        decreases n - i,
    {
        let ghost before = out@;
        let slot: Option<FieldValue<'a>> = field_value(&fields[i].1);
        out.push(slot);
        assert(all[i as int] == slot_model(slot));
        assert(slots_model(out@) =~= slots_model(before).push(slot_model(slot)));
        assert(slots_model(out@) =~= slots_model(old(out)@) + all.subrange(0, i + 1));
        i = i + 1;
    }
    assert(all.subrange(0, n as int) =~= all);
}

/// The human-readable line of an event: the `message=` override, or the
/// positional argument.
pub open spec fn message_of(positional: Seq<char>, p: ParsedModel) -> Seq<char> {
    match p.message {
        Some(m) => m,
        None => positional,
    }
}

/// The event of a call at `level` with the positional message
/// `msg_positional` and the sorted arguments `parsed`, made at `location`.
pub fn emit<'a>(
    reg: &mut Registry,
    level: Level,
    msg_positional: &'a str,
    parsed: &'a ParsedKwargs,
    location: &Location,
) -> (r: Emission<'a>)
    requires
        old(reg).wf(),
    ensures
        final(reg).wf(),
        r.wf(),
        r.callsite@ == event_metadata(
            location.file@,
            location.line,
            level,
            python_target(location.module@),
            location.module@,
            field_names(parsed@.fields),
        ),
        r.slots() == seq![Some(FieldModel::Str(message_of(msg_positional@, parsed@)))]
            + recorded_all(parsed@.fields),
        final(reg)@ == registered(
            old(reg)@,
            r.callsite@,
            seq![location.file@, python_target(location.module@), location.module@]
                + field_names(parsed@.fields),
        ),
        r.callsite@.kind == Kind::Event,
        r.callsite@.level == level,
        r.callsite@.file == location.file@,
        r.callsite@.line == location.line,
        r.callsite@.target == "py:"@ + location.module@,
        r.callsite@.module == location.module@,
        r.callsite@.fields.len() == parsed.fields@.len() + 1,
        r.callsite@.fields[0] == "message"@,
        forall|i: int|
            0 <= i < parsed.fields@.len() ==> r.callsite@.fields[i + 1] == (
            #[trigger] parsed.fields@[i]).0@,
        r.values@.len() == parsed.fields@.len() + 1,
        r.values@[0] matches Some(FieldValue::Str(m)) && m@ == (match parsed.message {
            Some(s) => s@,
            None => msg_positional@,
        }),
        forall|i: int|
            0 <= i < parsed.fields@.len() ==> match (#[trigger] parsed.fields@[i]).1 {
                PyValue::Null => r.values@[i + 1] is None,
                PyValue::Bool(b) => r.values@[i + 1] matches Some(FieldValue::Bool(x)) && x == b,
                PyValue::Int(n) => r.values@[i + 1] matches Some(FieldValue::I64(x)) && x == n,
                PyValue::Float(f) => r.values@[i + 1] matches Some(FieldValue::F64(x)) && x == f,
                PyValue::Str(s) => r.values@[i + 1] matches Some(FieldValue::Str(x)) && x@ == s@,
                _ => r.values@[i + 1] matches Some(FieldValue::Tree(x)) && *x == parsed.fields@[i].1,
            },
        r.callsite.number() < final(reg)@.callsites.len(),
        final(reg)@.callsites[r.callsite.number() as int] == r.callsite@,
{
    let msg: &'a str = match &parsed.message {
        Some(m) => m.as_str(),
        None => msg_positional,
    };
    let names: Vec<&str> = borrow_names(&parsed.fields);
    let callsite: &'static DynCallsite = get_event(
        reg,
        location.file.as_str(),
        location.line,
        level,
        location.module.as_str(),
        names.as_slice(),
    );
    let mut values: Vec<Option<FieldValue<'a>>> = Vec::new();
    values.push(Some(FieldValue::Str(msg)));
    assert(slots_model(values@) =~= seq![
        Some(FieldModel::Str(message_of(msg_positional@, parsed@))),
    ]);
    push_slots(&mut values, &parsed.fields);
    assert(values@.len() == slots_model(values@).len());
    proof {
        law_parsed_says_what_it_holds(*parsed);
        let slots = slots_model(values@);
        assert(slots[0] == slot_model(values@[0]));
        assert forall|i: int| 0 <= i < parsed.fields@.len() implies slot_model(values@[i + 1])
            == recorded((#[trigger] parsed.fields@[i]).1) by {
            assert(slots[i + 1] == recorded_all(parsed@.fields)[i]);
            assert(slots[i + 1] == slot_model(values@[i + 1]));
        }
        assert forall|i: int| 0 <= i < parsed.fields@.len() implies callsite@.fields[i + 1] == (
        #[trigger] parsed.fields@[i]).0@ by {
            assert(callsite@.fields[i + 1] == field_names(parsed@.fields)[i]);
        }
    }
    Emission { callsite, values }
}

/// A `message=` argument is the line of the event, whatever the positional
/// argument says.
pub proof fn law_message_overrides_the_positional(
    positional: Seq<char>,
    items: Seq<(Seq<char>, KwargOutcome)>,
    i: int,
    text: String,
)
    requires
        0 <= i < items.len(),
        items[i] == (MESSAGE_FIELD@, KwargOutcome::Text(text)),
        forall|j: int| i < j < items.len() ==> (#[trigger] items[j]).0 != MESSAGE_FIELD@,
    ensures
        message_of(positional, parsed_all(Kind::Event, items)) == text@,
    decreases items.len(),
{
    if i < items.len() - 1 {
        law_message_overrides_the_positional(positional, items.drop_last(), i, text);
        assert(items.last().0 != MESSAGE_FIELD@);
    }
}

/// Every argument of an event becomes one field under its own name, behind the
/// message: field `i + 1` is the `i`th argument, and its slot records that
/// argument's value.
pub proof fn law_each_kwarg_is_a_field(
    file: Seq<char>,
    line: u32,
    level: Level,
    module: Seq<char>,
    positional: Seq<char>,
    p: ParsedModel,
    i: int,
)
    requires
        0 <= i < p.fields.len(),
    ensures
        ({
            let meta = event_metadata(
                file,
                line,
                level,
                python_target(module),
                module,
                field_names(p.fields),
            );
            let slots = seq![Some(FieldModel::Str(message_of(positional, p)))] + recorded_all(
                p.fields,
            );
            &&& meta.fields.len() == slots.len()
            &&& meta.fields[0] == MESSAGE_FIELD@
            &&& slots[0] == Some(FieldModel::Str(message_of(positional, p)))
            &&& meta.fields[i + 1] == p.fields[i].0
            &&& slots[i + 1] == recorded(p.fields[i].1)
        }),
{
}

/// A value is recorded by its own kind and unchanged, every bool, integer, double
/// and text as itself, and a list or a map as the tree that it is. Nothing is
/// recorded for `None`, and for `None` alone.
pub proof fn law_values_are_recorded_as_they_are(v: PyValue)
    ensures
        recorded(v) is None <==> v is Null,
        v matches PyValue::Bool(b) ==> recorded(v) == Some(FieldModel::Bool(b)),
        v matches PyValue::Int(i) ==> recorded(v) == Some(FieldModel::I64(i)),
        v matches PyValue::Float(f) ==> recorded(v) == Some(FieldModel::F64(f)),
        v matches PyValue::Str(s) ==> recorded(v) == Some(FieldModel::Str(s@)),
        v is List || v is Dict ==> recorded(v) == Some(FieldModel::Tree(v)),
{
}

/// Two values that are recorded alike are the same value, up to the place where
/// the characters of a text are kept.
pub proof fn law_different_values_are_recorded_differently(a: PyValue, b: PyValue)
    requires
        recorded(a) == recorded(b),
    ensures
        a is Str && b is Str ==> a->Str_0@ == b->Str_0@,
        !(a is Str && b is Str) ==> a == b,
{
}

/// Values are recorded one by one, each at its own place.
pub proof fn law_slots_follow_the_fields(fields: Seq<(Seq<char>, PyValue)>, i: int)
    requires
        0 <= i < fields.len(),
    ensures
        recorded_all(fields).len() == fields.len(),
        recorded_all(fields)[i] == recorded(fields[i].1),
{
}

/// What a slot says is what it holds.
pub proof fn law_slots_say_what_they_hold(slot: Option<FieldValue>)
    ensures
        slot_model(slot) is None <==> slot is None,
        slot matches Some(FieldValue::Bool(b)) ==> slot_model(slot) == Some(FieldModel::Bool(b)),
        slot matches Some(FieldValue::I64(i)) ==> slot_model(slot) == Some(FieldModel::I64(i)),
        slot matches Some(FieldValue::U64(u)) ==> slot_model(slot) == Some(FieldModel::U64(u)),
        slot matches Some(FieldValue::F64(f)) ==> slot_model(slot) == Some(FieldModel::F64(f)),
        slot matches Some(FieldValue::Str(s)) ==> slot_model(slot) == Some(FieldModel::Str(s@)),
        slot matches Some(FieldValue::Tree(t)) ==> slot_model(slot) == Some(FieldModel::Tree(*t)),
{
}

/// Without a `message=` argument the positional argument is the line of the event.
pub proof fn law_positional_is_the_line_without_a_message(
    positional: Seq<char>,
    items: Seq<(Seq<char>, KwargOutcome)>,
)
    requires
        forall|i: int| 0 <= i < items.len() ==> (#[trigger] items[i]).0 != "message"@,
    ensures
        message_of(positional, parsed_all(Kind::Event, items)) == positional,
{
    law_no_message_no_override(Kind::Event, items);
}

/// The slots of an emission are its values, one by one.
pub proof fn law_slots_are_the_values(e: Emission, i: int)
    requires
        0 <= i < e.values@.len(),
    ensures
        e.slots().len() == e.values@.len(),
        e.slots()[i] == slot_model(e.values@[i]),
        e.wf() <==> e.values@.len() == e.callsite@.fields.len(),
{
}

}
