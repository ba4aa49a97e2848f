//! The handshake between cdylibs, and the events that cross it.
//!
//! Every cdylib has its own copy of the `tracing` dispatcher. A host cdylib
//! installs a forwarding subscriber, which flattens each of its events into
//! [`ForeignField`]s and submits them over a table of C functions. The owner of
//! the table rebuilds the event and runs it through its own layers.

use vstd::prelude::*;
use vstd::string::StringExecFns;
use vstd::utf8::encode_utf8;

use crate::callsite::{get_event_full, DynCallsite, Kind, Registry, MESSAGE_FIELD};
use crate::callsite::{event_metadata, registered, texts};
use crate::event::{slot_model, slots_model, Emission, FieldModel, FieldValue};
use crate::level::{level_byte, level_from_byte, Level, LevelFilter};
use crate::level::{admitted, law_level_byte_round_trip, level_byte_of, level_of_byte};
use crate::text::{bytes_eq, concat2, concat3, debug_quote, decimal, lossy};
use crate::text::{ptr_to_str, str_eq, str_of_utf8};
use crate::text::{bytes_model, debug_text, decimal_text, foreign_text, lossy_text};
use crate::text::law_text_survives_the_boundary;

verus! {

/// Bumped whenever the layout of the table changes in a way that is not
/// backwards compatible. A consumer refuses an older table.
pub const CAPSULE_VERSION: u32 = 2;

/// Name under which the table is looked up.
pub const CAPSULE_NAME: &'static str = "trapy._capsule";

pub const FIELD_KIND_NULL: u8 = 0;
pub const FIELD_KIND_BOOL: u8 = 1;
pub const FIELD_KIND_I64: u8 = 2;
pub const FIELD_KIND_U64: u8 = 3;
pub const FIELD_KIND_F64: u8 = 4;
pub const FIELD_KIND_STR: u8 = 5;

// ---------------------------------------------------------------------------
// Fields on the boundary
// ---------------------------------------------------------------------------

/// One typed field on its way over the boundary. The kind says which of the
/// values counts. A null pointer is `None`, a double is held by its bits.
pub struct ForeignField<'a> {
    pub name: Option<&'a [u8]>,
    pub kind: u8,
    pub bool_val: u8,
    pub i64_val: i64,
    pub u64_val: u64,
    pub f64_val: u64,
    pub str_val: Option<&'a [u8]>,
}

/// A named value, or a name alone.
pub struct NamedSlot {
    pub name: Seq<char>,
    pub value: Option<FieldModel>,
}

/// What a field from the other side says. A kind that is not known says
/// nothing.
pub open spec fn foreign_slot(f: ForeignField) -> NamedSlot {
    NamedSlot {
        name: foreign_text(bytes_model(f.name)),
        value: if f.kind == FIELD_KIND_BOOL {
            Some(FieldModel::Bool(f.bool_val != 0))
        } else if f.kind == FIELD_KIND_I64 {
            Some(FieldModel::I64(f.i64_val))
        } else if f.kind == FIELD_KIND_U64 {
            Some(FieldModel::U64(f.u64_val))
        } else if f.kind == FIELD_KIND_F64 {
            Some(FieldModel::F64(f.f64_val))
        } else if f.kind == FIELD_KIND_STR {
            Some(FieldModel::Str(foreign_text(bytes_model(f.str_val))))
        } else {
            None
        },
    }
}

/// What each field from the other side says.
pub open spec fn foreign_slots(fields: Seq<ForeignField>) -> Seq<NamedSlot> {
    Seq::new(fields.len(), |i: int| foreign_slot(fields[i]))
}

/// The human-readable line among named values: the last one called `message`
/// that is a string. There is no line, an empty one, where none is.
pub open spec fn message_among(slots: Seq<NamedSlot>) -> Seq<char>
    decreases slots.len(),
{
    if slots.len() == 0 {
        ""@
    } else {
        match slots.last().value {
            Some(FieldModel::Str(s)) => if slots.last().name == MESSAGE_FIELD@ {
                s
            } else {
                message_among(slots.drop_last())
            },
            _ => message_among(slots.drop_last()),
        }
    }
}

/// The named values that are not called `message`, in order.
pub open spec fn other_slots(slots: Seq<NamedSlot>) -> Seq<NamedSlot>
    decreases slots.len(),
{
    if slots.len() == 0 {
        Seq::empty()
    } else if slots.last().name == MESSAGE_FIELD@ {
        other_slots(slots.drop_last())
    } else {
        other_slots(slots.drop_last()).push(slots.last())
    }
}

/// The names in a list of named values.
pub open spec fn slot_names(slots: Seq<NamedSlot>) -> Seq<Seq<char>> {
    Seq::new(slots.len(), |i: int| slots[i].name)
}

/// The values in a list of named values.
pub open spec fn slot_values(slots: Seq<NamedSlot>) -> Seq<Option<FieldModel>> {
    Seq::new(slots.len(), |i: int| slots[i].value)
}

/// The slot of the human-readable line: unset where the line is empty.
pub open spec fn message_slot(message: Seq<char>) -> Option<FieldModel> {
    if message.len() == 0 {
        None
    } else {
        Some(FieldModel::Str(message))
    }
}

/// What a field from the other side records, if anything.
pub fn foreign_value<'a>(f: &ForeignField<'a>) -> (r: Option<FieldValue<'a>>)
    ensures
        slot_model(r) == foreign_slot(*f).value,
        r is Some <==> 1 <= f.kind <= 5,
        f.kind == 1 ==> r == Some(FieldValue::<'a>::Bool(f.bool_val != 0)),
        f.kind == 2 ==> r == Some(FieldValue::<'a>::I64(f.i64_val)),
        f.kind == 3 ==> r == Some(FieldValue::<'a>::U64(f.u64_val)),
        f.kind == 4 ==> r == Some(FieldValue::<'a>::F64(f.f64_val)),
        f.kind == 5 ==> (r matches Some(FieldValue::Str(x)) && x@ == foreign_text(
            bytes_model(f.str_val),
        )),
{
    if f.kind == FIELD_KIND_BOOL {
        Some(FieldValue::Bool(f.bool_val != 0))
    } else if f.kind == FIELD_KIND_I64 {
        Some(FieldValue::I64(f.i64_val))
    } else if f.kind == FIELD_KIND_U64 {
        Some(FieldValue::U64(f.u64_val))
    } else if f.kind == FIELD_KIND_F64 {
        Some(FieldValue::F64(f.f64_val))
    } else if f.kind == FIELD_KIND_STR {
        Some(FieldValue::Str(ptr_to_str(f.str_val)))
    } else {
        None
    }
}

// ---------------------------------------------------------------------------
// Receiving an event
// ---------------------------------------------------------------------------

/// The level at which a submitted event is dispatched, if it is: a subscriber
/// was installed, the byte is not `LEVEL_OFF`, and the filter admits the level.
pub open spec fn submitted_level(installed: bool, level: u8, filter: u8) -> Option<Level> {
    match level_of_byte(level) {
        Some(l) => if installed && admitted(l, filter) {
            Some(l)
        } else {
            None
        },
        None => None,
    }
}

/// Rebuilds an event that was submitted over the boundary, or drops it. A text
/// that is `None` came as a null pointer. `installed` is whether a subscriber
/// was installed on this side.
pub fn cap_submit_event<'a>(
    reg: &mut Registry,
    filter: &LevelFilter,
    installed: bool,
    level: u8,
    target: Option<&[u8]>,
    file: Option<&[u8]>,
    line_no: u32,
    module: Option<&[u8]>,
    fields: &[ForeignField<'a>],
) -> (r: Option<Emission<'a>>)
    requires
        old(reg).wf(),
    ensures
        final(reg).wf(),
        match submitted_level(installed, level, filter@) {
            Some(l) => {
                let slots = foreign_slots(fields@);
                let others = other_slots(slots);
                &&& r matches Some(e) && {
                    &&& e.wf()
                    &&& e.callsite@ == event_metadata(
                        foreign_text(bytes_model(file)),
                        line_no,
                        l,
                        foreign_text(bytes_model(target)),
                        foreign_text(bytes_model(module)),
                        slot_names(others),
                    )
                    &&& e.slots() == seq![message_slot(message_among(slots))] + slot_values(others)
                    &&& final(reg)@ == registered(
                        old(reg)@,
                        e.callsite@,
                        seq![
                            foreign_text(bytes_model(file)),
                            foreign_text(bytes_model(target)),
                            foreign_text(bytes_model(module)),
                        ] + slot_names(others),
                    )
                    &&& e.callsite.number() < final(reg)@.callsites.len()
                    &&& final(reg)@.callsites[e.callsite.number() as int] == e.callsite@
                }
            },
            None => r is None && *final(reg) == *old(reg),
        },
        r is Some <==> installed && level != 0 && (if level < 5 {
            level <= filter@
        } else {
            filter@ >= 5
        }),
        r matches Some(e) ==> {
            &&& e.callsite@.kind == Kind::Event
            &&& e.callsite@.line == line_no
            &&& level == 1 ==> e.callsite@.level == Level::Error
            &&& level == 2 ==> e.callsite@.level == Level::Warn
            &&& level == 3 ==> e.callsite@.level == Level::Info
            &&& level == 4 ==> e.callsite@.level == Level::Debug
            &&& level >= 5 ==> e.callsite@.level == Level::Trace
            &&& e.callsite@.file == foreign_text(bytes_model(file))
            &&& e.callsite@.target == foreign_text(bytes_model(target))
            &&& e.callsite@.module == foreign_text(bytes_model(module))
            &&& e.callsite@.fields[0] == "message"@
            &&& e.values@.len() == e.callsite@.fields.len()
        },
{
    let lvl: Level = match level_from_byte(level) {
        Some(l) => l,
        None => {
            return None;
        },
    };
    if !installed || !filter.admits(&lvl) {
        return None;
    }
    let target_str: &str = ptr_to_str(target);
    let file_str: &str = ptr_to_str(file);
    let module_str: &str = ptr_to_str(module);

    let ghost slots = foreign_slots(fields@);
    let mut message: &'a str = "";
    let mut names: Vec<&'a str> = Vec::new();
    let mut rest: Vec<Option<FieldValue<'a>>> = Vec::new();
    let n: usize = fields.len();
    let mut i: usize = 0;
    assert(slots.subrange(0, 0) =~= Seq::<NamedSlot>::empty());
    assert(texts(names@) =~= slot_names(other_slots(slots.subrange(0, 0))));
    assert(slots_model(rest@) =~= slot_values(other_slots(slots.subrange(0, 0))));
    while i < n
        invariant
            n == fields@.len(),
            i <= n,
            slots == foreign_slots(fields@),
            message@ == message_among(slots.subrange(0, i as int)),
            texts(names@) == slot_names(other_slots(slots.subrange(0, i as int))),
            slots_model(rest@) == slot_values(other_slots(slots.subrange(0, i as int))),
        decreases n - i,
    {
        let f: &ForeignField<'a> = &fields[i];
        let name: &'a str = ptr_to_str(f.name);
        let ghost part = slots.subrange(0, i + 1);
        let ghost names_before = names@;
        let ghost rest_before = rest@;
        assert(part.drop_last() =~= slots.subrange(0, i as int));
        assert(part.last() == foreign_slot(*f));
        if str_eq(name, MESSAGE_FIELD) {
            if f.kind == FIELD_KIND_STR {
                message = ptr_to_str(f.str_val);
            }
        } else {
            let slot: Option<FieldValue<'a>> = foreign_value(f);
            names.push(name);
            rest.push(slot);
            assert(texts(names@) =~= texts(names_before).push(name@));
            assert(slots_model(rest@) =~= slots_model(rest_before).push(slot_model(slot)));
            assert(texts(names@) =~= slot_names(other_slots(part)));
            assert(slots_model(rest@) =~= slot_values(other_slots(part)));
        }
        i = i + 1;
    }
    assert(slots.subrange(0, n as int) =~= slots);

    let callsite: &'static DynCallsite = get_event_full(
        reg,
        file_str,
        line_no,
        lvl,
        target_str,
        module_str,
        names.as_slice(),
    );
    let mut values: Vec<Option<FieldValue<'a>>> = Vec::new();
    values.push(
        if message.is_empty() {
            None
        } else {
            Some(FieldValue::Str(message))
        },
    );
    let ghost head = values@;
    assert(slots_model(head) =~= seq![message_slot(message@)]);
    let ghost tail = rest@;
    values.append(&mut rest);
    assert(slots_model(values@) =~= slots_model(head) + slots_model(tail));
    assert(values@.len() == slots_model(values@).len());
    Some(Emission { callsite, values })
}

// ---------------------------------------------------------------------------
// Forwarding an event
// ---------------------------------------------------------------------------

/// A field value captured from a host's event. A double is held by its bits.
#[derive(Debug, PartialEq)]
pub enum OwnedFieldVal {
    Bool(bool),
    I64(i64),
    U64(u64),
    F64(u64),
    Str(String),
}

/// What a captured value records.
pub open spec fn owned_value(v: OwnedFieldVal) -> FieldModel {
    match v {
        OwnedFieldVal::Bool(b) => FieldModel::Bool(b),
        OwnedFieldVal::I64(i) => FieldModel::I64(i),
        OwnedFieldVal::U64(u) => FieldModel::U64(u),
        OwnedFieldVal::F64(f) => FieldModel::F64(f),
        OwnedFieldVal::Str(s) => FieldModel::Str(s@),
    }
}

/// The fields captured from a host's event, in the order of the visit.
pub struct ForeignVisitor {
    fields: Vec<(String, OwnedFieldVal)>,
}

impl View for ForeignVisitor {
    type V = Seq<NamedSlot>;

    closed spec fn view(&self) -> Seq<NamedSlot> {
        Seq::new(
            self.fields@.len(),
            |i: int|
                NamedSlot {
                    name: self.fields@[i].0@,
                    value: Some(owned_value(self.fields@[i].1)),
                },
        )
    }
}

/// A named value that is there.
pub open spec fn named(name: Seq<char>, value: FieldModel) -> NamedSlot {
    NamedSlot { name, value: Some(value) }
}

impl ForeignVisitor {
    pub fn new() -> (r: Self)
        ensures
            r@ == Seq::<NamedSlot>::empty(),
    {
        let r = ForeignVisitor { fields: Vec::new() };
        assert(r@ =~= Seq::<NamedSlot>::empty());
        r
    }

    pub fn push(&mut self, name: &str, v: OwnedFieldVal)
        ensures
            final(self)@ == old(self)@.push(named(name@, owned_value(v))),
    {
        self.fields.push((name.to_owned(), v));
        assert(self@ =~= old(self)@.push(named(name@, owned_value(v))));
    }

    pub fn record_str(&mut self, name: &str, value: &str)
        ensures
            final(self)@ == old(self)@.push(named(name@, FieldModel::Str(value@))),
    {
        self.push(name, OwnedFieldVal::Str(value.to_owned()));
    }

    /// Records a value of any other kind by its text.
    pub fn record_text(&mut self, name: &str, text: String)
        ensures
            final(self)@ == old(self)@.push(named(name@, FieldModel::Str(text@))),
    {
        self.push(name, OwnedFieldVal::Str(text));
    }

    pub fn record_i64(&mut self, name: &str, value: i64)
        ensures
            final(self)@ == old(self)@.push(named(name@, FieldModel::I64(value))),
    {
        self.push(name, OwnedFieldVal::I64(value));
    }

    pub fn record_u64(&mut self, name: &str, value: u64)
        ensures
            final(self)@ == old(self)@.push(named(name@, FieldModel::U64(value))),
    {
        self.push(name, OwnedFieldVal::U64(value));
    }

    /// Records a double by its bits.
    pub fn record_f64(&mut self, name: &str, bits: u64)
        ensures
            final(self)@ == old(self)@.push(named(name@, FieldModel::F64(bits))),
    {
        self.push(name, OwnedFieldVal::F64(bits));
    }

    pub fn record_bool(&mut self, name: &str, value: bool)
        ensures
            final(self)@ == old(self)@.push(named(name@, FieldModel::Bool(value))),
    {
        self.push(name, OwnedFieldVal::Bool(value));
    }

    /// The captured fields in the form in which they cross the boundary.
    pub fn pack<'a>(&'a self) -> (r: Vec<ForeignField<'a>>)
        ensures
            wire_models(r@) == wires_of(self@),
            foreign_slots(r@) == self@,
    {
        let mut out: Vec<ForeignField<'a>> = Vec::new();
        let n: usize = self.fields.len();
        let mut i: usize = 0;
        while i < n
            invariant
                n == self.fields@.len(),
                i <= n,
                out@.len() == i,
                forall|j: int|
                    0 <= j < i ==> {
                        &&& wire_model(#[trigger] out@[j]) == wire_of(self@[j])
                        &&& foreign_slot(out@[j]) == self@[j]
                    },
            decreases n - i,
        {
            let f: ForeignField<'a> = pack_field(self.fields[i].0.as_str(), &self.fields[i].1);
            out.push(f);
            i = i + 1;
        }
        assert(wire_models(out@) =~= wires_of(self@));
        assert(foreign_slots(out@) =~= self@);
        out
    }
}

/// A field as it is laid out on the boundary.
#[verifier::ext_equal]
pub struct WireModel {
    pub name: Option<Seq<u8>>,
    pub kind: u8,
    pub bool_val: u8,
    pub i64_val: i64,
    pub u64_val: u64,
    pub f64_val: u64,
    pub str_val: Option<Seq<u8>>,
}

/// How a field is laid out.
pub open spec fn wire_model(f: ForeignField) -> WireModel {
    WireModel {
        name: bytes_model(f.name),
        kind: f.kind,
        bool_val: f.bool_val,
        i64_val: f.i64_val,
        u64_val: f.u64_val,
        f64_val: f.f64_val,
        str_val: bytes_model(f.str_val),
    }
}

/// How each field is laid out.
pub open spec fn wire_models(fields: Seq<ForeignField>) -> Seq<WireModel> {
    Seq::new(fields.len(), |i: int| wire_model(fields[i]))
}

/// A field that carries a name alone.
pub open spec fn wire_null(name: Seq<char>) -> WireModel {
    WireModel {
        name: Some(encode_utf8(name)),
        kind: FIELD_KIND_NULL,
        bool_val: 0,
        i64_val: 0,
        u64_val: 0,
        f64_val: 0,
        str_val: None,
    }
}

/// The layout of a named value: its name and its text in UTF-8, a bool as one or
/// zero, and zero or null in every place that its kind does not select.
pub open spec fn wire_of(slot: NamedSlot) -> WireModel {
    let null = wire_null(slot.name);
    match slot.value {
        Some(FieldModel::Bool(b)) => WireModel {
            kind: FIELD_KIND_BOOL,
            bool_val: if b {
                1
            } else {
                0
            },
            ..null
        },
        Some(FieldModel::I64(i)) => WireModel { kind: FIELD_KIND_I64, i64_val: i, ..null },
        Some(FieldModel::U64(u)) => WireModel { kind: FIELD_KIND_U64, u64_val: u, ..null },
        Some(FieldModel::F64(f)) => WireModel { kind: FIELD_KIND_F64, f64_val: f, ..null },
        Some(FieldModel::Str(s)) => WireModel {
            kind: FIELD_KIND_STR,
            str_val: Some(encode_utf8(s)),
            ..null
        },
        _ => null,
    }
}

/// The layout of each named value.
pub open spec fn wires_of(slots: Seq<NamedSlot>) -> Seq<WireModel> {
    Seq::new(slots.len(), |i: int| wire_of(slots[i]))
}

/// One captured field in the form in which it crosses the boundary.
fn pack_field<'a>(name: &'a str, val: &'a OwnedFieldVal) -> (r: ForeignField<'a>)
    ensures
        wire_model(r) == wire_of(named(name@, owned_value(*val))),
        foreign_slot(r) == named(name@, owned_value(*val)),
{
    proof {
        law_text_survives_the_boundary(name@);
    }
    let mut f = ForeignField {
        name: Some(name.as_bytes()),
        kind: FIELD_KIND_NULL,
        bool_val: 0,
        i64_val: 0,
        u64_val: 0,
        f64_val: 0,
        str_val: None,
    };
    match val {
        OwnedFieldVal::Bool(b) => {
            f.kind = FIELD_KIND_BOOL;
            f.bool_val = if *b {
                1
            } else {
                0
            };
        },
        OwnedFieldVal::I64(i) => {
            f.kind = FIELD_KIND_I64;
            f.i64_val = *i;
        },
        OwnedFieldVal::U64(u) => {
            f.kind = FIELD_KIND_U64;
            f.u64_val = *u;
        },
        OwnedFieldVal::F64(x) => {
            f.kind = FIELD_KIND_F64;
            f.f64_val = *x;
        },
        OwnedFieldVal::Str(s) => {
            f.kind = FIELD_KIND_STR;
            f.str_val = Some(s.as_str().as_bytes());
            proof {
                law_text_survives_the_boundary(s@);
            }
        },
    }
    f
}

/// What a host's event says of itself.
pub struct EventSource<'a> {
    pub level: Level,
    pub target: &'a str,
    pub file: Option<&'a str>,
    pub line: Option<u32>,
    pub module: Option<&'a str>,
}

/// An event flattened for the boundary.
pub struct Submission<'a> {
    pub level: u8,
    pub target: &'a [u8],
    pub file: &'a [u8],
    pub line_no: u32,
    pub module: &'a [u8],
    pub fields: Vec<ForeignField<'a>>,
}

/// A text that may be missing.
pub open spec fn text_or_empty(s: Option<&str>) -> Seq<char> {
    match s {
        Some(t) => t@,
        None => ""@,
    }
}

/// Whether a host's events at level `l` are wanted on the other side, whose
/// filter byte is `filter`.
pub fn enabled(l: &Level, filter: u8) -> (r: bool)
    ensures
        r == admitted(*l, filter),
        r == match *l {
            Level::Error => filter >= 1,
            Level::Warn => filter >= 2,
            Level::Info => filter >= 3,
            Level::Debug => filter >= 4,
            Level::Trace => filter >= 5,
        },
{
    level_byte(l) <= filter
}

/// Flattens a host's event, or drops it where the filter byte of the other side
/// does not admit its level.
pub fn forward_event<'a>(
    filter: u8,
    source: &EventSource<'a>,
    visitor: &'a ForeignVisitor,
) -> (r: Option<Submission<'a>>)
    ensures
        r is Some <==> admitted(source.level, filter),
        r is Some <==> match source.level {
            Level::Error => filter >= 1,
            Level::Warn => filter >= 2,
            Level::Info => filter >= 3,
            Level::Debug => filter >= 4,
            Level::Trace => filter >= 5,
        },
        r matches Some(s) ==> {
            &&& source.level == Level::Error <==> s.level == 1
            &&& source.level == Level::Warn <==> s.level == 2
            &&& source.level == Level::Info <==> s.level == 3
            &&& source.level == Level::Debug <==> s.level == 4
            &&& source.level == Level::Trace <==> s.level == 5
            &&& source.file matches Some(t) ==> s.file@ == encode_utf8(t@)
            &&& source.module matches Some(t) ==> s.module@ == encode_utf8(t@)
        },
        r matches Some(s) ==> {
            &&& s.level == level_byte_of(source.level)
            &&& s.target@ == encode_utf8(source.target@)
            &&& s.file@ == encode_utf8(text_or_empty(source.file))
            &&& s.line_no == (match source.line {
                Some(n) => n,
                None => 0,
            })
            &&& s.module@ == encode_utf8(text_or_empty(source.module))
            &&& wire_models(s.fields@) == wires_of(visitor@)
            &&& foreign_slots(s.fields@) == visitor@
        },
{
    if !enabled(&source.level, filter) {
        return None;
    }
    let file: &'a str = match source.file {
        Some(s) => s,
        None => "",
    };
    let module: &'a str = match source.module {
        Some(s) => s,
        None => "",
    };
    Some(
        Submission {
            level: level_byte(&source.level),
            target: source.target.as_bytes(),
            file: file.as_bytes(),
            line_no: source.line.unwrap_or(0),
            module: module.as_bytes(),
            fields: visitor.pack(),
        },
    )
}

/// A forwarded event arrives as it was: what [`cap_submit_event`] rebuilds from
/// the pieces that [`forward_event`] sends has the level, target, file, line and
/// module of the host's event, its message, and every other field under its name
/// with its value, in order.
pub proof fn law_forwarded_event_arrives(
    filter: u8,
    source: EventSource,
    visitor: ForeignVisitor,
    sent: Submission,
)
    requires
        admitted(source.level, filter),
        sent.level == level_byte_of(source.level),
        sent.target@ == encode_utf8(source.target@),
        sent.file@ == encode_utf8(text_or_empty(source.file)),
        sent.line_no == (match source.line {
            Some(n) => n,
            None => 0,
        }),
        sent.module@ == encode_utf8(text_or_empty(source.module)),
        foreign_slots(sent.fields@) == visitor@,
    ensures
        submitted_level(true, sent.level, filter) == Some(source.level),
        event_metadata(
            foreign_text(Some(sent.file@)),
            sent.line_no,
            source.level,
            foreign_text(Some(sent.target@)),
            foreign_text(Some(sent.module@)),
            slot_names(other_slots(foreign_slots(sent.fields@))),
        ) == event_metadata(
            text_or_empty(source.file),
            (match source.line {
                Some(n) => n,
                None => 0,
            }),
            source.level,
            source.target@,
            text_or_empty(source.module),
            slot_names(other_slots(visitor@)),
        ),
        message_among(foreign_slots(sent.fields@)) == message_among(visitor@),
        slot_values(other_slots(foreign_slots(sent.fields@))) == slot_values(
            other_slots(visitor@),
        ),
{
    law_level_byte_round_trip(source.level);
    law_text_survives_the_boundary(source.target@);
    law_text_survives_the_boundary(text_or_empty(source.file));
    law_text_survives_the_boundary(text_or_empty(source.module));
}

/// Both sides drop alike: with one filter byte, the owner of the table takes an
/// event exactly where the host would send it.
pub proof fn law_both_sides_drop_alike(l: Level, filter: u8)
    ensures
        submitted_level(true, level_byte_of(l), filter) is Some <==> admitted(l, filter),
        submitted_level(false, level_byte_of(l), filter) is None,
{
    law_level_byte_round_trip(l);
}

/// Rebuilding loses no field: every field that is not the message is there, and
/// nothing else is.
pub proof fn law_other_fields_are_kept(slots: Seq<NamedSlot>, x: NamedSlot)
    ensures
        other_slots(slots).contains(x) <==> slots.contains(x) && x.name != MESSAGE_FIELD@,
    decreases slots.len(),
{
    if slots.len() > 0 {
        let init = slots.drop_last();
        let last = slots.last();
        law_other_fields_are_kept(init, x);
        assert(slots =~= init.push(last));
        if slots.contains(x) && x != last {
            let i = choose|i: int| 0 <= i < slots.len() && slots[i] == x;
            assert(init[i] == x);
        }
        if init.contains(x) {
            let i = choose|i: int| 0 <= i < init.len() && init[i] == x;
            assert(slots[i] == x);
        }
        if last.name != MESSAGE_FIELD@ {
            let before = other_slots(init);
            assert(before.push(last)[before.len() as int] == last);
            if before.contains(x) {
                let i = choose|i: int| 0 <= i < before.len() && before[i] == x;
                assert(before.push(last)[i] == x);
            }
            if before.push(last).contains(x) && x != last {
                let i = choose|i: int|
                    0 <= i < before.push(last).len() && before.push(last)[i] == x;
                assert(before[i] == x);
            }
        }
        assert(slots[slots.len() - 1] == last);
    }
}

// ---------------------------------------------------------------------------
// Span identifiers
// ---------------------------------------------------------------------------

/// The source of span identifiers of a forwarding subscriber.
pub struct SpanIds {
    last: u64,
}

impl View for SpanIds {
    type V = u64;

    closed spec fn view(&self) -> u64 {
        self.last
    }
}

impl SpanIds {
    pub fn new() -> (r: Self)
        ensures
            r@ == 0,
    {
        SpanIds { last: 0 }
    }

    /// The identifier that was given out last, zero before the first.
    pub fn last(&self) -> (r: u64)
        ensures
            r == self@,
    {
        self.last
    }

    /// A fresh identifier: never zero, and larger than every one before it.
    pub fn new_span(&mut self) -> (r: u64)
        requires
            old(self)@ < u64::MAX,
        ensures
            r == old(self)@ + 1,
            final(self)@ == r,
    {
        let raw: u64 = self.last + 1;
        self.last = raw;
        raw
    }
}

// ---------------------------------------------------------------------------
// Entry points of the table
// ---------------------------------------------------------------------------

/// What the `init` entry of the table is to do with a directory that came as
/// `dir`: set up the file router there, or answer at once. The answer is `1`
/// where a subscriber or a writer is in place already, and `-1` where `dir` is a
/// null pointer or no UTF-8.
pub fn cap_init(dir: Option<&[u8]>, installed: bool, writer_in_place: bool) -> (r: Result<
    String,
    i32,
>)
    ensures
        match bytes_model(dir) {
            Some(b) => if !vstd::utf8::valid_utf8(b) {
                (r matches Err(status) && status == -1)
            } else if installed || writer_in_place {
                (r matches Err(status) && status == 1)
            } else {
                r matches Ok(d) && d@ == vstd::utf8::decode_utf8(b)
            },
            None => (r matches Err(status) && status == -1),
        },
{
    match dir {
        Some(b) => match str_of_utf8(b) {
            Some(s) => if installed || writer_in_place {
                Err(1)
            } else {
                Ok(s.to_owned())
            },
            None => Err(-1),
        },
        None => Err(-1),
    }
}

/// The answer of the `init` entry once the file router was set up or not.
pub fn cap_init_status(outcome: &Result<(), String>) -> (r: i32)
    ensures
        outcome is Ok ==> r == 0,
        outcome is Err ==> r == -1,
{
    match outcome {
        Ok(_) => 0,
        Err(_) => -1,
    }
}

/// The answer of the `flush_sync` entry: `1` where the writer acknowledged.
pub fn cap_flush_sync(acknowledged: bool) -> (r: u8)
    ensures
        r == (if acknowledged {
            1u8
        } else {
            0u8
        }),
{
    if acknowledged {
        1
    } else {
        0
    }
}

// ---------------------------------------------------------------------------
// Handshake
// ---------------------------------------------------------------------------

/// What the host is to do next to get at the table.
#[derive(Clone, Copy, Debug, PartialEq, Eq, Structural)]
pub enum ImportStage {
    /// Import the module, call `_capsule()` and take the result as a capsule.
    Fetch,
    /// Read the capsule's name.
    ReadName,
    /// Read the capsule's pointer.
    ReadPointer,
    /// Read the version in the table.
    ReadVersion,
    /// Install a forwarding subscriber as the host's default.
    Install,
}

/// What came of it. A text is that of the exception or error.
pub enum ImportReply {
    Done,
    Failed(String),
    /// The capsule's name, if it has one.
    Name(Option<Vec<u8>>),
    /// Whether the pointer is null.
    Pointer(bool),
    Version(u32),
}

/// What follows.
pub enum ImportNext {
    Go(ImportStage),
    Finished(Result<(), String>),
}

pub open spec fn wrong_name_text(quoted_wanted: Seq<char>, quoted_found: Seq<char>) -> Seq<char> {
    "expected capsule named "@ + quoted_wanted + ", got "@ + quoted_found
}

pub open spec fn old_version_text(version: u32) -> Seq<char> {
    "trapy capsule version "@ + decimal_text(version as nat) + " older than required "@
        + decimal_text(CAPSULE_VERSION as nat)
}

pub open spec fn not_installed_text(e: Seq<char>) -> Seq<char> {
    "tracing::set_global_default failed: "@ + e
}

/// What follows a reply, with the characters of a failure's text.
pub enum ImportModel {
    Go(ImportStage),
    Finished(Result<(), Seq<char>>),
}

pub open spec fn failed(text: Seq<char>) -> ImportModel {
    ImportModel::Finished(Err(text))
}

pub open spec fn next_model(next: ImportNext) -> ImportModel {
    match next {
        ImportNext::Go(stage) => ImportModel::Go(stage),
        ImportNext::Finished(Ok(_)) => ImportModel::Finished(Ok(())),
        ImportNext::Finished(Err(e)) => ImportModel::Finished(Err(e@)),
    }
}

/// Whether a reply is one that a stage can get.
pub open spec fn reply_fits(stage: ImportStage, reply: ImportReply) -> bool {
    match stage {
        ImportStage::Fetch => reply is Done || reply is Failed,
        ImportStage::ReadName => reply is Name || reply is Failed,
        ImportStage::ReadPointer => reply is Pointer || reply is Failed,
        ImportStage::ReadVersion => reply is Version,
        ImportStage::Install => reply is Done || reply is Failed,
    }
}

/// What follows a reply. The capsule must have the right name, a pointer and a
/// table that is not older than this library's; each failure ends the handshake
/// with a text of its own.
pub open spec fn import_next(stage: ImportStage, reply: ImportReply) -> ImportModel {
    match (stage, reply) {
        (ImportStage::Install, ImportReply::Failed(e)) => failed(not_installed_text(e@)),
        (_, ImportReply::Failed(e)) => failed(e@),
        (ImportStage::Fetch, _) => ImportModel::Go(ImportStage::ReadName),
        (ImportStage::ReadName, ImportReply::Name(Some(name))) => if name@ == encode_utf8(
            CAPSULE_NAME@,
        ) {
            ImportModel::Go(ImportStage::ReadPointer)
        } else {
            failed(wrong_name_text(debug_text(CAPSULE_NAME@), debug_text(lossy_text(name@))))
        },
        (ImportStage::ReadName, _) => failed("trapy capsule has no name"@),
        (ImportStage::ReadPointer, ImportReply::Pointer(null)) => if null {
            failed("trapy capsule pointer is null"@)
        } else {
            ImportModel::Go(ImportStage::ReadVersion)
        },
        (ImportStage::ReadPointer, _) => failed("trapy capsule pointer is null"@),
        (ImportStage::ReadVersion, ImportReply::Version(v)) => if v < CAPSULE_VERSION {
            failed(old_version_text(v))
        } else {
            ImportModel::Go(ImportStage::Install)
        },
        (ImportStage::ReadVersion, _) => failed(old_version_text(0)),
        (ImportStage::Install, _) => ImportModel::Finished(Ok(())),
    }
}

pub fn wrong_name(quoted_wanted: &str, quoted_found: &str) -> (r: String)
    ensures
        r@ == wrong_name_text(quoted_wanted@, quoted_found@),
{
    let mut out: String = concat3("expected capsule named ", quoted_wanted, ", got ");
    out.append(quoted_found);
    out
}

fn old_version(version: u32) -> (r: String)
    ensures
        r@ == old_version_text(version),
{
    let found: String = decimal(version as u64);
    let wanted: String = decimal(CAPSULE_VERSION as u64);
    let mut out: String = concat3(
        "trapy capsule version ",
        found.as_str(),
        " older than required ",
    );
    out.append(wanted.as_str());
    out
}

/// One step of the handshake, from a stage and what came of it. It starts where
/// [`ImportState::start`] says.
pub fn try_import_and_install(stage: ImportStage, reply: ImportReply) -> (r: ImportNext)
    requires
        reply_fits(stage, reply),
    ensures
        next_model(r) == import_next(stage, reply),
{
    match reply {
        ImportReply::Failed(e) => {
            if let ImportStage::Install = stage {
                ImportNext::Finished(
                    Err(concat2("tracing::set_global_default failed: ", e.as_str())),
                )
            } else {
                ImportNext::Finished(Err(e))
            }
        },
        ImportReply::Done => {
            if let ImportStage::Install = stage {
                ImportNext::Finished(Ok(()))
            } else {
                ImportNext::Go(ImportStage::ReadName)
            }
        },
        ImportReply::Name(None) => {
            ImportNext::Finished(Err("trapy capsule has no name".to_owned()))
        },
        ImportReply::Name(Some(name)) => {
            if bytes_eq(name.as_slice(), CAPSULE_NAME.as_bytes()) {
                ImportNext::Go(ImportStage::ReadPointer)
            } else {
                let wanted: String = debug_quote(CAPSULE_NAME);
                let text: String = lossy(name.as_slice());
                let found: String = debug_quote(text.as_str());
                ImportNext::Finished(Err(wrong_name(wanted.as_str(), found.as_str())))
            }
        },
        ImportReply::Pointer(null) => {
            if null {
                ImportNext::Finished(Err("trapy capsule pointer is null".to_owned()))
            } else {
                ImportNext::Go(ImportStage::ReadVersion)
            }
        },
        ImportReply::Version(v) => {
            if v < CAPSULE_VERSION {
                ImportNext::Finished(Err(old_version(v)))
            } else {
                ImportNext::Go(ImportStage::Install)
            }
        },
    }
}

/// Whether a forwarding subscriber of this host is live.
pub struct ImportState {
    live: bool,
}

impl View for ImportState {
    type V = bool;

    closed spec fn view(&self) -> bool {
        self.live
    }
}

pub open spec fn not_live_text(e: Seq<char>) -> Seq<char> {
    "trapy::import_trapy_subscriber: subscriber NOT installed ("@ + e
        + "); tracing events from this cdylib will be dropped"@
}

impl ImportState {
    pub fn new() -> (r: Self)
        ensures
            !r@,
    {
        ImportState { live: false }
    }

    /// How an attempt starts: not at all where the forwarding subscriber is
    /// live already.
    pub fn start(&self) -> (r: Option<ImportStage>)
        ensures
            r == (if self@ {
                None::<ImportStage>
            } else {
                Some(ImportStage::Fetch)
            }),
    {
        if self.live {
            None
        } else {
            Some(ImportStage::Fetch)
        }
    }
}

/// The end of a handshake: whether the forwarding subscriber is live, installed
/// by this attempt or a prior one, and where it is not, the line to report. It
/// never fails: a host without a subscriber still loads, and its events are
/// dropped.
pub fn import_trapy_subscriber(state: &mut ImportState, outcome: Result<(), String>) -> (r: (
    bool,
    Option<String>,
))
    ensures
        final(state)@ == (old(state)@ || outcome is Ok),
        r.0 == final(state)@,
        match outcome {
            Err(e) => if old(state)@ {
                r.1 is None
            } else {
                r.1 matches Some(line) && line@ == not_live_text(e@) && line@
                    == "trapy::import_trapy_subscriber: subscriber NOT installed ("@ + e@
                    + "); tracing events from this cdylib will be dropped"@
            },
            Ok(_) => r.1 is None,
        },
{
    match outcome {
        Ok(_) => {
            state.live = true;
            (true, None)
        },
        Err(e) => if state.live {
            (true, None)
        } else {
            let line: String = concat3(
                "trapy::import_trapy_subscriber: subscriber NOT installed (",
                e.as_str(),
                "); tracing events from this cdylib will be dropped",
            );
            (false, Some(line))
        },
    }
}

/// The other side of a handshake: what each stage gets.
pub ghost struct Peer {
    pub fetched: Option<String>,
    pub name: Result<Option<Vec<u8>>, String>,
    pub null_pointer: Result<bool, String>,
    pub version: u32,
    pub installed: Option<String>,
}

/// The reply of a peer to a stage; a text is that of what went wrong.
pub open spec fn peer_reply(p: Peer, stage: ImportStage) -> ImportReply {
    match stage {
        ImportStage::Fetch => match p.fetched {
            None => ImportReply::Done,
            Some(e) => ImportReply::Failed(e),
        },
        ImportStage::ReadName => match p.name {
            Ok(n) => ImportReply::Name(n),
            Err(e) => ImportReply::Failed(e),
        },
        ImportStage::ReadPointer => match p.null_pointer {
            Ok(null) => ImportReply::Pointer(null),
            Err(e) => ImportReply::Failed(e),
        },
        ImportStage::ReadVersion => ImportReply::Version(p.version),
        ImportStage::Install => match p.installed {
            None => ImportReply::Done,
            Some(e) => ImportReply::Failed(e),
        },
    }
}

/// The number of stages that are left.
pub open spec fn stages_left(stage: ImportStage) -> nat {
    match stage {
        ImportStage::Fetch => 4,
        ImportStage::ReadName => 3,
        ImportStage::ReadPointer => 2,
        ImportStage::ReadVersion => 1,
        ImportStage::Install => 0,
    }
}

/// How a handshake with a peer ends when it is at `stage`.
pub open spec fn handshake(p: Peer, stage: ImportStage) -> Result<(), Seq<char>>
    decreases stages_left(stage),
{
    match import_next(stage, peer_reply(p, stage)) {
        ImportModel::Go(next) => if stages_left(next) < stages_left(stage) {
            handshake(p, next)
        } else {
            Err(Seq::empty())
        },
        ImportModel::Finished(r) => r,
    }
}

/// A handshake succeeds exactly where the capsule can be fetched, carries the
/// right name and a pointer to a table that is not too old, and the forwarding
/// subscriber can be installed. In particular a subscriber is never installed on
/// a table that was not checked.
pub proof fn law_handshake_succeeds_iff_all_checks_pass(p: Peer)
    ensures
        handshake(p, ImportStage::Fetch) is Ok <==> {
            &&& p.fetched is None
            &&& p.name matches Ok(Some(n)) && n@ == encode_utf8(CAPSULE_NAME@)
            &&& p.null_pointer == Ok::<bool, String>(false)
            &&& p.version >= CAPSULE_VERSION
            &&& p.installed is None
        },
{
    reveal_with_fuel(handshake, 5);
}

/// Every step of a handshake ends it or moves on to a later stage.
pub proof fn law_handshake_makes_progress(stage: ImportStage, reply: ImportReply)
    requires
        reply_fits(stage, reply),
    ensures
        import_next(stage, reply) matches ImportModel::Go(next) ==> stages_left(next)
            < stages_left(stage),
{
}

// ---------------------------------------------------------------------------
// What crosses, piece by piece
// ---------------------------------------------------------------------------

/// The line of a rebuilt event is the text of the last field that is called
/// `message` and is a string.
pub proof fn law_line_is_the_last_string_called_message(
    slots: Seq<NamedSlot>,
    i: int,
    text: Seq<char>,
)
    requires
        0 <= i < slots.len(),
        slots[i].name == "message"@,
        slots[i].value == Some(FieldModel::Str(text)),
        forall|j: int|
            i < j < slots.len() ==> !((#[trigger] slots[j]).name == "message"@ && slots[j].value
                matches Some(FieldModel::Str(_))),
    ensures
        message_among(slots) == text,
        text.len() > 0 ==> message_slot(message_among(slots)) == Some(FieldModel::Str(text)),
        text.len() == 0 ==> message_slot(message_among(slots)) is None,
    decreases slots.len(),
{
    if i < slots.len() - 1 {
        let init = slots.drop_last();
        assert forall|j: int| i < j < init.len() implies !((#[trigger] init[j]).name == "message"@
            && init[j].value matches Some(FieldModel::Str(_))) by {
            assert(init[j] == slots[j]);
        }
        law_line_is_the_last_string_called_message(init, i, text);
        assert(slots.last() == slots[slots.len() - 1]);
    }
}

/// Where no string is called `message` a rebuilt event has no line, whatever its
/// other fields say.
pub proof fn law_no_message_no_line(slots: Seq<NamedSlot>)
    requires
        forall|j: int|
            0 <= j < slots.len() ==> !((#[trigger] slots[j]).name == "message"@ && slots[j].value
                matches Some(FieldModel::Str(_))),
    ensures
        message_among(slots) == ""@,
        message_slot(message_among(slots)) is None,
    decreases slots.len(),
{
    reveal_strlit("");
    if slots.len() > 0 {
        let init = slots.drop_last();
        assert forall|j: int| 0 <= j < init.len() implies !((#[trigger] init[j]).name
            == "message"@ && init[j].value matches Some(FieldModel::Str(_))) by {
            assert(init[j] == slots[j]);
        }
        law_no_message_no_line(init);
        assert(slots.last() == slots[slots.len() - 1]);
    }
}

/// The fields of a rebuilt event are those that are not called `message`, in the
/// order in which they were sent, each under its name and with its value.
pub proof fn law_other_fields_keep_their_order(slots: Seq<NamedSlot>)
    ensures
        other_slots(slots) == slots.filter(|s: NamedSlot| s.name != "message"@),
        slot_names(other_slots(slots)).len() == other_slots(slots).len(),
        slot_values(other_slots(slots)).len() == other_slots(slots).len(),
        forall|i: int|
            0 <= i < other_slots(slots).len() ==> {
                &&& slot_names(other_slots(slots))[i] == (#[trigger] other_slots(slots)[i]).name
                &&& slot_values(other_slots(slots))[i] == other_slots(slots)[i].value
            },
    decreases slots.len(),
{
    reveal(Seq::filter);
    if slots.len() > 0 {
        law_other_fields_keep_their_order(slots.drop_last());
    }
}

/// A field without a message among them is kept as it was sent, at its place.
pub proof fn law_fields_without_a_message_are_all_kept(slots: Seq<NamedSlot>)
    requires
        forall|j: int| 0 <= j < slots.len() ==> (#[trigger] slots[j]).name != "message"@,
    ensures
        other_slots(slots) == slots,
    decreases slots.len(),
{
    if slots.len() > 0 {
        let init = slots.drop_last();
        assert forall|j: int| 0 <= j < init.len() implies (#[trigger] init[j]).name
            != "message"@ by {
            assert(init[j] == slots[j]);
        }
        law_fields_without_a_message_are_all_kept(init);
        assert(slots.last() == slots[slots.len() - 1]);
        assert(init.push(slots.last()) =~= slots);
    }
}

/// The kind of a field from the other side selects the value that counts: a bool is
/// any byte but zero, and a kind that is not known carries nothing.
pub proof fn law_kind_selects_the_value(f: ForeignField)
    ensures
        foreign_slot(f).name == foreign_text(bytes_model(f.name)),
        foreign_slot(f).value is None <==> f.kind == 0 || f.kind > 5,
        f.kind == 1 ==> foreign_slot(f).value == Some(FieldModel::Bool(f.bool_val != 0)),
        f.kind == 2 ==> foreign_slot(f).value == Some(FieldModel::I64(f.i64_val)),
        f.kind == 3 ==> foreign_slot(f).value == Some(FieldModel::U64(f.u64_val)),
        f.kind == 4 ==> foreign_slot(f).value == Some(FieldModel::F64(f.f64_val)),
        f.kind == 5 ==> foreign_slot(f).value == Some(
            FieldModel::Str(foreign_text(bytes_model(f.str_val))),
        ),
{
}

/// An event is taken exactly where a subscriber was installed and its byte is not
/// zero and not past the filter; a byte past five counts as five.
pub proof fn law_submission_is_taken_by_its_byte(installed: bool, level: u8, filter: u8)
    ensures
        submitted_level(installed, level, filter) is Some <==> installed && level != 0 && (
        if level < 5 {
            level <= filter
        } else {
            filter >= 5
        }),
        submitted_level(installed, level, filter) matches Some(l) ==> {
            &&& l == Level::Error <==> level == 1
            &&& l == Level::Warn <==> level == 2
            &&& l == Level::Info <==> level == 3
            &&& l == Level::Debug <==> level == 4
            &&& l == Level::Trace <==> level >= 5
        },
{
}

/// A captured value is recorded by its own kind and unchanged.
pub proof fn law_captured_values_are_kept(v: OwnedFieldVal, name: Seq<char>, value: FieldModel)
    ensures
        v matches OwnedFieldVal::Bool(b) ==> owned_value(v) == FieldModel::Bool(b),
        v matches OwnedFieldVal::I64(i) ==> owned_value(v) == FieldModel::I64(i),
        v matches OwnedFieldVal::U64(u) ==> owned_value(v) == FieldModel::U64(u),
        v matches OwnedFieldVal::F64(f) ==> owned_value(v) == FieldModel::F64(f),
        v matches OwnedFieldVal::Str(s) ==> owned_value(v) == FieldModel::Str(s@),
        named(name, value).name == name,
        named(name, value).value == Some(value),
{
}

/// On the boundary a value stands in the place of its kind, a bool as one or zero,
/// and every other place is zero or null.
pub proof fn law_layout_by_kind(name: Seq<char>, b: bool, i: i64, u: u64, f: u64, s: Seq<char>)
    ensures
        ({
            let w = wire_of(named(name, FieldModel::Bool(b)));
            &&& w.name == Some(encode_utf8(name)) && w.kind == 1
            &&& w.bool_val == (if b {
                1u8
            } else {
                0u8
            })
            &&& w.i64_val == 0 && w.u64_val == 0 && w.f64_val == 0 && w.str_val is None
        }),
        ({
            let w = wire_of(named(name, FieldModel::I64(i)));
            &&& w.name == Some(encode_utf8(name)) && w.kind == 2 && w.i64_val == i
            &&& w.bool_val == 0 && w.u64_val == 0 && w.f64_val == 0 && w.str_val is None
        }),
        ({
            let w = wire_of(named(name, FieldModel::U64(u)));
            &&& w.name == Some(encode_utf8(name)) && w.kind == 3 && w.u64_val == u
            &&& w.bool_val == 0 && w.i64_val == 0 && w.f64_val == 0 && w.str_val is None
        }),
        ({
            let w = wire_of(named(name, FieldModel::F64(f)));
            &&& w.name == Some(encode_utf8(name)) && w.kind == 4 && w.f64_val == f
            &&& w.bool_val == 0 && w.i64_val == 0 && w.u64_val == 0 && w.str_val is None
        }),
        ({
            let w = wire_of(named(name, FieldModel::Str(s)));
            &&& w.name == Some(encode_utf8(name)) && w.kind == 5
            &&& w.str_val == Some(encode_utf8(s))
            &&& w.bool_val == 0 && w.i64_val == 0 && w.u64_val == 0 && w.f64_val == 0
        }),
{
}

/// The layout of a field is what the field holds, place by place, and fields are
/// laid out one by one.
pub proof fn law_layout_is_what_the_field_holds(fields: Seq<ForeignField>, i: int)
    requires
        0 <= i < fields.len(),
    ensures
        wire_models(fields).len() == fields.len(),
        wire_models(fields)[i].name == bytes_model(fields[i].name),
        wire_models(fields)[i].kind == fields[i].kind,
        wire_models(fields)[i].bool_val == fields[i].bool_val,
        wire_models(fields)[i].i64_val == fields[i].i64_val,
        wire_models(fields)[i].u64_val == fields[i].u64_val,
        wire_models(fields)[i].f64_val == fields[i].f64_val,
        wire_models(fields)[i].str_val == bytes_model(fields[i].str_val),
{
}

/// A text that is missing crosses as the empty text.
pub proof fn law_missing_text_is_empty(s: &str)
    ensures
        text_or_empty(None) == ""@,
        text_or_empty(Some(s)) == s@,
{
}

/// Each failure of a handshake ends it with its own text, and no stage is left out.
pub proof fn law_handshake_step_by_step(e: String, name: Vec<u8>, version: u32)
    ensures
        import_next(ImportStage::Fetch, ImportReply::Done) == ImportModel::Go(
            ImportStage::ReadName,
        ),
        import_next(ImportStage::Fetch, ImportReply::Failed(e)) == ImportModel::Finished(Err(e@)),
        import_next(ImportStage::ReadName, ImportReply::Failed(e)) == ImportModel::Finished(
            Err(e@),
        ),
        import_next(ImportStage::ReadName, ImportReply::Name(None)) == ImportModel::Finished(
            Err("trapy capsule has no name"@),
        ),
        name@ == encode_utf8("trapy._capsule"@) ==> import_next(
            ImportStage::ReadName,
            ImportReply::Name(Some(name)),
        ) == ImportModel::Go(ImportStage::ReadPointer),
        name@ != encode_utf8("trapy._capsule"@) ==> import_next(
            ImportStage::ReadName,
            ImportReply::Name(Some(name)),
        ) == ImportModel::Finished(
            Err(
                "expected capsule named "@ + debug_text("trapy._capsule"@) + ", got "@ + debug_text(
                    lossy_text(name@),
                ),
            ),
        ),
        import_next(ImportStage::ReadPointer, ImportReply::Failed(e)) == ImportModel::Finished(
            Err(e@),
        ),
        import_next(ImportStage::ReadPointer, ImportReply::Pointer(true)) == ImportModel::Finished(
            Err("trapy capsule pointer is null"@),
        ),
        import_next(ImportStage::ReadPointer, ImportReply::Pointer(false)) == ImportModel::Go(
            ImportStage::ReadVersion,
        ),
        version >= 2 ==> import_next(ImportStage::ReadVersion, ImportReply::Version(version))
            == ImportModel::Go(ImportStage::Install),
        version < 2 ==> import_next(ImportStage::ReadVersion, ImportReply::Version(version))
            == ImportModel::Finished(
            Err(
                "trapy capsule version "@ + decimal_text(version as nat)
                    + " older than required "@ + decimal_text(2),
            ),
        ),
        import_next(ImportStage::Install, ImportReply::Done) == ImportModel::Finished(Ok(())),
        import_next(ImportStage::Install, ImportReply::Failed(e)) == ImportModel::Finished(
            Err("tracing::set_global_default failed: "@ + e@),
        ),
{
}

/// What follows a reply says what it holds.
pub proof fn law_next_says_what_it_holds(stage: ImportStage, e: String)
    ensures
        next_model(ImportNext::Go(stage)) == ImportModel::Go(stage),
        next_model(ImportNext::Finished(Ok(()))) == ImportModel::Finished(Ok(())),
        next_model(ImportNext::Finished(Err(e))) == ImportModel::Finished(Err(e@)),
{
}

/// Fields are read and laid out one by one.
pub proof fn law_fields_cross_one_by_one(
    fields: Seq<ForeignField>,
    slots: Seq<NamedSlot>,
    i: int,
)
    ensures
        foreign_slots(fields).len() == fields.len(),
        0 <= i < fields.len() ==> foreign_slots(fields)[i] == foreign_slot(fields[i]),
        wires_of(slots).len() == slots.len(),
        0 <= i < slots.len() ==> wires_of(slots)[i] == wire_of(slots[i]),
{
}

}
