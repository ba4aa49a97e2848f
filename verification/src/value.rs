//! From a Python object to a tree of values.
//!
//! The interpreter is asked one question at a time. [`py_to_value`] says, from
//! the question and its answer, what the object is or what to ask next. The
//! order of the questions is that of `orjson`: bool before int (bool is a
//! subclass of int), then float, str, list, tuple, dict, array and dataclass,
//! with `str(obj)` as the last resort, also where reading an object as one of
//! the structured kinds raised.
//!
//! The objects in a container are converted the same way and fed, one at a time,
//! to an [`ItemCollector`] or an [`EntryCollector`], which makes up the answer.

use vstd::prelude::*;

verus! {

/// A value as it is recorded. A float is held by the bits of its IEEE 754
/// double.
#[derive(Debug, PartialEq)]
pub enum PyValue {
    Null,
    Bool(bool),
    Int(i64),
    Float(u64),
    Str(String),
    List(Vec<PyValue>),
    Dict(OrderedMap),
}

/// String-keyed map in insertion order, so that consumers see the entries in
/// the order in which they were written.
#[derive(Debug, PartialEq)]
pub struct OrderedMap(pub Vec<(String, PyValue)>);

/// What a value is, with texts and lists as sequences.
#[verifier::ext_equal]
pub enum ValueModel {
    Null,
    Bool(bool),
    Int(i64),
    Float(u64),
    Str(Seq<char>),
    List(Seq<ValueModel>),
    Dict(Seq<(Seq<char>, ValueModel)>),
}

pub open spec fn value_model(v: PyValue) -> ValueModel
    decreases v,
{
    match v {
        PyValue::Null => ValueModel::Null,
        PyValue::Bool(b) => ValueModel::Bool(b),
        PyValue::Int(i) => ValueModel::Int(i),
        PyValue::Float(f) => ValueModel::Float(f),
        PyValue::Str(s) => ValueModel::Str(s@),
        PyValue::List(l) => ValueModel::List(items_model(l)),
        PyValue::Dict(m) => ValueModel::Dict(entries_model(m.0)),
    }
}

/// What each value is, in order.
pub open spec fn items_model(l: Vec<PyValue>) -> Seq<ValueModel>
    decreases l,
{
    Seq::new(
        l@.len(),
        |i: int|
            if 0 <= i < l@.len() {
                value_model(l@[i])
            } else {
                ValueModel::Null
            },
    )
}

/// What each entry is, in order.
pub open spec fn entries_model(m: Vec<(String, PyValue)>) -> Seq<(Seq<char>, ValueModel)>
    decreases m,
{
    Seq::new(
        m@.len(),
        |i: int|
            if 0 <= i < m@.len() {
                (m@[i].0@, value_model(m@[i].1))
            } else {
                (Seq::empty(), ValueModel::Null)
            },
    )
}

impl View for PyValue {
    type V = ValueModel;

    open spec fn view(&self) -> ValueModel {
        value_model(*self)
    }
}

/// What a value is, where there is one.
pub open spec fn option_model(v: Option<PyValue>) -> Option<ValueModel> {
    match v {
        Some(x) => Some(x@),
        None => None,
    }
}

/// What a text says, where there is one.
pub open spec fn text_model(s: Option<String>) -> Option<Seq<char>> {
    match s {
        Some(x) => Some(x@),
        None => None,
    }
}

impl OrderedMap {
    /// Bounds on the number of entries: it is known exactly.
    pub fn size_hint(&self) -> (r: (usize, Option<usize>))
        ensures
            r.0 == self.0@.len(),
            r.1 == Some(r.0),
    {
        let n: usize = self.0.len();
        (n, Some(n))
    }
}

/// A question about one Python object.
#[derive(Clone, Copy, Debug, PartialEq, Eq, Structural)]
pub enum Probe {
    /// Is it `None`?
    IsNone,
    /// Is it a `bool`, and which?
    AsBool,
    /// Is it an `int`?
    IsInt,
    /// The `int` as an `i64`, if it fits.
    IntAsI64,
    /// The `int` as a double, if it fits.
    IntAsFloat,
    /// Is it a `float`?
    IsFloat,
    /// The `float` as a double.
    FloatBits,
    /// Is it a `str`, and which?
    AsStr,
    /// Is it a `list`, and what are its items converted in order?
    AsList,
    /// Is it a `tuple`, and what are its items converted in order?
    AsTuple,
    /// Is it a `dict`, and what are its entries, keys made strings, values
    /// converted, in order?
    AsDict,
    /// Does it have `__array__`?
    HasArray,
    /// What its `tolist()` returns, converted.
    ArrayToList,
    /// Does it have `__dataclass_fields__`?
    HasDataclassFields,
    /// Its dataclass fields: names and attributes, converted, in order.
    DataclassFields,
    /// `str(obj)`.
    Text,
}

/// What the interpreter answered.
pub enum Answer {
    No,
    Yes,
    Bool(bool),
    Int(i64),
    Float(u64),
    Text(String),
    Items(Vec<PyValue>),
    Entries(Vec<(String, PyValue)>),
    Value(PyValue),
    /// Answering raised an exception.
    Raised,
}

/// What comes after an answer.
pub enum Step {
    /// One more question.
    Ask(Probe),
    /// The object is this value.
    Done(PyValue),
    /// Nothing is left to try: the exception that was raised last stands.
    Raise,
}

/// What an answer says.
#[verifier::ext_equal]
pub enum AnswerModel {
    No,
    Yes,
    Bool(bool),
    Int(i64),
    Float(u64),
    Text(Seq<char>),
    Items(Seq<ValueModel>),
    Entries(Seq<(Seq<char>, ValueModel)>),
    Value(ValueModel),
    Raised,
}

impl View for Answer {
    type V = AnswerModel;

    open spec fn view(&self) -> AnswerModel {
        match *self {
            Answer::No => AnswerModel::No,
            Answer::Yes => AnswerModel::Yes,
            Answer::Bool(b) => AnswerModel::Bool(b),
            Answer::Int(i) => AnswerModel::Int(i),
            Answer::Float(f) => AnswerModel::Float(f),
            Answer::Text(s) => AnswerModel::Text(s@),
            Answer::Items(l) => AnswerModel::Items(items_model(l)),
            Answer::Entries(m) => AnswerModel::Entries(entries_model(m)),
            Answer::Value(v) => AnswerModel::Value(v@),
            Answer::Raised => AnswerModel::Raised,
        }
    }
}

/// What a step says.
#[verifier::ext_equal]
pub enum StepModel {
    Ask(Probe),
    Done(ValueModel),
    Raise,
}

impl View for Step {
    type V = StepModel;

    open spec fn view(&self) -> StepModel {
        match *self {
            Step::Ask(probe) => StepModel::Ask(probe),
            Step::Done(v) => StepModel::Done(v@),
            Step::Raise => StepModel::Raise,
        }
    }
}

/// The first question.
pub const FIRST_PROBE: Probe = Probe::IsNone;

/// What an answer to a question leads to.
pub open spec fn step_of(probe: Probe, answer: AnswerModel) -> StepModel {
    match (probe, answer) {
        (Probe::IsNone, AnswerModel::Yes) => StepModel::Done(ValueModel::Null),
        (Probe::IsNone, _) => StepModel::Ask(Probe::AsBool),
        (Probe::AsBool, AnswerModel::Bool(b)) => StepModel::Done(ValueModel::Bool(b)),
        (Probe::AsBool, _) => StepModel::Ask(Probe::IsInt),
        (Probe::IsInt, AnswerModel::Yes) => StepModel::Ask(Probe::IntAsI64),
        (Probe::IsInt, _) => StepModel::Ask(Probe::IsFloat),
        (Probe::IntAsI64, AnswerModel::Int(i)) => StepModel::Done(ValueModel::Int(i)),
        (Probe::IntAsI64, _) => StepModel::Ask(Probe::IntAsFloat),
        (Probe::IntAsFloat, AnswerModel::Float(f)) => StepModel::Done(ValueModel::Float(f)),
        (Probe::IntAsFloat, _) => StepModel::Ask(Probe::Text),
        (Probe::IsFloat, AnswerModel::Yes) => StepModel::Ask(Probe::FloatBits),
        (Probe::IsFloat, _) => StepModel::Ask(Probe::AsStr),
        (Probe::FloatBits, AnswerModel::Float(f)) => StepModel::Done(ValueModel::Float(f)),
        (Probe::FloatBits, _) => StepModel::Ask(Probe::Text),
        (Probe::AsStr, AnswerModel::Text(s)) => StepModel::Done(ValueModel::Str(s)),
        (Probe::AsStr, _) => StepModel::Ask(Probe::AsList),
        (Probe::AsList, AnswerModel::Items(l)) => StepModel::Done(ValueModel::List(l)),
        (Probe::AsList, AnswerModel::Raised) => StepModel::Ask(Probe::Text),
        (Probe::AsList, _) => StepModel::Ask(Probe::AsTuple),
        (Probe::AsTuple, AnswerModel::Items(l)) => StepModel::Done(ValueModel::List(l)),
        (Probe::AsTuple, AnswerModel::Raised) => StepModel::Ask(Probe::Text),
        (Probe::AsTuple, _) => StepModel::Ask(Probe::AsDict),
        (Probe::AsDict, AnswerModel::Entries(m)) => StepModel::Done(ValueModel::Dict(m)),
        (Probe::AsDict, AnswerModel::Raised) => StepModel::Ask(Probe::Text),
        (Probe::AsDict, _) => StepModel::Ask(Probe::HasArray),
        (Probe::HasArray, AnswerModel::Yes) => StepModel::Ask(Probe::ArrayToList),
        (Probe::HasArray, _) => StepModel::Ask(Probe::HasDataclassFields),
        (Probe::ArrayToList, AnswerModel::Value(v)) => StepModel::Done(v),
        (Probe::ArrayToList, _) => StepModel::Ask(Probe::HasDataclassFields),
        (Probe::HasDataclassFields, AnswerModel::Yes) => StepModel::Ask(Probe::DataclassFields),
        (Probe::HasDataclassFields, _) => StepModel::Ask(Probe::Text),
        (Probe::DataclassFields, AnswerModel::Entries(m)) => StepModel::Done(ValueModel::Dict(m)),
        (Probe::DataclassFields, _) => StepModel::Ask(Probe::Text),
        (Probe::Text, AnswerModel::Text(s)) => StepModel::Done(ValueModel::Str(s)),
        (Probe::Text, _) => StepModel::Raise,
    }
}

/// One step of the conversion of a Python object: what the answer to a question
/// leads to. A conversion starts with [`FIRST_PROBE`].
pub fn py_to_value(probe: Probe, answer: Answer) -> (r: Step)
    ensures
        r@ == step_of(probe, answer@),
        r matches Step::Done(v) ==> match answer {
            Answer::Yes => v is Null,
            Answer::Bool(b) => v == PyValue::Bool(b),
            Answer::Int(i) => v == PyValue::Int(i),
            Answer::Float(f) => v == PyValue::Float(f),
            Answer::Text(s) => v == PyValue::Str(s),
            Answer::Items(l) => v == PyValue::List(l),
            Answer::Entries(m) => v == PyValue::Dict(OrderedMap(m)),
            Answer::Value(x) => v == x,
            Answer::No | Answer::Raised => false,
        },
        r is Raise <==> probe == Probe::Text && !(answer is Text),
{
    match probe {
        Probe::IsNone => match answer {
            Answer::Yes => Step::Done(PyValue::Null),
            _ => Step::Ask(Probe::AsBool),
        },
        Probe::AsBool => match answer {
            Answer::Bool(b) => Step::Done(PyValue::Bool(b)),
            _ => Step::Ask(Probe::IsInt),
        },
        Probe::IsInt => match answer {
            Answer::Yes => Step::Ask(Probe::IntAsI64),
            _ => Step::Ask(Probe::IsFloat),
        },
        Probe::IntAsI64 => match answer {
            Answer::Int(i) => Step::Done(PyValue::Int(i)),
            _ => Step::Ask(Probe::IntAsFloat),
        },
        Probe::IntAsFloat => match answer {
            Answer::Float(f) => Step::Done(PyValue::Float(f)),
            _ => Step::Ask(Probe::Text),
        },
        Probe::IsFloat => match answer {
            Answer::Yes => Step::Ask(Probe::FloatBits),
            _ => Step::Ask(Probe::AsStr),
        },
        Probe::FloatBits => match answer {
            Answer::Float(f) => Step::Done(PyValue::Float(f)),
            _ => Step::Ask(Probe::Text),
        },
        Probe::AsStr => match answer {
            Answer::Text(s) => Step::Done(PyValue::Str(s)),
            _ => Step::Ask(Probe::AsList),
        },
        Probe::AsList => match answer {
            Answer::Items(l) => Step::Done(PyValue::List(l)),
            Answer::Raised => Step::Ask(Probe::Text),
            _ => Step::Ask(Probe::AsTuple),
        },
        Probe::AsTuple => match answer {
            Answer::Items(l) => Step::Done(PyValue::List(l)),
            Answer::Raised => Step::Ask(Probe::Text),
            _ => Step::Ask(Probe::AsDict),
        },
        Probe::AsDict => match answer {
            Answer::Entries(m) => Step::Done(PyValue::Dict(OrderedMap(m))),
            Answer::Raised => Step::Ask(Probe::Text),
            _ => Step::Ask(Probe::HasArray),
        },
        Probe::HasArray => match answer {
            Answer::Yes => Step::Ask(Probe::ArrayToList),
            _ => Step::Ask(Probe::HasDataclassFields),
        },
        Probe::ArrayToList => match answer {
            Answer::Value(v) => Step::Done(v),
            _ => Step::Ask(Probe::HasDataclassFields),
        },
        Probe::HasDataclassFields => match answer {
            Answer::Yes => Step::Ask(Probe::DataclassFields),
            _ => Step::Ask(Probe::Text),
        },
        Probe::DataclassFields => match answer {
            Answer::Entries(m) => Step::Done(PyValue::Dict(OrderedMap(m))),
            _ => Step::Ask(Probe::Text),
        },
        Probe::Text => match answer {
            Answer::Text(s) => Step::Done(PyValue::Str(s)),
            _ => Step::Raise,
        },
    }
}

// ---------------------------------------------------------------------------
// Keys of a map
// ---------------------------------------------------------------------------

/// A question about the key of a `dict`.
#[derive(Clone, Copy, Debug, PartialEq, Eq, Structural)]
pub enum KeyProbe {
    /// Is it a `str`, and which?
    AsStr,
    /// `str(key)`.
    Text,
}

/// What comes after an answer about a key.
#[derive(Debug, PartialEq, Eq)]
pub enum KeyStep {
    Ask(KeyProbe),
    Done(String),
    Raise,
}

/// What a step says.
#[verifier::ext_equal]
pub enum KeyStepModel {
    Ask(KeyProbe),
    Done(Seq<char>),
    Raise,
}

impl View for KeyStep {
    type V = KeyStepModel;

    open spec fn view(&self) -> KeyStepModel {
        match *self {
            KeyStep::Ask(probe) => KeyStepModel::Ask(probe),
            KeyStep::Done(s) => KeyStepModel::Done(s@),
            KeyStep::Raise => KeyStepModel::Raise,
        }
    }
}

/// What an answer about a key leads to: a text that is there is the key, and
/// only a key that is no `str` is asked for its text.
pub open spec fn key_step_of(probe: KeyProbe, answer: Option<Seq<char>>) -> KeyStepModel {
    match (probe, answer) {
        (_, Some(s)) => KeyStepModel::Done(s),
        (KeyProbe::AsStr, None) => KeyStepModel::Ask(KeyProbe::Text),
        (KeyProbe::Text, None) => KeyStepModel::Raise,
    }
}

/// One step of making the key of a `dict` a string. It starts with
/// [`KeyProbe::AsStr`]; an answer is absent where the key is no `str`, or where
/// `str(key)` raised.
pub fn key_text(probe: KeyProbe, answer: Option<String>) -> (r: KeyStep)
    ensures
        r@ == key_step_of(probe, text_model(answer)),
{
    match answer {
        Some(s) => KeyStep::Done(s),
        None => match probe {
            KeyProbe::AsStr => KeyStep::Ask(KeyProbe::Text),
            KeyProbe::Text => KeyStep::Raise,
        },
    }
}

/// A key, by its answers to the questions.
pub ghost struct Key {
    pub as_str: Option<Seq<char>>,
    pub text: Option<Seq<char>>,
}

/// How the reading of a key ends: its string, or `None` where it raises.
pub open spec fn key_read(k: Key) -> Option<Seq<char>> {
    match key_step_of(KeyProbe::AsStr, k.as_str) {
        KeyStepModel::Done(s) => Some(s),
        KeyStepModel::Ask(_) => match key_step_of(KeyProbe::Text, k.text) {
            KeyStepModel::Done(s) => Some(s),
            _ => None,
        },
        KeyStepModel::Raise => None,
    }
}

/// A key that is a `str` is kept as it is, and any other becomes its text.
pub proof fn law_key_is_kept_or_made_text(k: Key)
    ensures
        key_read(k) == (match k.as_str {
            Some(s) => Some(s),
            None => k.text,
        }),
{
}

// ---------------------------------------------------------------------------
// Collecting
// ---------------------------------------------------------------------------

/// What was collected after one more item; nothing is, once an item raised.
pub open spec fn with_item(
    so_far: Option<Seq<ValueModel>>,
    item: Option<ValueModel>,
) -> Option<Seq<ValueModel>> {
    match (so_far, item) {
        (Some(s), Some(v)) => Some(s.push(v)),
        _ => None,
    }
}

/// What is collected from items in turn.
pub open spec fn all_items(items: Seq<Option<ValueModel>>) -> Option<Seq<ValueModel>>
    decreases items.len(),
{
    if items.len() == 0 {
        Some(Seq::empty())
    } else {
        with_item(all_items(items.drop_last()), items.last())
    }
}

/// What was collected after one more entry; nothing is, once a key or a value
/// raised.
pub open spec fn with_entry(
    so_far: Option<Seq<(Seq<char>, ValueModel)>>,
    entry: (Option<Seq<char>>, Option<ValueModel>),
) -> Option<Seq<(Seq<char>, ValueModel)>> {
    match (so_far, entry.0, entry.1) {
        (Some(s), Some(k), Some(v)) => Some(s.push((k, v))),
        _ => None,
    }
}

/// What is collected from entries in turn.
pub open spec fn all_entries(
    entries: Seq<(Option<Seq<char>>, Option<ValueModel>)>,
) -> Option<Seq<(Seq<char>, ValueModel)>>
    decreases entries.len(),
{
    if entries.len() == 0 {
        Some(Seq::empty())
    } else {
        with_entry(all_entries(entries.drop_last()), entries.last())
    }
}

/// The items of a list or a tuple, converted one by one.
pub struct ItemCollector {
    items: Vec<PyValue>,
    raised: bool,
}

impl View for ItemCollector {
    type V = Option<Seq<ValueModel>>;

    closed spec fn view(&self) -> Option<Seq<ValueModel>> {
        if self.raised {
            None
        } else {
            Some(items_model(self.items))
        }
    }
}

impl ItemCollector {
    pub fn new() -> (r: Self)
        ensures
            r@ == Some(Seq::<ValueModel>::empty()),
    {
        let r = ItemCollector { items: Vec::new(), raised: false };
        assert(items_model(r.items) =~= Seq::<ValueModel>::empty());
        r
    }

    /// Takes the next item, converted, or absent where its conversion raised.
    /// Says whether another item is wanted.
    pub fn add_item(&mut self, item: Option<PyValue>) -> (r: bool)
        ensures
            final(self)@ == with_item(old(self)@, option_model(item)),
            r == (final(self)@ is Some),
    {
        match item {
            Some(v) => {
                self.items.push(v);
                assert(items_model(self.items) =~= items_model(old(self).items).push(v@));
            },
            None => {
                self.raised = true;
            },
        }
        !self.raised
    }

    /// The answer that the items make up.
    pub fn finish(self) -> (r: Answer)
        ensures
            r@ == (match self@ {
                Some(items) => AnswerModel::Items(items),
                None => AnswerModel::Raised,
            }),
    {
        if self.raised {
            Answer::Raised
        } else {
            Answer::Items(self.items)
        }
    }
}

/// The entries of a `dict` or the fields of a dataclass, read one by one.
pub struct EntryCollector {
    entries: Vec<(String, PyValue)>,
    raised: bool,
}

impl View for EntryCollector {
    type V = Option<Seq<(Seq<char>, ValueModel)>>;

    closed spec fn view(&self) -> Option<Seq<(Seq<char>, ValueModel)>> {
        if self.raised {
            None
        } else {
            Some(entries_model(self.entries))
        }
    }
}

impl EntryCollector {
    pub fn new() -> (r: Self)
        ensures
            r@ == Some(Seq::<(Seq<char>, ValueModel)>::empty()),
    {
        let r = EntryCollector { entries: Vec::new(), raised: false };
        assert(entries_model(r.entries) =~= Seq::<(Seq<char>, ValueModel)>::empty());
        r
    }

    /// Takes the next entry: its key, and its value converted, each absent where
    /// reading it raised. Says whether another entry is wanted.
    pub fn add_entry(&mut self, key: Option<String>, value: Option<PyValue>) -> (r: bool)
        ensures
            final(self)@ == with_entry(old(self)@, (text_model(key), option_model(value))),
            r == (final(self)@ is Some),
    {
        match (key, value) {
            (Some(k), Some(v)) => {
                self.entries.push((k, v));
                assert(entries_model(self.entries) =~= entries_model(old(self).entries).push(
                    (k@, v@),
                ));
            },
            _ => {
                self.raised = true;
            },
        }
        !self.raised
    }

    /// The answer that the entries make up.
    pub fn finish(self) -> (r: Answer)
        ensures
            r@ == (match self@ {
                Some(entries) => AnswerModel::Entries(entries),
                None => AnswerModel::Raised,
            }),
    {
        if self.raised {
            Answer::Raised
        } else {
            Answer::Entries(self.entries)
        }
    }
}

/// Items are collected where none raised, and then all of them, each at its
/// place.
pub proof fn law_items_are_collected_in_order(items: Seq<Option<ValueModel>>)
    ensures
        all_items(items) is Some <==> forall|i: int|
            0 <= i < items.len() ==> (#[trigger] items[i]) is Some,
        all_items(items) matches Some(out) ==> {
            &&& out.len() == items.len()
            &&& forall|i: int| 0 <= i < items.len() ==> Some(out[i]) == #[trigger] items[i]
        },
    decreases items.len(),
{
    if items.len() > 0 {
        let init = items.drop_last();
        law_items_are_collected_in_order(init);
        assert forall|i: int| 0 <= i < init.len() implies init[i] == #[trigger] items[i] by {}
        assert(items.last() == items[items.len() - 1]);
        if all_items(init) is None {
            let i = choose|i: int| 0 <= i < init.len() && !((#[trigger] init[i]) is Some);
            assert(items[i] is None);
        }
    }
}

/// Entries are collected where no key and no value raised, and then all of them,
/// each at its place; two keys that are the same string are both kept.
pub proof fn law_entries_are_collected_in_order(
    entries: Seq<(Option<Seq<char>>, Option<ValueModel>)>,
)
    ensures
        all_entries(entries) is Some <==> forall|i: int|
            0 <= i < entries.len() ==> (#[trigger] entries[i]).0 is Some && entries[i].1 is Some,
        all_entries(entries) matches Some(out) ==> {
            &&& out.len() == entries.len()
            &&& forall|i: int|
                0 <= i < entries.len() ==> (#[trigger] entries[i]) == (
                    Some(out[i].0),
                    Some(out[i].1),
                )
        },
    decreases entries.len(),
{
    if entries.len() > 0 {
        let init = entries.drop_last();
        law_entries_are_collected_in_order(init);
        assert forall|i: int| 0 <= i < init.len() implies init[i] == #[trigger] entries[i] by {}
        assert(entries.last() == entries[entries.len() - 1]);
        if all_entries(init) is None {
            let i = choose|i: int|
                0 <= i < init.len() && !((#[trigger] init[i]).0 is Some && init[i].1 is Some);
            assert(!(entries[i].0 is Some && entries[i].1 is Some));
        }
    }
}

// ---------------------------------------------------------------------------
// Whole conversions
// ---------------------------------------------------------------------------

/// What is read of one Python object: what it is, and what reading it as each
/// kind gives (`None` where that raises).
pub ghost struct Reading {
    pub is_none: bool,
    pub as_bool: Option<bool>,
    pub is_int: bool,
    pub int_as_i64: Option<i64>,
    pub int_as_float: Option<u64>,
    pub is_float: bool,
    pub float_bits: Option<u64>,
    pub as_str: Option<Seq<char>>,
    pub is_list: bool,
    pub is_tuple: bool,
    pub items: Option<Seq<ValueModel>>,
    pub is_dict: bool,
    pub entries: Option<Seq<(Seq<char>, ValueModel)>>,
    pub has_array: bool,
    pub to_list: Option<ValueModel>,
    pub has_dataclass_fields: bool,
    pub dataclass_fields: Option<Seq<(Seq<char>, ValueModel)>>,
    pub text: Option<Seq<char>>,
}

pub open spec fn yes_no(b: bool) -> AnswerModel {
    if b {
        AnswerModel::Yes
    } else {
        AnswerModel::No
    }
}

pub open spec fn items_or_raised(items: Option<Seq<ValueModel>>) -> AnswerModel {
    match items {
        Some(l) => AnswerModel::Items(l),
        None => AnswerModel::Raised,
    }
}

pub open spec fn entries_or_raised(
    entries: Option<Seq<(Seq<char>, ValueModel)>>,
) -> AnswerModel {
    match entries {
        Some(m) => AnswerModel::Entries(m),
        None => AnswerModel::Raised,
    }
}

/// The answer to a question about an object that reads as `o`.
pub open spec fn answer_of(o: Reading, probe: Probe) -> AnswerModel {
    match probe {
        Probe::IsNone => yes_no(o.is_none),
        Probe::AsBool => match o.as_bool {
            Some(b) => AnswerModel::Bool(b),
            None => AnswerModel::No,
        },
        Probe::IsInt => yes_no(o.is_int),
        Probe::IntAsI64 => match o.int_as_i64 {
            Some(i) => AnswerModel::Int(i),
            None => AnswerModel::Raised,
        },
        Probe::IntAsFloat => match o.int_as_float {
            Some(f) => AnswerModel::Float(f),
            None => AnswerModel::Raised,
        },
        Probe::IsFloat => yes_no(o.is_float),
        Probe::FloatBits => match o.float_bits {
            Some(f) => AnswerModel::Float(f),
            None => AnswerModel::Raised,
        },
        Probe::AsStr => match o.as_str {
            Some(s) => AnswerModel::Text(s),
            None => AnswerModel::No,
        },
        Probe::AsList => if o.is_list {
            items_or_raised(o.items)
        } else {
            AnswerModel::No
        },
        Probe::AsTuple => if o.is_tuple {
            items_or_raised(o.items)
        } else {
            AnswerModel::No
        },
        Probe::AsDict => if o.is_dict {
            entries_or_raised(o.entries)
        } else {
            AnswerModel::No
        },
        Probe::HasArray => yes_no(o.has_array),
        Probe::ArrayToList => match o.to_list {
            Some(v) => AnswerModel::Value(v),
            None => AnswerModel::Raised,
        },
        Probe::HasDataclassFields => yes_no(o.has_dataclass_fields),
        Probe::DataclassFields => entries_or_raised(o.dataclass_fields),
        Probe::Text => match o.text {
            Some(s) => AnswerModel::Text(s),
            None => AnswerModel::Raised,
        },
    }
}

/// The place of a question in the order in which questions are asked.
pub open spec fn rank(probe: Probe) -> nat {
    match probe {
        Probe::IsNone => 15,
        Probe::AsBool => 14,
        Probe::IsInt => 13,
        Probe::IntAsI64 => 12,
        Probe::IntAsFloat => 11,
        Probe::IsFloat => 10,
        Probe::FloatBits => 9,
        Probe::AsStr => 8,
        Probe::AsList => 7,
        Probe::AsTuple => 6,
        Probe::AsDict => 5,
        Probe::HasArray => 4,
        Probe::ArrayToList => 3,
        Probe::HasDataclassFields => 2,
        Probe::DataclassFields => 1,
        Probe::Text => 0,
    }
}

/// How the conversion of what reads as `o` ends when it is at the question
/// `probe`: the value, or `None` where an exception stands.
pub open spec fn conversion(o: Reading, probe: Probe) -> Option<ValueModel>
    decreases rank(probe),
{
    match step_of(probe, answer_of(o, probe)) {
        StepModel::Ask(next) => if rank(next) < rank(probe) {
            conversion(o, next)
        } else {
            None
        },
        StepModel::Done(v) => Some(v),
        StepModel::Raise => None,
    }
}

/// The text of `o` as a value.
pub open spec fn text_value(o: Reading) -> Option<ValueModel> {
    match o.text {
        Some(s) => Some(ValueModel::Str(s)),
        None => None,
    }
}

/// `read` as a value, or the text of `o` where reading raised.
pub open spec fn value_or_text(o: Reading, read: Option<ValueModel>) -> Option<ValueModel> {
    match read {
        Some(v) => Some(v),
        None => text_value(o),
    }
}

pub open spec fn list_value(items: Option<Seq<ValueModel>>) -> Option<ValueModel> {
    match items {
        Some(l) => Some(ValueModel::List(l)),
        None => None,
    }
}

pub open spec fn map_value(entries: Option<Seq<(Seq<char>, ValueModel)>>) -> Option<ValueModel> {
    match entries {
        Some(m) => Some(ValueModel::Dict(m)),
        None => None,
    }
}

/// The value of a dataclass instance, and the text of anything else.
pub open spec fn dataclass_value(o: Reading) -> Option<ValueModel> {
    if o.has_dataclass_fields {
        value_or_text(o, map_value(o.dataclass_fields))
    } else {
        text_value(o)
    }
}

/// The value of what reads as `o`, kind by kind.
pub open spec fn value_of(o: Reading) -> Option<ValueModel> {
    if o.is_none {
        Some(ValueModel::Null)
    } else if o.as_bool is Some {
        Some(ValueModel::Bool(o.as_bool->0))
    } else if o.is_int {
        match (o.int_as_i64, o.int_as_float) {
            (Some(i), _) => Some(ValueModel::Int(i)),
            (None, Some(f)) => Some(ValueModel::Float(f)),
            (None, None) => text_value(o),
        }
    } else if o.is_float {
        match o.float_bits {
            Some(f) => Some(ValueModel::Float(f)),
            None => text_value(o),
        }
    } else if o.as_str is Some {
        Some(ValueModel::Str(o.as_str->0))
    } else if o.is_list || o.is_tuple {
        value_or_text(o, list_value(o.items))
    } else if o.is_dict {
        value_or_text(o, map_value(o.entries))
    } else if o.has_array && o.to_list is Some {
        o.to_list
    } else {
        dataclass_value(o)
    }
}

/// Every answer either ends the conversion or leads to a question further down
/// the order, so a conversion asks each question at most once.
pub proof fn law_conversion_makes_progress(probe: Probe, answer: AnswerModel)
    ensures
        step_of(probe, answer) matches StepModel::Ask(next) ==> rank(next) < rank(probe),
{
}

/// A conversion from its first question gives the value of the object's kind,
/// in the documented order of kinds.
pub proof fn law_conversion_gives_the_value(o: Reading)
    ensures
        conversion(o, FIRST_PROBE) == value_of(o),
{
    reveal_with_fuel(conversion, 16);
}

/// A bool is recorded as a bool, never as the int that it is too.
pub proof fn law_bool_before_int(o: Reading)
    requires
        !o.is_none,
        o.as_bool is Some,
    ensures
        conversion(o, FIRST_PROBE) == Some(ValueModel::Bool(o.as_bool->0)),
{
    law_conversion_gives_the_value(o);
}

/// Anything that has a text is recorded rather than raising.
pub proof fn law_conversion_never_raises_on_text(o: Reading)
    requires
        o.text is Some,
    ensures
        conversion(o, FIRST_PROBE) is Some,
{
    law_conversion_gives_the_value(o);
}

// ---------------------------------------------------------------------------
// Objects within objects
// ---------------------------------------------------------------------------

/// A Python object with the objects in it. A part is absent where reading it
/// raises.
pub ghost struct Object {
    pub is_none: bool,
    pub as_bool: Option<bool>,
    pub is_int: bool,
    pub int_as_i64: Option<i64>,
    pub int_as_float: Option<u64>,
    pub is_float: bool,
    pub float_bits: Option<u64>,
    pub as_str: Option<Seq<char>>,
    pub is_list: bool,
    pub is_tuple: bool,
    /// The items of a list or a tuple, in order.
    pub items: Seq<Object>,
    pub is_dict: bool,
    /// The keys and values of a `dict`, in insertion order.
    pub entries: Seq<(Key, Object)>,
    pub has_array: bool,
    /// What `tolist()` returns.
    pub to_list: Option<Box<Object>>,
    pub has_dataclass_fields: bool,
    /// The names and attributes of the dataclass fields, in the order of their
    /// declaration.
    pub fields: Option<Seq<(Option<Seq<char>>, Option<Object>)>>,
    pub text: Option<Seq<char>>,
}

/// What each item converts to.
pub open spec fn converted_items(o: Object) -> Seq<Option<ValueModel>>
    decreases o, 0int,
{
    Seq::new(
        o.items.len(),
        |i: int|
            if 0 <= i < o.items.len() {
                converted(o.items[i])
            } else {
                None
            },
    )
}

/// What each key reads as and what each value converts to.
pub open spec fn converted_entries(o: Object) -> Seq<(Option<Seq<char>>, Option<ValueModel>)>
    decreases o, 0int,
{
    Seq::new(
        o.entries.len(),
        |i: int|
            if 0 <= i < o.entries.len() {
                (key_read(o.entries[i].0), converted(o.entries[i].1))
            } else {
                (None, None)
            },
    )
}

/// The name of each field and what its attribute converts to.
pub open spec fn converted_fields(o: Object) -> Seq<(Option<Seq<char>>, Option<ValueModel>)>
    decreases o, 0int,
{
    match o.fields {
        Some(fields) => Seq::new(
            fields.len(),
            |i: int|
                if 0 <= i < fields.len() {
                    (
                        fields[i].0,
                        match fields[i].1 {
                            Some(attribute) => converted(attribute),
                            None => None,
                        },
                    )
                } else {
                    (None, None)
                },
        ),
        None => Seq::empty(),
    }
}

/// What is read of an object, with the objects in it converted first.
pub open spec fn reading_of(o: Object) -> Reading
    decreases o, 1int,
{
    Reading {
        is_none: o.is_none,
        as_bool: o.as_bool,
        is_int: o.is_int,
        int_as_i64: o.int_as_i64,
        int_as_float: o.int_as_float,
        is_float: o.is_float,
        float_bits: o.float_bits,
        as_str: o.as_str,
        is_list: o.is_list,
        is_tuple: o.is_tuple,
        items: all_items(converted_items(o)),
        is_dict: o.is_dict,
        entries: all_entries(converted_entries(o)),
        has_array: o.has_array,
        to_list: match o.to_list {
            Some(list) => converted(*list),
            None => None,
        },
        has_dataclass_fields: o.has_dataclass_fields,
        dataclass_fields: match o.fields {
            Some(_) => all_entries(converted_fields(o)),
            None => None,
        },
        text: o.text,
    }
}

/// What an object converts to, or `None` where an exception stands.
pub open spec fn converted(o: Object) -> Option<ValueModel>
    decreases o, 2int,
{
    conversion(reading_of(o), FIRST_PROBE)
}

/// Whether an object is none of the kinds that come before the containers.
pub open spec fn is_compound(o: Object) -> bool {
    &&& !o.is_none
    &&& o.as_bool is None
    &&& !o.is_int
    &&& !o.is_float
    &&& o.as_str is None
}

/// A list or a tuple is converted item by item: the value has as many items,
/// in the same order, each what that item converts to. Where an item cannot be
/// converted, the text of the whole stands in.
pub proof fn law_list_is_converted_item_by_item(o: Object)
    requires
        is_compound(o),
        o.is_list || o.is_tuple,
    ensures
        (forall|i: int| 0 <= i < o.items.len() ==> converted(#[trigger] o.items[i]) is Some) ==> {
            &&& converted(o) matches Some(ValueModel::List(out))
            &&& out.len() == o.items.len()
            &&& forall|i: int|
                0 <= i < out.len() ==> Some(#[trigger] out[i]) == converted(o.items[i])
        },
        !(forall|i: int| 0 <= i < o.items.len() ==> converted(#[trigger] o.items[i]) is Some)
            ==> converted(o) == text_value(reading_of(o)),
{
    let items = converted_items(o);
    law_conversion_gives_the_value(reading_of(o));
    law_items_are_collected_in_order(items);
    assert forall|i: int| 0 <= i < o.items.len() implies #[trigger] items[i] == converted(
        o.items[i],
    ) by {}
    if !(forall|i: int| 0 <= i < o.items.len() ==> converted(#[trigger] o.items[i]) is Some) {
        let i = choose|i: int|
            0 <= i < o.items.len() && !(converted(#[trigger] o.items[i]) is Some);
        assert(items[i] is None);
    } else {
        let out = all_items(items)->0;
        assert forall|i: int| 0 <= i < out.len() implies Some(#[trigger] out[i]) == converted(
            o.items[i],
        ) by {
            assert(items[i] == converted(o.items[i]));
        }
    }
}

/// A `dict` is converted entry by entry: the value has as many entries, in
/// insertion order, each with the key made a string and what that value converts
/// to. Where a key or a value cannot be read, the text of the whole stands in.
pub proof fn law_dict_is_converted_entry_by_entry(o: Object)
    requires
        is_compound(o),
        !o.is_list,
        !o.is_tuple,
        o.is_dict,
    ensures
        (forall|i: int|
            0 <= i < o.entries.len() ==> key_read((#[trigger] o.entries[i]).0) is Some && converted(
                o.entries[i].1,
            ) is Some) ==> {
            &&& converted(o) matches Some(ValueModel::Dict(out))
            &&& out.len() == o.entries.len()
            &&& forall|i: int|
                0 <= i < out.len() ==> {
                    &&& Some((#[trigger] out[i]).0) == key_read(o.entries[i].0)
                    &&& Some(out[i].1) == converted(o.entries[i].1)
                }
        },
        !(forall|i: int|
            0 <= i < o.entries.len() ==> key_read((#[trigger] o.entries[i]).0) is Some && converted(
                o.entries[i].1,
            ) is Some) ==> converted(o) == text_value(reading_of(o)),
{
    let entries = converted_entries(o);
    law_conversion_gives_the_value(reading_of(o));
    law_entries_are_collected_in_order(entries);
    assert forall|i: int| 0 <= i < o.entries.len() implies #[trigger] entries[i] == (
        key_read(o.entries[i].0),
        converted(o.entries[i].1),
    ) by {}
    if !(forall|i: int|
        0 <= i < o.entries.len() ==> key_read((#[trigger] o.entries[i]).0) is Some && converted(
            o.entries[i].1,
        ) is Some) {
        let i = choose|i: int|
            0 <= i < o.entries.len() && !(key_read((#[trigger] o.entries[i]).0) is Some
                && converted(o.entries[i].1) is Some);
        assert(!(entries[i].0 is Some && entries[i].1 is Some));
    } else {
        let out = all_entries(entries)->0;
        assert forall|i: int| 0 <= i < out.len() implies Some((#[trigger] out[i]).0) == key_read(
            o.entries[i].0,
        ) && Some(out[i].1) == converted(o.entries[i].1) by {
            assert(entries[i] == (key_read(o.entries[i].0), converted(o.entries[i].1)));
        }
    }
}

/// A dataclass instance is converted field by field: the value has one entry per
/// field, in the order of declaration, with the field's name and what its attribute
/// converts to. Where a field cannot be read, the text of the whole stands in.
pub proof fn law_dataclass_is_converted_field_by_field(
    o: Object,
    fields: Seq<(Option<Seq<char>>, Option<Object>)>,
)
    requires
        is_compound(o),
        !o.is_list,
        !o.is_tuple,
        !o.is_dict,
        !o.has_array,
        o.has_dataclass_fields,
        o.fields == Some(fields),
    ensures
        (forall|i: int|
            0 <= i < fields.len() ==> (#[trigger] fields[i]).0 is Some && fields[i].1 is Some
                && converted(fields[i].1->0) is Some) ==> {
            &&& converted(o) matches Some(ValueModel::Dict(out))
            &&& out.len() == fields.len()
            &&& forall|i: int|
                0 <= i < out.len() ==> {
                    &&& Some((#[trigger] out[i]).0) == fields[i].0
                    &&& Some(out[i].1) == converted(fields[i].1->0)
                }
        },
        !(forall|i: int|
            0 <= i < fields.len() ==> (#[trigger] fields[i]).0 is Some && fields[i].1 is Some
                && converted(fields[i].1->0) is Some) ==> converted(o) == text_value(
            reading_of(o),
        ),
{
    let entries = converted_fields(o);
    law_conversion_gives_the_value(reading_of(o));
    law_entries_are_collected_in_order(entries);
    assert forall|i: int| 0 <= i < fields.len() implies #[trigger] entries[i] == (
        fields[i].0,
        match fields[i].1 {
            Some(attribute) => converted(attribute),
            None => None,
        },
    ) by {}
    if !(forall|i: int|
        0 <= i < fields.len() ==> (#[trigger] fields[i]).0 is Some && fields[i].1 is Some
            && converted(fields[i].1->0) is Some) {
        let i = choose|i: int|
            0 <= i < fields.len() && !((#[trigger] fields[i]).0 is Some && fields[i].1 is Some
                && converted(fields[i].1->0) is Some);
        assert(!(entries[i].0 is Some && entries[i].1 is Some));
    } else {
        let out = all_entries(entries)->0;
        assert forall|i: int| 0 <= i < out.len() implies Some((#[trigger] out[i]).0)
            == fields[i].0 && Some(out[i].1) == converted(fields[i].1->0) by {
            assert(entries[i].0 == fields[i].0);
        }
    }
}

/// An object with `__array__` is converted as what its `tolist()` returns, where
/// that can be converted.
pub proof fn law_array_is_converted_as_its_list(o: Object, list: Object)
    requires
        is_compound(o),
        !o.is_list,
        !o.is_tuple,
        !o.is_dict,
        o.has_array,
        o.to_list == Some(Box::new(list)),
        converted(list) is Some,
    ensures
        converted(o) == converted(list),
{
    law_conversion_gives_the_value(reading_of(o));
}

// ---------------------------------------------------------------------------
// Kinds
// ---------------------------------------------------------------------------

/// A conversion never makes a value up: it ends with what the last answer holds,
/// by its own kind, and raises only where even the text is missing.
pub proof fn law_answers_become_values(probe: Probe, answer: AnswerModel)
    ensures
        step_of(probe, answer) matches StepModel::Done(v) ==> match answer {
            AnswerModel::Yes => v == ValueModel::Null,
            AnswerModel::Bool(b) => v == ValueModel::Bool(b),
            AnswerModel::Int(i) => v == ValueModel::Int(i),
            AnswerModel::Float(f) => v == ValueModel::Float(f),
            AnswerModel::Text(s) => v == ValueModel::Str(s),
            AnswerModel::Items(l) => v == ValueModel::List(l),
            AnswerModel::Entries(m) => v == ValueModel::Dict(m),
            AnswerModel::Value(x) => v == x,
            AnswerModel::No | AnswerModel::Raised => false,
        },
        step_of(probe, answer) is Raise <==> probe == Probe::Text && !(answer is Text),
{
}

/// `None`, a bool and a `str` are read as what they are, in this order.
pub proof fn law_none_bool_and_str_are_kept(o: Reading)
    ensures
        o.is_none ==> conversion(o, FIRST_PROBE) == Some(ValueModel::Null),
        !o.is_none ==> (o.as_bool matches Some(b) ==> conversion(o, FIRST_PROBE) == Some(
            ValueModel::Bool(b),
        )),
        !o.is_none && o.as_bool is None && !o.is_int && !o.is_float ==> (o.as_str matches Some(s)
            ==> conversion(o, FIRST_PROBE) == Some(ValueModel::Str(s))),
{
    reveal_with_fuel(conversion, 16);
}

/// An `int` is read as an `i64` where it fits, else as a double where it fits, else
/// as its text.
pub proof fn law_int_is_narrowed(o: Reading)
    requires
        !o.is_none,
        o.as_bool is None,
        o.is_int,
    ensures
        o.int_as_i64 matches Some(i) ==> conversion(o, FIRST_PROBE) == Some(ValueModel::Int(i)),
        o.int_as_i64 is None ==> (o.int_as_float matches Some(f) ==> conversion(o, FIRST_PROBE)
            == Some(ValueModel::Float(f))),
        o.int_as_i64 is None && o.int_as_float is None ==> (o.text matches Some(s) ==> conversion(
            o,
            FIRST_PROBE,
        ) == Some(ValueModel::Str(s))),
{
    reveal_with_fuel(conversion, 16);
}

/// A `float` is read as its double.
pub proof fn law_float_is_kept(o: Reading)
    requires
        !o.is_none,
        o.as_bool is None,
        !o.is_int,
        o.is_float,
    ensures
        o.float_bits matches Some(f) ==> conversion(o, FIRST_PROBE) == Some(ValueModel::Float(f)),
{
    reveal_with_fuel(conversion, 16);
}

/// A list or a tuple is read as the list of its items, a `dict` as the map of its
/// entries, an array as what its list is, and a dataclass instance as the map of its
/// fields, in this order.
pub proof fn law_containers_are_read_by_kind(o: Reading)
    requires
        !o.is_none,
        o.as_bool is None,
        !o.is_int,
        !o.is_float,
        o.as_str is None,
    ensures
        o.is_list || o.is_tuple ==> (o.items matches Some(l) ==> conversion(o, FIRST_PROBE) == Some(
            ValueModel::List(l),
        )),
        !o.is_list && !o.is_tuple && o.is_dict ==> (o.entries matches Some(m) ==> conversion(
            o,
            FIRST_PROBE,
        ) == Some(ValueModel::Dict(m))),
        !o.is_list && !o.is_tuple && !o.is_dict && o.has_array ==> (o.to_list matches Some(v)
            ==> conversion(o, FIRST_PROBE) == Some(v)),
        !o.is_list && !o.is_tuple && !o.is_dict && !o.has_array && o.has_dataclass_fields ==> (
        o.dataclass_fields matches Some(m) ==> conversion(o, FIRST_PROBE) == Some(
            ValueModel::Dict(m),
        )),
{
    reveal_with_fuel(conversion, 16);
}

/// Anything that is of no known kind, or whose parts cannot be read, is its text.
pub proof fn law_anything_else_is_its_text(o: Reading, s: Seq<char>)
    requires
        !o.is_none,
        o.as_bool is None,
        !o.is_int,
        !o.is_float,
        o.as_str is None,
        o.text == Some(s),
        o.is_list || o.is_tuple ==> o.items is None,
        o.is_dict ==> o.entries is None,
        o.has_array ==> o.to_list is None,
        o.has_dataclass_fields ==> o.dataclass_fields is None,
    ensures
        conversion(o, FIRST_PROBE) == Some(ValueModel::Str(s)),
{
    reveal_with_fuel(conversion, 16);
}

/// What a value says is what it holds.
pub proof fn law_values_say_what_they_hold(v: PyValue)
    ensures
        v is Null <==> v@ is Null,
        v matches PyValue::Bool(b) ==> v@ == ValueModel::Bool(b),
        v matches PyValue::Int(i) ==> v@ == ValueModel::Int(i),
        v matches PyValue::Float(f) ==> v@ == ValueModel::Float(f),
        v matches PyValue::Str(s) ==> v@ == ValueModel::Str(s@),
        v matches PyValue::List(l) ==> {
            &&& v@ matches ValueModel::List(items)
            &&& items.len() == l@.len()
            &&& forall|i: int| 0 <= i < l@.len() ==> items[i] == (#[trigger] l@[i])@
        },
        v matches PyValue::Dict(m) ==> {
            &&& v@ matches ValueModel::Dict(entries)
            &&& entries.len() == m.0@.len()
            &&& forall|i: int|
                0 <= i < m.0@.len() ==> entries[i] == ((#[trigger] m.0@[i]).0@, m.0@[i].1@)
        },
{
}

/// What an answer says is what it holds.
pub proof fn law_answers_say_what_they_hold(a: Answer)
    ensures
        a is No <==> a@ is No,
        a is Yes <==> a@ is Yes,
        a is Raised <==> a@ is Raised,
        a matches Answer::Bool(b) ==> a@ == AnswerModel::Bool(b),
        a matches Answer::Int(i) ==> a@ == AnswerModel::Int(i),
        a matches Answer::Float(f) ==> a@ == AnswerModel::Float(f),
        a matches Answer::Text(s) ==> a@ == AnswerModel::Text(s@),
        a matches Answer::Value(v) ==> a@ == AnswerModel::Value(v@),
        a matches Answer::Items(l) ==> a@ == AnswerModel::Items(items_model(l)),
        a matches Answer::Entries(m) ==> a@ == AnswerModel::Entries(entries_model(m)),
{
}

/// What a step says is what it holds.
pub proof fn law_steps_say_what_they_hold(s: Step, k: KeyStep)
    ensures
        s matches Step::Ask(p) ==> s@ == StepModel::Ask(p),
        s matches Step::Done(v) ==> s@ == StepModel::Done(v@),
        s is Raise <==> s@ is Raise,
        k matches KeyStep::Ask(p) ==> k@ == KeyStepModel::Ask(p),
        k matches KeyStep::Done(t) ==> k@ == KeyStepModel::Done(t@),
        k is Raise <==> k@ is Raise,
{
}

/// What may be missing says what it holds where it is there.
pub proof fn law_parts_say_what_they_hold(v: Option<PyValue>, s: Option<String>)
    ensures
        v is None <==> option_model(v) is None,
        v matches Some(x) ==> option_model(v) == Some(x@),
        s is None <==> text_model(s) is None,
        s matches Some(x) ==> text_model(s) == Some(x@),
{
}

}
