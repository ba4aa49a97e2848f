//! Sorting the keyword arguments of a call: structured fields, the `message=`
//! override and the `_trapy_caller_skip` depth.

use vstd::prelude::*;

use crate::callsite::{Kind, MESSAGE_FIELD};
use crate::text::str_eq;
use crate::value::PyValue;

verus! {

/// Keyword recognised by every emit and span entry point. Lets a wrapper ask
/// to skip its own frame and report its caller instead. It never becomes a
/// structured field.
pub const CALLER_SKIP_KWARG: &'static str = "_trapy_caller_skip";

/// What a keyword argument is for.
#[derive(Clone, Copy, Debug, PartialEq, Eq, Structural)]
pub enum KwargRole {
    /// The human-readable line: `str(value)` is wanted.
    Message,
    /// How many frames to skip: the value as a `u32` is wanted, if it is one.
    CallerSkip,
    /// A structured field: the converted value is wanted.
    Field,
}

/// What a keyword argument was read as, according to its role.
pub enum KwargOutcome {
    Text(String),
    Skip(Option<u32>),
    Value(PyValue),
}

/// The role of the keyword `key` in a call that makes an event or a span. Only
/// events have a message.
pub open spec fn role_of(kind: Kind, key: Seq<char>) -> KwargRole {
    if kind == Kind::Event && key == MESSAGE_FIELD@ {
        KwargRole::Message
    } else if key == CALLER_SKIP_KWARG@ {
        KwargRole::CallerSkip
    } else {
        KwargRole::Field
    }
}

proof fn lemma_reserved_differ()
    ensures
        "message"@ != "_trapy_caller_skip"@,
{
    reveal_strlit("message");
    reveal_strlit("_trapy_caller_skip");
    assert("message"@.len() != "_trapy_caller_skip"@.len());
}

pub fn kwarg_role(kind: Kind, key: &str) -> (r: KwargRole)
    ensures
        r == role_of(kind, key@),
        r == KwargRole::Message <==> kind == Kind::Event && key@ == "message"@,
        r == KwargRole::CallerSkip <==> key@ == "_trapy_caller_skip"@,
{
    proof {
        lemma_reserved_differ();
    }
    if kind == Kind::Event && str_eq(key, MESSAGE_FIELD) {
        KwargRole::Message
    } else if str_eq(key, CALLER_SKIP_KWARG) {
        KwargRole::CallerSkip
    } else {
        KwargRole::Field
    }
}

/// Whether an argument was read the way its role wants it.
pub open spec fn fits(role: KwargRole, outcome: KwargOutcome) -> bool {
    match role {
        KwargRole::Message => outcome is Text,
        KwargRole::CallerSkip => outcome is Skip,
        KwargRole::Field => outcome is Value,
    }
}

/// The sorted arguments of a call.
pub struct ParsedKwargs {
    pub fields: Vec<(String, PyValue)>,
    pub message: Option<String>,
    pub caller_skip: u32,
}

/// What the sorted arguments of a call say.
#[verifier::ext_equal]
pub struct ParsedModel {
    pub fields: Seq<(Seq<char>, PyValue)>,
    pub message: Option<Seq<char>>,
    pub caller_skip: u32,
}

impl View for ParsedKwargs {
    type V = ParsedModel;

    open spec fn view(&self) -> ParsedModel {
        ParsedModel {
            fields: fields_model(self.fields@),
            message: match self.message {
                Some(s) => Some(s@),
                None => None,
            },
            caller_skip: self.caller_skip,
        }
    }
}

/// Names and values of structured fields.
pub open spec fn fields_model(fields: Seq<(String, PyValue)>) -> Seq<(Seq<char>, PyValue)> {
    Seq::new(fields.len(), |i: int| (fields[i].0@, fields[i].1))
}

/// The names of structured fields.
pub open spec fn field_names(fields: Seq<(Seq<char>, PyValue)>) -> Seq<Seq<char>> {
    Seq::new(fields.len(), |i: int| fields[i].0)
}

/// Nothing sorted yet.
pub open spec fn nothing_parsed() -> ParsedModel {
    ParsedModel { fields: Seq::empty(), message: None, caller_skip: 0 }
}

/// The sorted arguments after one more.
pub open spec fn parsed_with(
    kind: Kind,
    p: ParsedModel,
    key: Seq<char>,
    outcome: KwargOutcome,
) -> ParsedModel {
    match (role_of(kind, key), outcome) {
        (KwargRole::Message, KwargOutcome::Text(s)) => ParsedModel { message: Some(s@), ..p },
        (KwargRole::CallerSkip, KwargOutcome::Skip(skip)) => ParsedModel {
            caller_skip: match skip {
                Some(n) => n,
                None => 0,
            },
            ..p
        },
        (KwargRole::Field, KwargOutcome::Value(v)) => ParsedModel {
            fields: p.fields.push((key, v)),
            ..p
        },
        _ => p,
    }
}

impl ParsedKwargs {
    /// The arguments of a call that has none.
    pub fn new() -> (r: Self)
        ensures
            r@ == nothing_parsed(),
    {
        let r = ParsedKwargs { fields: Vec::new(), message: None, caller_skip: 0 };
        assert(r@ =~= nothing_parsed());
        r
    }

    /// Sorts one more argument: `key`, read the way [`kwarg_role`] wants it. A
    /// skip depth that is no `u32` counts as zero.
    pub fn parse_kwarg(&mut self, kind: Kind, key: String, outcome: KwargOutcome)
        requires
            fits(role_of(kind, key@), outcome),
        ensures
            final(self)@ == parsed_with(kind, old(self)@, key@, outcome),
            outcome matches KwargOutcome::Text(s) ==> {
                &&& final(self).message == Some(s)
                &&& final(self).fields@ == old(self).fields@
                &&& final(self).caller_skip == old(self).caller_skip
            },
            outcome matches KwargOutcome::Skip(skip) ==> {
                &&& final(self).caller_skip == (match skip {
                    Some(n) => n,
                    None => 0,
                })
                &&& final(self).fields@ == old(self).fields@
                &&& final(self).message == old(self).message
            },
            outcome matches KwargOutcome::Value(v) ==> {
                &&& final(self).fields@ == old(self).fields@.push((key, v))
                &&& final(self).message == old(self).message
                &&& final(self).caller_skip == old(self).caller_skip
            },
    {
        match outcome {
            KwargOutcome::Text(s) => {
                self.message = Some(s);
            },
            KwargOutcome::Skip(skip) => {
                self.caller_skip = skip.unwrap_or(0);
            },
            KwargOutcome::Value(v) => {
                self.fields.push((key, v));
            },
        }
        assert(self@ =~= parsed_with(kind, old(self)@, key@, outcome));
    }
}

// ---------------------------------------------------------------------------
// Whole calls
// ---------------------------------------------------------------------------

/// All the arguments of a call, sorted in turn.
pub open spec fn parsed_all(kind: Kind, items: Seq<(Seq<char>, KwargOutcome)>) -> ParsedModel
    decreases items.len(),
{
    if items.len() == 0 {
        nothing_parsed()
    } else {
        parsed_with(
            kind,
            parsed_all(kind, items.drop_last()),
            items.last().0,
            items.last().1,
        )
    }
}

/// Names of arguments, and what each was read as.
pub open spec fn items_model(items: Seq<(String, KwargOutcome)>) -> Seq<
    (Seq<char>, KwargOutcome),
> {
    Seq::new(items.len(), |i: int| (items[i].0@, items[i].1))
}

/// Sorts all the arguments of a call that makes an event or a span, each read
/// the way [`kwarg_role`] wants it.
pub fn parse_kwargs(kind: Kind, items: Vec<(String, KwargOutcome)>) -> (r: ParsedKwargs)
    requires
        forall|i: int|
            0 <= i < items@.len() ==> fits(
                role_of(kind, (#[trigger] items@[i]).0@),
                items@[i].1,
            ),
    ensures
        r@ == parsed_all(kind, items_model(items@)),
{
    let ghost all = items_model(items@);
    let mut parsed: ParsedKwargs = ParsedKwargs::new();
    assert(all.subrange(0, 0) =~= Seq::<(Seq<char>, KwargOutcome)>::empty());
    for item in iter: items
        invariant
            all == items_model(items@),
            iter.seq() == items@,
            forall|i: int|
                0 <= i < items@.len() ==> fits(
                    role_of(kind, (#[trigger] items@[i]).0@),
                    items@[i].1,
                ),
            parsed@ == parsed_all(kind, all.subrange(0, iter.index())),
    {
        let ghost part = all.subrange(0, iter.index() + 1);
        assert(part.drop_last() =~= all.subrange(0, iter.index()));
        assert(part.last() == (item.0@, item.1));
        parsed.parse_kwarg(kind, item.0, item.1);
    }
    assert(all.subrange(0, all.len() as int) =~= all);
    parsed
}

/// The arguments of a call that are fields, in the caller's order.
pub open spec fn field_items(
    kind: Kind,
    items: Seq<(Seq<char>, KwargOutcome)>,
) -> Seq<(Seq<char>, KwargOutcome)> {
    items.filter(|it: (Seq<char>, KwargOutcome)| role_of(kind, it.0) == KwargRole::Field)
}

/// The structured fields are the arguments with an ordinary name, each with its
/// value, in the caller's order.
pub proof fn law_fields_keep_the_callers_order(
    kind: Kind,
    items: Seq<(Seq<char>, KwargOutcome)>,
)
    requires
        forall|i: int|
            0 <= i < items.len() ==> fits(role_of(kind, (#[trigger] items[i]).0), items[i].1),
    ensures
        parsed_all(kind, items).fields.len() == field_items(kind, items).len(),
        forall|i: int|
            0 <= i < field_items(kind, items).len() ==> {
                &&& (#[trigger] parsed_all(kind, items).fields[i]).0 == field_items(kind, items)[i].0
                &&& field_items(kind, items)[i].1 == KwargOutcome::Value(
                    parsed_all(kind, items).fields[i].1,
                )
            },
    decreases items.len(),
{
    reveal(Seq::filter);
    if items.len() > 0 {
        law_fields_keep_the_callers_order(kind, items.drop_last());
        assert(fits(role_of(kind, items.last().0), items.last().1));
    }
}

/// No structured field is named like a reserved keyword, so neither the skip
/// depth nor, in an event, the message is recorded a second time.
pub proof fn law_reserved_keywords_are_no_fields(
    kind: Kind,
    items: Seq<(Seq<char>, KwargOutcome)>,
    i: int,
)
    requires
        0 <= i < parsed_all(kind, items).fields.len(),
    ensures
        parsed_all(kind, items).fields[i].0 != CALLER_SKIP_KWARG@,
        kind == Kind::Event ==> parsed_all(kind, items).fields[i].0 != MESSAGE_FIELD@,
    decreases items.len(),
{
    if items.len() > 0 {
        let before = parsed_all(kind, items.drop_last());
        if i < before.fields.len() {
            law_reserved_keywords_are_no_fields(kind, items.drop_last(), i);
        }
    }
}

/// A call in which no keyword is `message` has no override.
pub proof fn law_no_message_no_override(kind: Kind, items: Seq<(Seq<char>, KwargOutcome)>)
    requires
        forall|i: int| 0 <= i < items.len() ==> (#[trigger] items[i]).0 != MESSAGE_FIELD@,
    ensures
        parsed_all(kind, items).message is None,
    decreases items.len(),
{
    if items.len() > 0 {
        law_no_message_no_override(kind, items.drop_last());
    }
}

/// In an event `message` is the message and in a span it is a field;
/// `_trapy_caller_skip` is the skip depth in both; every other keyword is a field.
pub proof fn law_roles_by_name(key: Seq<char>)
    ensures
        role_of(Kind::Event, key) == KwargRole::Message <==> key == "message"@,
        role_of(Kind::Span, key) != KwargRole::Message,
        role_of(Kind::Event, key) == KwargRole::CallerSkip <==> key == "_trapy_caller_skip"@,
        role_of(Kind::Span, key) == KwargRole::CallerSkip <==> key == "_trapy_caller_skip"@,
        role_of(Kind::Event, key) == KwargRole::Field <==> key != "message"@ && key
            != "_trapy_caller_skip"@,
        role_of(Kind::Span, key) == KwargRole::Field <==> key != "_trapy_caller_skip"@,
{
    lemma_reserved_differ();
}

/// In a call with no reserved keyword every argument is a field: there are as many
/// fields as arguments, each under its name and with its value, in order.
pub proof fn law_ordinary_arguments_are_the_fields(
    kind: Kind,
    items: Seq<(Seq<char>, KwargOutcome)>,
)
    requires
        forall|i: int|
            0 <= i < items.len() ==> {
                &&& (#[trigger] items[i]).0 != "_trapy_caller_skip"@
                &&& kind == Kind::Event ==> items[i].0 != "message"@
                &&& items[i].1 is Value
            },
    ensures
        parsed_all(kind, items).fields.len() == items.len(),
        forall|i: int|
            0 <= i < items.len() ==> {
                &&& parsed_all(kind, items).fields[i].0 == (#[trigger] items[i]).0
                &&& items[i].1 == KwargOutcome::Value(parsed_all(kind, items).fields[i].1)
            },
        parsed_all(kind, items).message is None,
        parsed_all(kind, items).caller_skip == 0,
    decreases items.len(),
{
    if items.len() > 0 {
        let init = items.drop_last();
        assert forall|i: int| 0 <= i < init.len() implies {
            &&& (#[trigger] init[i]).0 != "_trapy_caller_skip"@
            &&& kind == Kind::Event ==> init[i].0 != "message"@
            &&& init[i].1 is Value
        } by {
            assert(init[i] == items[i]);
        }
        law_ordinary_arguments_are_the_fields(kind, init);
        law_roles_by_name(items.last().0);
        assert(items.last() == items[items.len() - 1]);
        assert forall|i: int| 0 <= i < items.len() implies {
            &&& parsed_all(kind, items).fields[i].0 == (#[trigger] items[i]).0
            &&& items[i].1 == KwargOutcome::Value(parsed_all(kind, items).fields[i].1)
        } by {
            if i < init.len() {
                assert(init[i] == items[i]);
            }
        }
    }
}

/// The skip depth is the last one given, zero where that was no `u32`.
pub proof fn law_skip_depth_is_the_one_given(
    kind: Kind,
    items: Seq<(Seq<char>, KwargOutcome)>,
    i: int,
    skip: Option<u32>,
)
    requires
        0 <= i < items.len(),
        items[i] == ("_trapy_caller_skip"@, KwargOutcome::Skip(skip)),
        forall|j: int| i < j < items.len() ==> (#[trigger] items[j]).0 != "_trapy_caller_skip"@,
    ensures
        skip matches Some(n) ==> parsed_all(kind, items).caller_skip == n,
        skip is None ==> parsed_all(kind, items).caller_skip == 0,
    decreases items.len(),
{
    lemma_reserved_differ();
    if i < items.len() - 1 {
        law_skip_depth_is_the_one_given(kind, items.drop_last(), i, skip);
        assert(items.last() == items[items.len() - 1]);
    }
}

/// A call without the skip keyword skips nothing.
pub proof fn law_no_skip_keyword_no_skip(kind: Kind, items: Seq<(Seq<char>, KwargOutcome)>)
    requires
        forall|i: int| 0 <= i < items.len() ==> (#[trigger] items[i]).0 != "_trapy_caller_skip"@,
    ensures
        parsed_all(kind, items).caller_skip == 0,
    decreases items.len(),
{
    if items.len() > 0 {
        law_no_skip_keyword_no_skip(kind, items.drop_last());
        assert(items.last() == items[items.len() - 1]);
    }
}

/// What sorted arguments say is what they hold.
pub proof fn law_parsed_says_what_it_holds(p: ParsedKwargs)
    ensures
        p@.caller_skip == p.caller_skip,
        p.message matches Some(s) ==> p@.message == Some(s@),
        p.message is None ==> p@.message is None,
        p@.fields.len() == p.fields@.len(),
        forall|i: int|
            0 <= i < p.fields@.len() ==> p@.fields[i] == (
                (#[trigger] p.fields@[i]).0@,
                p.fields@[i].1,
            ),
        field_names(p@.fields).len() == p.fields@.len(),
        forall|i: int|
            0 <= i < p.fields@.len() ==> field_names(p@.fields)[i] == (#[trigger] p.fields@[i]).0@,
{
}

/// The arguments of a call are sorted under their own names, as they were read.
pub proof fn law_items_are_the_arguments(items: Seq<(String, KwargOutcome)>, i: int)
    requires
        0 <= i < items.len(),
    ensures
        items_model(items).len() == items.len(),
        items_model(items)[i] == (items[i].0@, items[i].1),
{
}

}
