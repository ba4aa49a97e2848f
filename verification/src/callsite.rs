//! Dynamic callsites, one per distinct event or span signature.
//!
//! `tracing` wants metadata that lives for the whole process, with a fixed
//! field set. To make a call with keyword arguments produce one real field per
//! argument, a callsite is built for each distinct signature and kept for ever. A
//! call that comes back with the same signature gets the same callsite back.
//!
//! The signature of an event is its file, line, level, target, module and argument
//! names. That of a span is its file, line, level, name and argument names: a span
//! keeps the target and the module of the first request.

use vstd::prelude::*;

use crate::level::Level;
use crate::text::{concat2, str_eq};

verus! {

/// First field of every *event*: the human-readable line. Spans have no such
/// field, their label is the name in the metadata.
pub const MESSAGE_FIELD: &'static str = "message";

/// Metadata name of every event.
pub const EVENT_NAME: &'static str = "trapy_event";

/// What a callsite describes.
#[derive(Clone, Copy, Debug, PartialEq, Eq, Structural)]
pub enum Kind {
    Event,
    Span,
}

/// The contents of each text in turn.
pub open spec fn texts(names: Seq<&str>) -> Seq<Seq<char>> {
    Seq::new(names.len(), |i: int| names[i]@)
}

// ---------------------------------------------------------------------------
// Interning
// ---------------------------------------------------------------------------

/// Strings that live for the whole process, each kept once.
pub struct Interner {
    strings: Vec<&'static str>,
}

impl View for Interner {
    type V = Seq<Seq<char>>;

    closed spec fn view(&self) -> Seq<Seq<char>> {
        texts(self.strings@)
    }
}

/// A table of texts after `s` was asked for.
pub open spec fn interned(table: Seq<Seq<char>>, s: Seq<char>) -> Seq<Seq<char>> {
    if table.contains(s) {
        table
    } else {
        table.push(s)
    }
}

/// A table of texts after each of `all` was asked for in turn.
pub open spec fn interned_all(table: Seq<Seq<char>>, all: Seq<Seq<char>>) -> Seq<Seq<char>>
    decreases all.len(),
{
    if all.len() == 0 {
        table
    } else {
        interned(interned_all(table, all.drop_last()), all.last())
    }
}

/// `String::leak`: the text of `s`, kept for the whole process.
#[verifier::external_body]
fn leak_string(s: String) -> (r: &'static str)
    ensures
        r@ == s@,
{
    s.leak()
}

/// `Vec::leak`: the elements of `v`, kept for the whole process.
#[verifier::external_body]
fn leak_names(v: Vec<&'static str>) -> (r: &'static [&'static str])
    ensures
        r@ == v@,
{
    v.leak()
}

impl Interner {
    /// No text is kept twice.
    pub open spec fn wf(&self) -> bool {
        self@.no_duplicates()
    }

    pub fn new() -> (r: Self)
        ensures
            r.wf(),
            r@ == Seq::<Seq<char>>::empty(),
    {
        let r = Interner { strings: Vec::new() };
        assert(r@ =~= Seq::<Seq<char>>::empty());
        r
    }
}

/// The process-long copy of `s`: the one made before, if there is one.
pub fn intern(table: &mut Interner, s: &str) -> (r: &'static str)
    requires
        old(table).wf(),
    ensures
        final(table).wf(),
        r@ == s@,
        final(table)@ == interned(old(table)@, s@),
{
    let n: usize = table.strings.len();
    let mut i: usize = 0;
    while i < n
        invariant
            n == table.strings@.len(),
            i <= n,
            *table == *old(table),
            table.wf(),
            forall|j: int| 0 <= j < i ==> (#[trigger] table.strings@[j])@ != s@,
        decreases n - i,
    {
        let known: &'static str = table.strings[i];
        if str_eq(known, s) {
            assert(table@[i as int] == s@);
            return known;
        }
        i = i + 1;
    }
    assert(!table@.contains(s@)) by {
        if table@.contains(s@) {
            let j = choose|j: int| 0 <= j < table@.len() && table@[j] == s@;
            assert(table.strings@[j]@ == s@);
        }
    }
    let leaked: &'static str = leak_string(s.to_owned());
    table.strings.push(leaked);
    assert(table@ =~= old(table)@.push(s@));
    leaked
}

/// Asking again for a text that was asked for changes nothing.
pub proof fn law_intern_is_idempotent(table: Seq<Seq<char>>, s: Seq<char>)
    ensures
        interned(interned(table, s), s) == interned(table, s),
{
    if !table.contains(s) {
        assert(table.push(s)[table.len() as int] == s);
    }
}

/// Interning keeps every text that was there, at its place.
pub proof fn law_intern_keeps_the_table(table: Seq<Seq<char>>, s: Seq<char>)
    ensures
        table.len() <= interned(table, s).len(),
        interned(table, s).subrange(0, table.len() as int) == table,
        interned(table, s).contains(s),
{
    assert(interned(table, s).subrange(0, table.len() as int) =~= table);
    if !table.contains(s) {
        assert(table.push(s)[table.len() as int] == s);
    }
}

// ---------------------------------------------------------------------------
// Metadata
// ---------------------------------------------------------------------------

/// What a callsite says of its events or spans.
#[verifier::ext_equal]
pub struct MetadataModel {
    pub name: Seq<char>,
    pub target: Seq<char>,
    pub level: Level,
    pub file: Seq<char>,
    pub line: u32,
    pub module: Seq<char>,
    pub fields: Seq<Seq<char>>,
    pub kind: Kind,
}

/// Metadata of a callsite, in texts that live for the whole process.
pub struct Metadata {
    pub name: &'static str,
    pub target: &'static str,
    pub level: Level,
    pub file: &'static str,
    pub line: u32,
    pub module: &'static str,
    pub fields: &'static [&'static str],
    pub kind: Kind,
}

impl View for Metadata {
    type V = MetadataModel;

    open spec fn view(&self) -> MetadataModel {
        MetadataModel {
            name: self.name@,
            target: self.target@,
            level: self.level,
            file: self.file@,
            line: self.line,
            module: self.module@,
            fields: texts(self.fields@),
            kind: self.kind,
        }
    }
}

/// A callsite: its metadata and its number in the registry.
pub struct DynCallsite {
    meta: Metadata,
    id: usize,
}

impl View for DynCallsite {
    type V = MetadataModel;

    closed spec fn view(&self) -> MetadataModel {
        self.meta@
    }
}

impl DynCallsite {
    /// The callsite's number: its place in the registry that built it.
    pub closed spec fn number(&self) -> nat {
        self.id as nat
    }

    /// The metadata, which lives as long as the process.
    pub fn meta_static(&'static self) -> (r: &'static Metadata)
        ensures
            r@ == self@,
    {
        &self.meta
    }

    pub fn id(&self) -> (r: usize)
        ensures
            r == self.number(),
    {
        self.id
    }
}

/// `Box::leak`: `callsite`, kept for the whole process.
#[verifier::external_body]
fn leak_callsite(callsite: Box<DynCallsite>) -> (r: &'static DynCallsite)
    ensures
        *r == *callsite,
{
    Box::leak(callsite)
}

/// Whether two lists of names hold the same texts in the same order.
fn same_names(a: &[&str], b: &[&str]) -> (r: bool)
    ensures
        r == (texts(a@) == texts(b@)),
{
    let n: usize = a.len();
    if n != b.len() {
        assert(texts(a@).len() != texts(b@).len());
        return false;
    }
    let mut i: usize = 0;
    while i < n
        invariant
            n == a@.len(),
            n == b@.len(),
            i <= n,
            forall|j: int| 0 <= j < i ==> (#[trigger] a@[j])@ == b@[j]@,
        decreases n - i,
    {
        if !str_eq(a[i], b[i]) {
            assert(texts(a@)[i as int] != texts(b@)[i as int]);
            return false;
        }
        i = i + 1;
    }
    assert(texts(a@) =~= texts(b@));
    true
}

// ---------------------------------------------------------------------------
// Registry
// ---------------------------------------------------------------------------

/// Every callsite built so far, and the texts they are made of.
pub struct Registry {
    table: Interner,
    callsites: Vec<&'static DynCallsite>,
}

/// What a registry holds.
#[verifier::ext_equal]
pub struct RegistryModel {
    pub callsites: Seq<MetadataModel>,
    pub table: Seq<Seq<char>>,
}

impl View for Registry {
    type V = RegistryModel;

    closed spec fn view(&self) -> RegistryModel {
        RegistryModel {
            callsites: Seq::new(self.callsites@.len(), |i: int| self.callsites@[i]@),
            table: self.table@,
        }
    }
}

/// A registry after the callsite `meta` was asked for, where building it takes
/// process-long copies of `parts`.
pub open spec fn registered(
    reg: RegistryModel,
    meta: MetadataModel,
    parts: Seq<Seq<char>>,
) -> RegistryModel {
    if reg.callsites.contains(meta) {
        reg
    } else {
        RegistryModel {
            callsites: reg.callsites.push(meta),
            table: interned_all(reg.table, parts),
        }
    }
}

/// Whether two spans have the same signature.
pub open spec fn same_span_signature(a: MetadataModel, b: MetadataModel) -> bool {
    &&& a.kind == Kind::Span
    &&& b.kind == Kind::Span
    &&& a.file == b.file
    &&& a.line == b.line
    &&& a.level == b.level
    &&& a.name == b.name
    &&& a.fields == b.fields
}

/// The first span with the signature of `wanted`, if there is one.
pub open spec fn known_span(
    callsites: Seq<MetadataModel>,
    wanted: MetadataModel,
) -> Option<MetadataModel>
    decreases callsites.len(),
{
    if callsites.len() == 0 {
        None
    } else {
        match known_span(callsites.drop_last(), wanted) {
            Some(m) => Some(m),
            None => if same_span_signature(callsites.last(), wanted) {
                Some(callsites.last())
            } else {
                None
            },
        }
    }
}

/// The callsite that a request for the span `wanted` gets.
pub open spec fn span_callsite(reg: RegistryModel, wanted: MetadataModel) -> MetadataModel {
    match known_span(reg.callsites, wanted) {
        Some(m) => m,
        None => wanted,
    }
}

/// A registry after the span `wanted` was asked for, where building it takes
/// process-long copies of `parts`.
pub open spec fn registered_span(
    reg: RegistryModel,
    wanted: MetadataModel,
    parts: Seq<Seq<char>>,
) -> RegistryModel {
    match known_span(reg.callsites, wanted) {
        Some(_) => reg,
        None => RegistryModel {
            callsites: reg.callsites.push(wanted),
            table: interned_all(reg.table, parts),
        },
    }
}

/// Whether no two spans have the same signature.
pub open spec fn spans_are_distinct(callsites: Seq<MetadataModel>) -> bool {
    forall|i: int, j: int|
        0 <= i < j < callsites.len() ==> !same_span_signature(
            #[trigger] callsites[i],
            #[trigger] callsites[j],
        )
}

proof fn lemma_known_span(callsites: Seq<MetadataModel>, wanted: MetadataModel)
    ensures
        known_span(callsites, wanted) is None <==> forall|i: int|
            0 <= i < callsites.len() ==> !same_span_signature(#[trigger] callsites[i], wanted),
        known_span(callsites, wanted) matches Some(m) ==> same_span_signature(m, wanted),
    decreases callsites.len(),
{
    if callsites.len() > 0 {
        let init = callsites.drop_last();
        lemma_known_span(init, wanted);
        assert forall|i: int| 0 <= i < init.len() implies init[i] == #[trigger] callsites[i] by {}
        if known_span(init, wanted) is Some {
            let i = choose|i: int|
                0 <= i < init.len() && same_span_signature(#[trigger] init[i], wanted);
            assert(same_span_signature(callsites[i], wanted));
        }
        assert(callsites.last() == callsites[callsites.len() - 1]);
    }
}

/// What is known of a part is known of the whole.
proof fn lemma_known_span_prefix(callsites: Seq<MetadataModel>, wanted: MetadataModel, n: int)
    requires
        0 <= n <= callsites.len(),
        known_span(callsites.subrange(0, n), wanted) is Some,
    ensures
        known_span(callsites, wanted) == known_span(callsites.subrange(0, n), wanted),
    decreases callsites.len() - n,
{
    if n == callsites.len() {
        assert(callsites.subrange(0, n) =~= callsites);
    } else {
        assert(callsites.subrange(0, n + 1).drop_last() =~= callsites.subrange(0, n));
        lemma_known_span_prefix(callsites, wanted, n + 1);
    }
}

/// The metadata of an event: its field set is `message` and then the names of
/// the keyword arguments, in the caller's order.
pub open spec fn event_metadata(
    file: Seq<char>,
    line: u32,
    level: Level,
    target: Seq<char>,
    module: Seq<char>,
    kwarg_names: Seq<Seq<char>>,
) -> MetadataModel {
    MetadataModel {
        name: EVENT_NAME@,
        target,
        level,
        file,
        line,
        module,
        fields: seq![MESSAGE_FIELD@] + kwarg_names,
        kind: Kind::Event,
    }
}

/// The metadata of a span: its field set is the names of the keyword
/// arguments, in the caller's order.
pub open spec fn span_metadata(
    file: Seq<char>,
    line: u32,
    level: Level,
    module: Seq<char>,
    name: Seq<char>,
    kwarg_names: Seq<Seq<char>>,
) -> MetadataModel {
    MetadataModel {
        name,
        target: python_target(module),
        level,
        file,
        line,
        module,
        fields: kwarg_names,
        kind: Kind::Span,
    }
}

/// The target of what comes from the Python module `module`.
pub open spec fn python_target(module: Seq<char>) -> Seq<char> {
    "py:"@ + module
}

pub fn py_target(module: &str) -> (r: String)
    ensures
        r@ == python_target(module@),
{
    concat2("py:", module)
}

impl Registry {
    /// No two callsites say the same, no two spans have the same signature, no
    /// text is kept twice, and each callsite carries the number of its place.
    pub closed spec fn wf(&self) -> bool {
        &&& self.table.wf()
        &&& self@.callsites.no_duplicates()
        &&& spans_are_distinct(self@.callsites)
        &&& forall|i: int|
            0 <= i < self.callsites@.len() ==> (#[trigger] self.callsites@[i]).id == i
    }

    pub fn new() -> (r: Self)
        ensures
            r.wf(),
            r@.callsites == Seq::<MetadataModel>::empty(),
            r@.table == Seq::<Seq<char>>::empty(),
    {
        let r = Registry { table: Interner::new(), callsites: Vec::new() };
        assert(r@.callsites =~= Seq::<MetadataModel>::empty());
        r
    }

    /// How many callsites were built.
    pub fn len(&self) -> (r: usize)
        ensures
            r == self@.callsites.len(),
    {
        self.callsites.len()
    }

    /// The event callsite that says what is asked for, if it was built before.
    fn find_event(
        &self,
        target: &str,
        level: Level,
        file: &str,
        line: u32,
        module: &str,
        fields: &[&str],
    ) -> (r: Option<&'static DynCallsite>)
        requires
            self.wf(),
        ensures
            ({
                let wanted = MetadataModel {
                    name: EVENT_NAME@,
                    target: target@,
                    level,
                    file: file@,
                    line,
                    module: module@,
                    fields: texts(fields@),
                    kind: Kind::Event,
                };
                match r {
                    Some(c) => {
                        &&& c@ == wanted
                        &&& c.number() < self@.callsites.len()
                        &&& self@.callsites[c.number() as int] == wanted
                    },
                    None => !self@.callsites.contains(wanted),
                }
            }),
    {
        let ghost wanted = MetadataModel {
            name: EVENT_NAME@,
            target: target@,
            level,
            file: file@,
            line,
            module: module@,
            fields: texts(fields@),
            kind: Kind::Event,
        };
        let n: usize = self.callsites.len();
        let mut i: usize = 0;
        while i < n
            invariant
                n == self.callsites@.len(),
                i <= n,
                self.wf(),
                wanted == (MetadataModel {
                    name: EVENT_NAME@,
                    target: target@,
                    level,
                    file: file@,
                    line,
                    module: module@,
                    fields: texts(fields@),
                    kind: Kind::Event,
                }),
                forall|j: int| 0 <= j < i ==> (#[trigger] self.callsites@[j])@ != wanted,
            decreases n - i,
        {
            let c: &'static DynCallsite = self.callsites[i];
            if c.meta.line == line && c.meta.level == level && c.meta.kind == Kind::Event && str_eq(
                c.meta.file,
                file,
            ) && str_eq(c.meta.name, EVENT_NAME) && str_eq(c.meta.target, target) && str_eq(
                c.meta.module,
                module,
            ) && same_names(c.meta.fields, fields) {
                assert(c@ == wanted);
                assert(self@.callsites[i as int] == wanted);
                return Some(c);
            }
            i = i + 1;
        }
        assert(!self@.callsites.contains(wanted)) by {
            if self@.callsites.contains(wanted) {
                let j = choose|j: int|
                    0 <= j < self@.callsites.len() && self@.callsites[j] == wanted;
                assert(self.callsites@[j]@ == wanted);
            }
        }
        None
    }

    /// The first span callsite with the given signature, if it was built before.
    fn find_span(
        &self,
        level: Level,
        file: &str,
        line: u32,
        name: &str,
        fields: &[&str],
        Ghost(wanted): Ghost<MetadataModel>,
    ) -> (r: Option<&'static DynCallsite>)
        requires
            self.wf(),
            wanted.kind == Kind::Span,
            wanted.level == level,
            wanted.file == file@,
            wanted.line == line,
            wanted.name == name@,
            wanted.fields == texts(fields@),
        ensures
            match r {
                Some(c) => {
                    &&& known_span(self@.callsites, wanted) == Some(c@)
                    &&& c.number() < self@.callsites.len()
                    &&& self@.callsites[c.number() as int] == c@
                },
                None => known_span(self@.callsites, wanted) is None,
            },
    {
        let ghost all = self@.callsites;
        let n: usize = self.callsites.len();
        let mut i: usize = 0;
        assert(all.subrange(0, 0) =~= Seq::<MetadataModel>::empty());
        while i < n
            invariant
                n == self.callsites@.len(),
                i <= n,
                self.wf(),
                all == self@.callsites,
                wanted.kind == Kind::Span,
                wanted.level == level,
                wanted.file == file@,
                wanted.line == line,
                wanted.name == name@,
                wanted.fields == texts(fields@),
                known_span(all.subrange(0, i as int), wanted) is None,
            decreases n - i,
        {
            let c: &'static DynCallsite = self.callsites[i];
            let ghost part = all.subrange(0, i + 1);
            assert(part.drop_last() =~= all.subrange(0, i as int));
            assert(part.last() == c@);
            if c.meta.line == line && c.meta.level == level && c.meta.kind == Kind::Span && str_eq(
                c.meta.file,
                file,
            ) && str_eq(c.meta.name, name) && same_names(c.meta.fields, fields) {
                assert(known_span(part, wanted) == Some(c@));
                proof {
                    lemma_known_span_prefix(all, wanted, i + 1);
                }
                return Some(c);
            }
            i = i + 1;
        }
        assert(all.subrange(0, n as int) =~= all);
        None
    }

    /// Keeps a callsite with the given metadata.
    fn build_callsite(&mut self, meta: Metadata) -> (r: &'static DynCallsite)
        requires
            old(self).wf(),
            !old(self)@.callsites.contains(meta@),
            known_span(old(self)@.callsites, meta@) is None,
        ensures
            final(self).wf(),
            r@ == meta@,
            r.number() == old(self)@.callsites.len(),
            final(self)@.callsites == old(self)@.callsites.push(meta@),
            final(self)@.table == old(self)@.table,
    {
        proof {
            lemma_known_span(self@.callsites, meta@);
        }
        let id: usize = self.callsites.len();
        let c: &'static DynCallsite = leak_callsite(Box::new(DynCallsite { meta, id }));
        self.callsites.push(c);
        assert(self@.callsites =~= old(self)@.callsites.push(meta@));
        c
    }
}

/// Process-long copies of `names`, behind those already in `out`.
fn intern_names(
    table: &mut Interner,
    out: &mut Vec<&'static str>,
    names: &[&str],
)
    requires
        old(table).wf(),
    ensures
        final(table).wf(),
        final(table)@ == interned_all(old(table)@, texts(names@)),
        texts(final(out)@) == texts(old(out)@) + texts(names@),
{
    let n: usize = names.len();
    let mut i: usize = 0;
    assert(texts(names@).subrange(0, 0) =~= Seq::<Seq<char>>::empty());
    assert(texts(out@) =~= texts(old(out)@) + texts(names@).subrange(0, 0));
    while i < n
        invariant
            n == names@.len(),
            i <= n,
            table.wf(),
            table@ == interned_all(old(table)@, texts(names@).subrange(0, i as int)),
            texts(out@) == texts(old(out)@) + texts(names@).subrange(0, i as int),
        decreases n - i,
    {
        let ghost before = out@;
        let k: &'static str = intern(table, names[i]);
        out.push(k);
        assert(texts(out@) =~= texts(before).push(names@[i as int]@));
        let ghost part = texts(names@).subrange(0, i + 1);
        assert(part.drop_last() =~= texts(names@).subrange(0, i as int));
        assert(part.last() == names@[i as int]@);
        assert(texts(out@) =~= texts(old(out)@) + part);
        i = i + 1;
    }
    assert(texts(names@).subrange(0, n as int) =~= texts(names@));
}

proof fn lemma_interned_all_append(
    table: Seq<Seq<char>>,
    a: Seq<Seq<char>>,
    b: Seq<Seq<char>>,
)
    ensures
        interned_all(table, a + b) == interned_all(interned_all(table, a), b),
    decreases b.len(),
{
    if b.len() == 0 {
        assert(a + b =~= a);
    } else {
        assert((a + b).drop_last() =~= a + b.drop_last());
        lemma_interned_all_append(table, a, b.drop_last());
    }
}

/// The callsite of an *event*, built on first use. Its field set is exactly
/// `message` and then `kwarg_names` in the caller's order, with the given
/// `target` and `module` woven in.
///
/// What comes from Python has a target `py:<module>`, see [`get_event`];
/// forwarders of foreign events pass the actual target.
pub fn get_event_full(
    reg: &mut Registry,
    file: &str,
    line: u32,
    level: Level,
    target: &str,
    module: &str,
    kwarg_names: &[&str],
) -> (r: &'static DynCallsite)
    requires
        old(reg).wf(),
    ensures
        final(reg).wf(),
        r@ == event_metadata(file@, line, level, target@, module@, texts(kwarg_names@)),
        final(reg)@ == registered(
            old(reg)@,
            r@,
            seq![file@, target@, module@] + texts(kwarg_names@),
        ),
        r@.kind == Kind::Event,
        r@.name == "trapy_event"@,
        r@.level == level,
        r@.file == file@,
        r@.line == line,
        r@.target == target@,
        r@.module == module@,
        r@.fields.len() == kwarg_names@.len() + 1,
        r@.fields[0] == "message"@,
        forall|i: int|
            0 <= i < kwarg_names@.len() ==> r@.fields[i + 1] == (#[trigger] kwarg_names@[i])@,
        forall|i: int|
            0 <= i < old(reg)@.callsites.len() && #[trigger] old(reg)@.callsites[i] == r@
                ==> r.number() == i,
        final(reg)@.callsites == (if r.number() < old(reg)@.callsites.len() {
            old(reg)@.callsites
        } else {
            old(reg)@.callsites.push(r@)
        }),
        r.number() < final(reg)@.callsites.len(),
        final(reg)@.callsites[r.number() as int] == r@,
{
    let ghost wanted = event_metadata(file@, line, level, target@, module@, texts(kwarg_names@));
    let mut fields: Vec<&str> = Vec::new();
    fields.push(MESSAGE_FIELD);
    let n: usize = kwarg_names.len();
    let mut i: usize = 0;
    assert(texts(fields@) =~= seq![MESSAGE_FIELD@] + texts(kwarg_names@).subrange(0, 0));
    while i < n
        invariant
            n == kwarg_names@.len(),
            i <= n,
            texts(fields@) == seq![MESSAGE_FIELD@] + texts(kwarg_names@).subrange(0, i as int),
        decreases n - i,
    {
        let ghost before = fields@;
        fields.push(kwarg_names[i]);
        assert(texts(fields@) =~= texts(before).push(kwarg_names@[i as int]@));
        assert(texts(fields@) =~= seq![MESSAGE_FIELD@] + texts(kwarg_names@).subrange(0, i + 1));
        i = i + 1;
    }
    assert(texts(kwarg_names@).subrange(0, n as int) =~= texts(kwarg_names@));

    if let Some(c) = reg.find_event(target, level, file, line, module, fields.as_slice()) {
        assert(reg@.callsites.contains(wanted));
        return c;
    }
    let file_static: &'static str = intern(&mut reg.table, file);
    let target_static: &'static str = intern(&mut reg.table, target);
    let module_static: &'static str = intern(&mut reg.table, module);
    let mut names: Vec<&'static str> = Vec::new();
    names.push(MESSAGE_FIELD);
    assert(texts(names@) =~= seq![MESSAGE_FIELD@]);
    intern_names(&mut reg.table, &mut names, kwarg_names);
    proof {
        reveal_with_fuel(interned_all, 4);
        let t = old(reg)@.table;
        assert(seq![file@, target@, module@].drop_last() =~= seq![file@, target@]);
        assert(seq![file@, target@].drop_last() =~= seq![file@]);
        assert(seq![file@].drop_last() =~= Seq::<Seq<char>>::empty());
        lemma_interned_all_append(t, seq![file@, target@, module@], texts(kwarg_names@));
        lemma_known_span(reg@.callsites, wanted);
        assert(reg@.callsites =~= old(reg)@.callsites);
    }
    reg.build_callsite(
        Metadata {
            name: EVENT_NAME,
            target: target_static,
            level,
            file: file_static,
            line,
            module: module_static,
            fields: leak_names(names),
            kind: Kind::Event,
        },
    )
}

/// The callsite of an event that comes from the Python module `py_module`.
pub fn get_event(
    reg: &mut Registry,
    file: &str,
    line: u32,
    level: Level,
    py_module: &str,
    kwarg_names: &[&str],
) -> (r: &'static DynCallsite)
    requires
        old(reg).wf(),
    ensures
        final(reg).wf(),
        r@ == event_metadata(
            file@,
            line,
            level,
            python_target(py_module@),
            py_module@,
            texts(kwarg_names@),
        ),
        final(reg)@ == registered(
            old(reg)@,
            r@,
            seq![file@, python_target(py_module@), py_module@] + texts(kwarg_names@),
        ),
        r@.kind == Kind::Event,
        r@.name == "trapy_event"@,
        r@.level == level,
        r@.file == file@,
        r@.line == line,
        r@.target == "py:"@ + py_module@,
        r@.module == py_module@,
        r@.fields.len() == kwarg_names@.len() + 1,
        r@.fields[0] == "message"@,
        forall|i: int|
            0 <= i < kwarg_names@.len() ==> r@.fields[i + 1] == (#[trigger] kwarg_names@[i])@,
        forall|i: int|
            0 <= i < old(reg)@.callsites.len() && #[trigger] old(reg)@.callsites[i] == r@
                ==> r.number() == i,
        final(reg)@.callsites == (if r.number() < old(reg)@.callsites.len() {
            old(reg)@.callsites
        } else {
            old(reg)@.callsites.push(r@)
        }),
        r.number() < final(reg)@.callsites.len(),
        final(reg)@.callsites[r.number() as int] == r@,
{
    let target: String = py_target(py_module);
    get_event_full(reg, file, line, level, target.as_str(), py_module, kwarg_names)
}

/// The callsite of a *span*, built on first use. Its field set is exactly
/// `kwarg_names`: the label is the name in the metadata. A span that was built
/// before with the same file, line, level, name and `kwarg_names` is found again,
/// whatever its module.
pub fn get_span(
    reg: &mut Registry,
    file: &str,
    line: u32,
    level: Level,
    py_module: &str,
    name: &str,
    kwarg_names: &[&str],
) -> (r: &'static DynCallsite)
    requires
        old(reg).wf(),
    ensures
        final(reg).wf(),
        r@ == span_callsite(
            old(reg)@,
            span_metadata(file@, line, level, py_module@, name@, texts(kwarg_names@)),
        ),
        final(reg)@ == registered_span(
            old(reg)@,
            span_metadata(file@, line, level, py_module@, name@, texts(kwarg_names@)),
            seq![file@, python_target(py_module@), py_module@, name@] + texts(kwarg_names@),
        ),
        r@.kind == Kind::Span,
        r@.level == level,
        r@.file == file@,
        r@.line == line,
        r@.name == name@,
        r@.fields.len() == kwarg_names@.len(),
        forall|i: int|
            0 <= i < kwarg_names@.len() ==> r@.fields[i] == (#[trigger] kwarg_names@[i])@,
        r.number() >= old(reg)@.callsites.len() ==> {
            &&& r@.target == "py:"@ + py_module@
            &&& r@.module == py_module@
        },
        forall|i: int|
            0 <= i < old(reg)@.callsites.len() && (#[trigger] old(reg)@.callsites[i]).kind
                == Kind::Span && old(reg)@.callsites[i].level == level
                && old(reg)@.callsites[i].file == file@ && old(reg)@.callsites[i].line == line
                && old(reg)@.callsites[i].name == name@ && old(reg)@.callsites[i].fields == texts(
                kwarg_names@,
            ) ==> r.number() == i,
        final(reg)@.callsites == (if r.number() < old(reg)@.callsites.len() {
            old(reg)@.callsites
        } else {
            old(reg)@.callsites.push(r@)
        }),
        r.number() < final(reg)@.callsites.len(),
        final(reg)@.callsites[r.number() as int] == r@,
{
    let ghost wanted = span_metadata(file@, line, level, py_module@, name@, texts(kwarg_names@));
    let target: String = py_target(py_module);
    proof {
        lemma_known_span(reg@.callsites, wanted);
    }
    if let Some(c) = reg.find_span(level, file, line, name, kwarg_names, Ghost(wanted)) {
        proof {
            let n = c.number() as int;
            assert forall|i: int|
                0 <= i < reg@.callsites.len() && same_span_signature(
                    #[trigger] reg@.callsites[i],
                    wanted,
                ) implies i == n by {
                assert(same_span_signature(reg@.callsites[i], reg@.callsites[n]));
                assert(same_span_signature(reg@.callsites[n], reg@.callsites[i]));
            }
        }
        return c;
    }
    let file_static: &'static str = intern(&mut reg.table, file);
    let target_static: &'static str = intern(&mut reg.table, target.as_str());
    let module_static: &'static str = intern(&mut reg.table, py_module);
    let name_static: &'static str = intern(&mut reg.table, name);
    let mut names: Vec<&'static str> = Vec::new();
    intern_names(&mut reg.table, &mut names, kwarg_names);
    proof {
        reveal_with_fuel(interned_all, 5);
        let t = old(reg)@.table;
        let head = seq![file@, target@, py_module@, name@];
        assert(head.drop_last() =~= seq![file@, target@, py_module@]);
        assert(seq![file@, target@, py_module@].drop_last() =~= seq![file@, target@]);
        assert(seq![file@, target@].drop_last() =~= seq![file@]);
        assert(seq![file@].drop_last() =~= Seq::<Seq<char>>::empty());
        lemma_interned_all_append(t, head, texts(kwarg_names@));
        assert(texts(names@) =~= texts(kwarg_names@));
        lemma_known_span(old(reg)@.callsites, wanted);
        assert(reg@.callsites =~= old(reg)@.callsites);
    }
    reg.build_callsite(
        Metadata {
            name: name_static,
            target: target_static,
            level,
            file: file_static,
            line,
            module: module_static,
            fields: leak_names(names),
            kind: Kind::Span,
        },
    )
}

// ---------------------------------------------------------------------------
// Laws
// ---------------------------------------------------------------------------

/// Asking again for a callsite that was asked for changes nothing: the second
/// call finds what the first one built.
pub proof fn law_callsite_is_built_once(
    reg: RegistryModel,
    meta: MetadataModel,
    parts: Seq<Seq<char>>,
    parts_again: Seq<Seq<char>>,
)
    ensures
        registered(registered(reg, meta, parts), meta, parts_again) == registered(reg, meta, parts),
        registered(reg, meta, parts).callsites.contains(meta),
{
    if !reg.callsites.contains(meta) {
        assert(reg.callsites.push(meta)[reg.callsites.len() as int] == meta);
    }
}

/// Asking again for a span with a signature that was asked for changes nothing,
/// and gives the callsite that the first request got, whatever the modules.
pub proof fn law_span_is_built_once(
    reg: RegistryModel,
    wanted: MetadataModel,
    again: MetadataModel,
    parts: Seq<Seq<char>>,
    parts_again: Seq<Seq<char>>,
)
    requires
        same_span_signature(wanted, again),
    ensures
        registered_span(registered_span(reg, wanted, parts), again, parts_again)
            == registered_span(reg, wanted, parts),
        span_callsite(registered_span(reg, wanted, parts), again) == span_callsite(reg, wanted),
{
    lemma_known_span_by_signature(reg.callsites, wanted, again);
    if known_span(reg.callsites, wanted) is None {
        assert(reg.callsites.push(wanted).drop_last() =~= reg.callsites);
    }
}

proof fn lemma_known_span_by_signature(
    callsites: Seq<MetadataModel>,
    a: MetadataModel,
    b: MetadataModel,
)
    requires
        same_span_signature(a, b),
    ensures
        known_span(callsites, a) == known_span(callsites, b),
    decreases callsites.len(),
{
    if callsites.len() > 0 {
        lemma_known_span_by_signature(callsites.drop_last(), a, b);
    }
}

/// The span that a request gets has the requested file, line, level, name and
/// field set, and where it is new, the target and the module of the request too.
pub proof fn law_span_has_the_requested_signature(reg: RegistryModel, wanted: MetadataModel)
    requires
        wanted.kind == Kind::Span,
    ensures
        same_span_signature(span_callsite(reg, wanted), wanted),
        (forall|i: int|
            0 <= i < reg.callsites.len() ==> !same_span_signature(
                #[trigger] reg.callsites[i],
                wanted,
            )) ==> span_callsite(reg, wanted) == wanted,
{
    lemma_known_span(reg.callsites, wanted);
}

/// Callsites are never changed, moved or dropped: what a registry held, it
/// holds at the same place after any request.
pub proof fn law_callsites_are_kept(
    reg: RegistryModel,
    meta: MetadataModel,
    parts: Seq<Seq<char>>,
    i: int,
)
    requires
        0 <= i < reg.callsites.len(),
    ensures
        i < registered(reg, meta, parts).callsites.len(),
        registered(reg, meta, parts).callsites[i] == reg.callsites[i],
        i < registered_span(reg, meta, parts).callsites.len(),
        registered_span(reg, meta, parts).callsites[i] == reg.callsites[i],
{
}

/// Two callsites of one registry that say the same, or two spans of it with the
/// same signature, are one callsite.
pub proof fn law_callsites_are_distinct(reg: Registry, i: int, j: int)
    requires
        reg.wf(),
        0 <= i < reg@.callsites.len(),
        0 <= j < reg@.callsites.len(),
        reg@.callsites[i] == reg@.callsites[j] || same_span_signature(
            reg@.callsites[i],
            reg@.callsites[j],
        ),
    ensures
        i == j,
{
}

/// An event and a span never share a callsite, even at the same place in the
/// source with the same keyword arguments.
pub proof fn law_events_and_spans_do_not_collide(
    file: Seq<char>,
    line: u32,
    level: Level,
    target: Seq<char>,
    module: Seq<char>,
    name: Seq<char>,
    event_kwargs: Seq<Seq<char>>,
    span_kwargs: Seq<Seq<char>>,
)
    ensures
        event_metadata(file, line, level, target, module, event_kwargs) != span_metadata(
            file,
            line,
            level,
            module,
            name,
            span_kwargs,
        ),
{
}

/// The order of keyword arguments is part of what a callsite is: two lists of
/// names give one event callsite only when they are the same list.
pub proof fn law_kwarg_order_matters(
    file: Seq<char>,
    line: u32,
    level: Level,
    target: Seq<char>,
    module: Seq<char>,
    a: Seq<Seq<char>>,
    b: Seq<Seq<char>>,
)
    ensures
        event_metadata(file, line, level, target, module, a) == event_metadata(
            file,
            line,
            level,
            target,
            module,
            b,
        ) <==> a == b,
{
    if event_metadata(file, line, level, target, module, a) == event_metadata(
        file,
        line,
        level,
        target,
        module,
        b,
    ) {
        let head = seq![MESSAGE_FIELD@];
        assert((head + a).subrange(1, (head + a).len() as int) =~= a);
        assert((head + b).subrange(1, (head + b).len() as int) =~= b);
    }
}

/// What the metadata of a callsite says is what it holds.
pub proof fn law_metadata_says_what_it_holds(m: Metadata)
    ensures
        m@.name == m.name@,
        m@.target == m.target@,
        m@.level == m.level,
        m@.file == m.file@,
        m@.line == m.line,
        m@.module == m.module@,
        m@.kind == m.kind,
        m@.fields.len() == m.fields@.len(),
        forall|i: int| 0 <= i < m.fields@.len() ==> m@.fields[i] == (#[trigger] m.fields@[i])@,
{
}

/// The metadata of an event holds the arguments of the request as they are: no
/// level, place, target or module is changed, and the fields are the message and
/// then the arguments, one by one.
pub proof fn law_event_has_the_requested_parts(
    file: Seq<char>,
    line: u32,
    level: Level,
    target: Seq<char>,
    module: Seq<char>,
    kwarg_names: Seq<Seq<char>>,
)
    ensures
        ({
            let m = event_metadata(file, line, level, target, module, kwarg_names);
            &&& m.kind == Kind::Event
            &&& m.name == "trapy_event"@
            &&& m.file == file
            &&& m.line == line
            &&& m.level == level
            &&& m.target == target
            &&& m.module == module
            &&& m.fields.len() == kwarg_names.len() + 1
            &&& m.fields[0] == "message"@
            &&& forall|i: int|
                0 <= i < kwarg_names.len() ==> m.fields[i + 1] == #[trigger] kwarg_names[i]
        }),
{
}

/// Two requests for an event get one callsite only where they ask for the same
/// file, line, level, target, module and arguments in the same order.
pub proof fn law_events_share_a_callsite_only_if_alike(
    file: Seq<char>,
    line: u32,
    level: Level,
    target: Seq<char>,
    module: Seq<char>,
    names: Seq<Seq<char>>,
    other_file: Seq<char>,
    other_line: u32,
    other_level: Level,
    other_target: Seq<char>,
    other_module: Seq<char>,
    other_names: Seq<Seq<char>>,
)
    requires
        event_metadata(file, line, level, target, module, names) == event_metadata(
            other_file,
            other_line,
            other_level,
            other_target,
            other_module,
            other_names,
        ),
    ensures
        file == other_file,
        line == other_line,
        level == other_level,
        target == other_target,
        module == other_module,
        names == other_names,
{
    let a = event_metadata(file, line, level, target, module, names).fields;
    assert(a.subrange(1, a.len() as int) =~= names);
    assert(a.subrange(1, a.len() as int) =~= other_names);
}

/// The metadata of a new span holds the arguments of the request as they are, under
/// the target `py:<module>`, and its fields are the arguments alone.
pub proof fn law_new_span_has_the_requested_parts(
    file: Seq<char>,
    line: u32,
    level: Level,
    module: Seq<char>,
    name: Seq<char>,
    kwarg_names: Seq<Seq<char>>,
)
    ensures
        ({
            let m = span_metadata(file, line, level, module, name, kwarg_names);
            &&& m.kind == Kind::Span
            &&& m.name == name
            &&& m.file == file
            &&& m.line == line
            &&& m.level == level
            &&& m.target == "py:"@ + module
            &&& m.module == module
            &&& m.fields == kwarg_names
        }),
{
}

/// The span that a request gets has the file, line, level, name and arguments of
/// the request, whatever was built before.
pub proof fn law_span_has_the_requested_parts(
    reg: RegistryModel,
    file: Seq<char>,
    line: u32,
    level: Level,
    module: Seq<char>,
    name: Seq<char>,
    kwarg_names: Seq<Seq<char>>,
)
    ensures
        ({
            let m = span_callsite(
                reg,
                span_metadata(file, line, level, module, name, kwarg_names),
            );
            &&& m.kind == Kind::Span
            &&& m.name == name
            &&& m.file == file
            &&& m.line == line
            &&& m.level == level
            &&& m.fields == kwarg_names
        }),
{
    lemma_known_span(
        reg.callsites,
        span_metadata(file, line, level, module, name, kwarg_names),
    );
}

/// Two requests for a span that differ in their module alone get one callsite, the
/// one that the first got.
pub proof fn law_span_module_does_not_matter(
    reg: RegistryModel,
    file: Seq<char>,
    line: u32,
    level: Level,
    module: Seq<char>,
    other_module: Seq<char>,
    name: Seq<char>,
    kwarg_names: Seq<Seq<char>>,
    parts: Seq<Seq<char>>,
)
    ensures
        ({
            let first = span_metadata(file, line, level, module, name, kwarg_names);
            let second = span_metadata(file, line, level, other_module, name, kwarg_names);
            let after = registered_span(reg, first, parts);
            &&& span_callsite(after, second) == span_callsite(reg, first)
            &&& registered_span(after, second, parts).callsites == after.callsites
        }),
{
    law_span_is_built_once(
        reg,
        span_metadata(file, line, level, module, name, kwarg_names),
        span_metadata(file, line, level, other_module, name, kwarg_names),
        parts,
        parts,
    );
}

/// A request adds at most one callsite, the one that was asked for, behind those
/// that are there.
pub proof fn law_a_request_adds_one_callsite_at_most(
    reg: RegistryModel,
    meta: MetadataModel,
    parts: Seq<Seq<char>>,
)
    ensures
        reg.callsites.contains(meta) ==> registered(reg, meta, parts) == reg,
        !reg.callsites.contains(meta) ==> registered(reg, meta, parts).callsites
            == reg.callsites.push(meta),
        registered_span(reg, meta, parts) == reg || registered_span(reg, meta, parts).callsites
            == reg.callsites.push(meta),
{
}

/// A text is kept once: asking for it adds one text where it is new, and none
/// where it is known.
pub proof fn law_intern_adds_one_text_at_most(table: Seq<Seq<char>>, s: Seq<char>)
    ensures
        table.contains(s) ==> interned(table, s) == table,
        !table.contains(s) ==> interned(table, s) == table.push(s),
{
}

/// The target of a Python module is its name behind `py:`.
pub proof fn law_python_target_names_the_module(module: Seq<char>)
    ensures
        python_target(module) == "py:"@ + module,
{
}

/// Every text that was asked for is kept, behind those that were there.
pub proof fn law_all_texts_are_kept(table: Seq<Seq<char>>, all: Seq<Seq<char>>, i: int)
    requires
        0 <= i < all.len(),
    ensures
        interned_all(table, all).contains(all[i]),
        table.len() <= interned_all(table, all).len(),
        interned_all(table, all).subrange(0, table.len() as int) == table,
    decreases all.len(),
{
    let init = all.drop_last();
    let before = interned_all(table, init);
    law_intern_keeps_the_table(before, all.last());
    let after = interned_all(table, all);
    if init.len() == 0 {
        assert(before.subrange(0, table.len() as int) =~= table);
    } else {
        law_all_texts_are_kept(table, init, 0);
        if i < init.len() {
            law_all_texts_are_kept(table, init, i);
            let j = choose|j: int| 0 <= j < before.len() && before[j] == init[i];
            assert(after.subrange(0, before.len() as int)[j] == after[j]);
            assert(after[j] == all[i]);
        }
    }
    assert(after.subrange(0, table.len() as int) =~= after.subrange(
        0,
        before.len() as int,
    ).subrange(0, table.len() as int));
}

/// The contents of a list of texts are those of its texts, one by one.
pub proof fn law_texts_are_the_names(names: Seq<&str>, i: int)
    requires
        0 <= i < names.len(),
    ensures
        texts(names).len() == names.len(),
        texts(names)[i] == names[i]@,
{
}

}
