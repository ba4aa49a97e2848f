//! Coarse process-wide level filter consulted at the boundary to foreign
//! cdylibs, so that they can drop an event before they pay for formatting it.

use vstd::prelude::*;

use crate::text::{concat3, debug_quote, str_eq};
use crate::text::{debug_text, is_white_space, lowered, trimmed};
use crate::text::{lemma_trimmed_lowered, lemma_trimmed_padding};

verus! {

pub const LEVEL_OFF: u8 = 0;
pub const LEVEL_ERROR: u8 = 1;
pub const LEVEL_WARN: u8 = 2;
pub const LEVEL_INFO: u8 = 3;
pub const LEVEL_DEBUG: u8 = 4;
pub const LEVEL_TRACE: u8 = 5;

/// The verbosity of an event or a span.
#[derive(Clone, Copy, Debug, PartialEq, Eq, Structural)]
pub enum Level {
    Error,
    Warn,
    Info,
    Debug,
    Trace,
}

/// The byte that stands for `l` at the boundary: the more verbose, the larger.
pub open spec fn level_byte_of(l: Level) -> u8 {
    match l {
        Level::Error => LEVEL_ERROR,
        Level::Warn => LEVEL_WARN,
        Level::Info => LEVEL_INFO,
        Level::Debug => LEVEL_DEBUG,
        Level::Trace => LEVEL_TRACE,
    }
}

pub fn level_byte(l: &Level) -> (r: u8)
    ensures
        r == level_byte_of(*l),
        1 <= r <= 5,
        r == 1 <==> *l == Level::Error,
        r == 2 <==> *l == Level::Warn,
        r == 3 <==> *l == Level::Info,
        r == 4 <==> *l == Level::Debug,
        r == 5 <==> *l == Level::Trace,
{
    match *l {
        Level::Error => LEVEL_ERROR,
        Level::Warn => LEVEL_WARN,
        Level::Info => LEVEL_INFO,
        Level::Debug => LEVEL_DEBUG,
        Level::Trace => LEVEL_TRACE,
    }
}

/// The filter byte that a level word names.
pub open spec fn level_of_word(w: Seq<char>) -> Option<u8> {
    if w == "off"@ || w == "none"@ {
        Some(LEVEL_OFF)
    } else if w == "error"@ || w == "err"@ {
        Some(LEVEL_ERROR)
    } else if w == "warn"@ || w == "warning"@ {
        Some(LEVEL_WARN)
    } else if w == "info"@ {
        Some(LEVEL_INFO)
    } else if w == "debug"@ {
        Some(LEVEL_DEBUG)
    } else if w == "trace"@ {
        Some(LEVEL_TRACE)
    } else {
        None
    }
}

/// The filter byte that `s` names, whatever its case and the white space
/// around it.
pub open spec fn level_of_text(s: Seq<char>) -> Option<u8> {
    level_of_word(lowered(trimmed(s)))
}

pub fn parse_level(s: &str) -> (r: Option<u8>)
    ensures
        r == level_of_text(s@),
{
    let low: String = s.trim().to_ascii_lowercase();
    let w: &str = low.as_str();
    if str_eq(w, "off") || str_eq(w, "none") {
        Some(LEVEL_OFF)
    } else if str_eq(w, "error") || str_eq(w, "err") {
        Some(LEVEL_ERROR)
    } else if str_eq(w, "warn") || str_eq(w, "warning") {
        Some(LEVEL_WARN)
    } else if str_eq(w, "info") {
        Some(LEVEL_INFO)
    } else if str_eq(w, "debug") {
        Some(LEVEL_DEBUG)
    } else if str_eq(w, "trace") {
        Some(LEVEL_TRACE)
    } else {
        None
    }
}

/// The canonical name of a filter byte; anything past `LEVEL_DEBUG` is
/// `trace`.
pub open spec fn name_of_byte(b: u8) -> Seq<char> {
    if b == LEVEL_OFF {
        "off"@
    } else if b == LEVEL_ERROR {
        "error"@
    } else if b == LEVEL_WARN {
        "warn"@
    } else if b == LEVEL_INFO {
        "info"@
    } else if b == LEVEL_DEBUG {
        "debug"@
    } else {
        "trace"@
    }
}

pub fn level_name(b: u8) -> (r: &'static str)
    ensures
        r@ == name_of_byte(b),
{
    if b == LEVEL_OFF {
        "off"
    } else if b == LEVEL_ERROR {
        "error"
    } else if b == LEVEL_WARN {
        "warn"
    } else if b == LEVEL_INFO {
        "info"
    } else if b == LEVEL_DEBUG {
        "debug"
    } else {
        "trace"
    }
}

/// The level that a byte from the boundary stands for: none for `LEVEL_OFF`,
/// and `Trace` for every byte past `LEVEL_TRACE`.
pub open spec fn level_of_byte(b: u8) -> Option<Level> {
    if b == LEVEL_OFF {
        None
    } else if b == LEVEL_ERROR {
        Some(Level::Error)
    } else if b == LEVEL_WARN {
        Some(Level::Warn)
    } else if b == LEVEL_INFO {
        Some(Level::Info)
    } else if b == LEVEL_DEBUG {
        Some(Level::Debug)
    } else {
        Some(Level::Trace)
    }
}

pub fn level_from_byte(b: u8) -> (r: Option<Level>)
    ensures
        r == level_of_byte(b),
        r is None <==> b == 0,
        r == Some(Level::Error) <==> b == 1,
        r == Some(Level::Warn) <==> b == 2,
        r == Some(Level::Info) <==> b == 3,
        r == Some(Level::Debug) <==> b == 4,
        r == Some(Level::Trace) <==> b >= 5,
{
    if b == LEVEL_OFF {
        None
    } else if b == LEVEL_ERROR {
        Some(Level::Error)
    } else if b == LEVEL_WARN {
        Some(Level::Warn)
    } else if b == LEVEL_INFO {
        Some(Level::Info)
    } else if b == LEVEL_DEBUG {
        Some(Level::Debug)
    } else {
        Some(Level::Trace)
    }
}

/// The filter: the most verbose byte that still passes.
pub struct LevelFilter {
    byte: u8,
}

impl View for LevelFilter {
    type V = u8;

    closed spec fn view(&self) -> u8 {
        self.byte
    }
}

impl LevelFilter {
    /// A filter that lets every level pass.
    pub fn new() -> (r: Self)
        ensures
            r@ == LEVEL_TRACE,
    {
        LevelFilter { byte: LEVEL_TRACE }
    }

    /// Whether an event at level `l` passes the filter.
    pub fn admits(&self, l: &Level) -> (r: bool)
        ensures
            r == admitted(*l, self@),
            r == match *l {
                Level::Error => self@ >= 1,
                Level::Warn => self@ >= 2,
                Level::Info => self@ >= 3,
                Level::Debug => self@ >= 4,
                Level::Trace => self@ >= 5,
            },
    {
        level_byte(l) <= self.byte
    }
}

/// Whether an event at level `l` passes a filter set to `filter`.
pub open spec fn admitted(l: Level, filter: u8) -> bool {
    level_byte_of(l) <= filter
}

pub fn current_level_byte(filter: &LevelFilter) -> (r: u8)
    ensures
        r == filter@,
{
    filter.byte
}

pub fn set_level_byte(filter: &mut LevelFilter, b: u8)
    ensures
        final(filter)@ == b,
{
    filter.byte = b;
}

/// The complaint about a level name that does not parse, around its quoted
/// form.
pub open spec fn unknown_level_text(quoted: Seq<char>) -> Seq<char> {
    "unknown level "@ + quoted + "; expected one of off/error/warn/info/debug/trace"@
}

/// Sets the filter by name. The previous value is kept on a parse error.
pub fn set_level(filter: &mut LevelFilter, level_str: &str) -> (r: Result<(), String>)
    ensures
        match level_of_text(level_str@) {
            Some(b) => r is Ok && final(filter)@ == b,
            None => {
                &&& r matches Err(e) && e@ == unknown_level_text(debug_text(level_str@))
                &&& *final(filter) == *old(filter)
            },
        },
{
    match parse_level(level_str) {
        Some(b) => {
            set_level_byte(filter, b);
            Ok(())
        },
        None => {
            let quoted: String = debug_quote(level_str);
            Err(unknown_level(quoted.as_str()))
        },
    }
}

/// The complaint about a level name, from its quoted form.
pub fn unknown_level(quoted: &str) -> (r: String)
    ensures
        r@ == unknown_level_text(quoted@),
{
    concat3(
        "unknown level ",
        quoted,
        "; expected one of off/error/warn/info/debug/trace",
    )
}

/// The filter's canonical name, in lower case.
pub fn current_level(filter: &LevelFilter) -> (r: &'static str)
    ensures
        r@ == name_of_byte(filter@),
{
    level_name(current_level_byte(filter))
}

// ---------------------------------------------------------------------------
// Laws
// ---------------------------------------------------------------------------

/// A level survives the trip over the boundary as a byte.
pub proof fn law_level_byte_round_trip(l: Level)
    ensures
        level_of_byte(level_byte_of(l)) == Some(l),
{
}

/// The byte of a level orders levels by verbosity: a filter that admits one
/// level admits every level that is less verbose.
pub proof fn law_filter_is_downward_closed(l: Level, m: Level, filter: u8)
    requires
        level_byte_of(l) <= level_byte_of(m),
        admitted(m, filter),
    ensures
        admitted(l, filter),
{
}

/// A filter that is off admits nothing, and one at `LEVEL_TRACE` everything.
pub proof fn law_filter_extremes(l: Level)
    ensures
        !admitted(l, LEVEL_OFF),
        admitted(l, LEVEL_TRACE),
{
}

proof fn lemma_words()
    ensures
        forall|b: u8| b <= LEVEL_TRACE ==> level_of_word(#[trigger] name_of_byte(b)) == Some(b),
        forall|b: u8|
            b <= LEVEL_TRACE ==> {
                &&& trimmed(#[trigger] name_of_byte(b)) == name_of_byte(b)
                &&& lowered(name_of_byte(b)) == name_of_byte(b)
            },
{
    reveal_strlit("off");
    reveal_strlit("none");
    reveal_strlit("error");
    reveal_strlit("err");
    reveal_strlit("warn");
    reveal_strlit("warning");
    reveal_strlit("info");
    reveal_strlit("debug");
    reveal_strlit("trace");
    assert("none"@[0] == 'n' && "warn"@[0] == 'w' && "info"@[0] == 'i' && "err"@[0] == 'e'
        && "off"@[0] == 'o' && "error"@[0] == 'e' && "debug"@[0] == 'd' && "trace"@[0] == 't');
    assert forall|b: u8| b <= LEVEL_TRACE implies {
        &&& trimmed(#[trigger] name_of_byte(b)) == name_of_byte(b)
        &&& lowered(name_of_byte(b)) == name_of_byte(b)
    } by {
        assert(lowered(name_of_byte(b)) =~= name_of_byte(b));
    }
}

/// The name of a filter byte parses back to that byte.
pub proof fn law_level_name_parses(b: u8)
    requires
        b <= LEVEL_TRACE,
    ensures
        level_of_text(name_of_byte(b)) == Some(b),
{
    lemma_words();
}

/// The name that a parsed level reads back as parses to the same level: what
/// `set_level` stored, `current_level` names, whatever alias, case or padding
/// was used to set it.
pub proof fn law_set_then_read_back(s: Seq<char>)
    requires
        level_of_text(s) is Some,
    ensures
        level_of_text(s)->0 <= LEVEL_TRACE,
        level_of_text(name_of_byte(level_of_text(s)->0)) == level_of_text(s),
{
    lemma_words();
}

/// Level names are read without regard to case.
pub proof fn law_parse_level_ignores_case(s: Seq<char>, t: Seq<char>)
    requires
        lowered(s) == lowered(t),
    ensures
        level_of_text(s) == level_of_text(t),
{
    lemma_trimmed_lowered(s);
    lemma_trimmed_lowered(t);
}

/// Level names are read without regard to the white space around them.
pub proof fn law_parse_level_ignores_padding(before: Seq<char>, s: Seq<char>, after: Seq<char>)
    requires
        forall|i: int| 0 <= i < before.len() ==> is_white_space(#[trigger] before[i]),
        forall|i: int| 0 <= i < after.len() ==> is_white_space(#[trigger] after[i]),
    ensures
        level_of_text(before + s + after) == level_of_text(s),
{
    lemma_trimmed_padding(before, s, after);
}

/// Each level has its own byte, from one for an error to five for a trace, so that
/// no two levels share one.
pub proof fn law_each_level_has_its_byte(l: Level, m: Level)
    ensures
        level_byte_of(l) == 1 <==> l == Level::Error,
        level_byte_of(l) == 2 <==> l == Level::Warn,
        level_byte_of(l) == 3 <==> l == Level::Info,
        level_byte_of(l) == 4 <==> l == Level::Debug,
        level_byte_of(l) == 5 <==> l == Level::Trace,
        level_byte_of(l) == level_byte_of(m) <==> l == m,
{
}

/// Zero is no level, one to five are the levels from error to trace, and every
/// byte past five is a trace.
pub proof fn law_each_byte_has_its_level(b: u8)
    ensures
        level_of_byte(b) is None <==> b == 0,
        level_of_byte(b) == Some(Level::Error) <==> b == 1,
        level_of_byte(b) == Some(Level::Warn) <==> b == 2,
        level_of_byte(b) == Some(Level::Info) <==> b == 3,
        level_of_byte(b) == Some(Level::Debug) <==> b == 4,
        level_of_byte(b) == Some(Level::Trace) <==> b >= 5,
{
}

/// A filter admits errors from one on, and each more verbose level from one byte
/// further on.
pub proof fn law_filter_admits_up_to_its_byte(filter: u8)
    ensures
        admitted(Level::Error, filter) <==> filter >= 1,
        admitted(Level::Warn, filter) <==> filter >= 2,
        admitted(Level::Info, filter) <==> filter >= 3,
        admitted(Level::Debug, filter) <==> filter >= 4,
        admitted(Level::Trace, filter) <==> filter >= 5,
{
}

/// A text names a level exactly where it is one of the words for it, in any case
/// and with white space around it; every other text names none.
pub proof fn law_only_the_level_words_parse(s: Seq<char>)
    ensures
        level_of_text(s) == Some(0u8) <==> lowered(trimmed(s)) == "off"@ || lowered(trimmed(s))
            == "none"@,
        level_of_text(s) == Some(1u8) <==> lowered(trimmed(s)) == "error"@ || lowered(trimmed(s))
            == "err"@,
        level_of_text(s) == Some(2u8) <==> lowered(trimmed(s)) == "warn"@ || lowered(trimmed(s))
            == "warning"@,
        level_of_text(s) == Some(3u8) <==> lowered(trimmed(s)) == "info"@,
        level_of_text(s) == Some(4u8) <==> lowered(trimmed(s)) == "debug"@,
        level_of_text(s) == Some(5u8) <==> lowered(trimmed(s)) == "trace"@,
        level_of_text(s) matches Some(b) ==> b <= 5,
{
    lemma_words_differ();
}

proof fn lemma_words_differ()
    ensures
        "off"@.len() == 3 && "off"@[0] == 'o',
        "none"@.len() == 4 && "none"@[0] == 'n',
        "error"@.len() == 5 && "error"@[0] == 'e',
        "err"@.len() == 3 && "err"@[0] == 'e',
        "warn"@.len() == 4 && "warn"@[0] == 'w',
        "warning"@.len() == 7 && "warning"@[0] == 'w',
        "info"@.len() == 4 && "info"@[0] == 'i',
        "debug"@.len() == 5 && "debug"@[0] == 'd',
        "trace"@.len() == 5 && "trace"@[0] == 't',
{
    reveal_strlit("off");
    reveal_strlit("none");
    reveal_strlit("error");
    reveal_strlit("err");
    reveal_strlit("warn");
    reveal_strlit("warning");
    reveal_strlit("info");
    reveal_strlit("debug");
    reveal_strlit("trace");
}

/// The names of the bytes zero to four are their own, and every byte past four is
/// named `trace`.
pub proof fn law_each_byte_has_its_name(b: u8)
    ensures
        name_of_byte(b) == "off"@ <==> b == 0,
        name_of_byte(b) == "error"@ <==> b == 1,
        name_of_byte(b) == "warn"@ <==> b == 2,
        name_of_byte(b) == "info"@ <==> b == 3,
        name_of_byte(b) == "debug"@ <==> b == 4,
        name_of_byte(b) == "trace"@ <==> b >= 5,
{
    lemma_words_differ();
}

/// The complaint about a level name quotes the name between fixed words.
pub proof fn law_unknown_level_quotes_the_name(quoted: Seq<char>)
    ensures
        unknown_level_text(quoted) == "unknown level "@ + quoted
            + "; expected one of off/error/warn/info/debug/trace"@,
{
}

}
