//! Which filter directives can be handed to `EnvFilter`.
//!
//! `EnvFilter` reads a directive piece by piece, between commas. It walks over the
//! characters of the trimmed piece, but cuts the untrimmed piece at the byte
//! offsets that it finds there. Where white space comes first, such an offset can
//! fall inside a character, and the cut panics.

use std::str::FromStr;

use tracing_subscriber::EnvFilter;
use vstd::prelude::*;
use vstd::slice::slice_subrange;
use vstd::string::StrSliceExecFns;
use vstd::utf8::{decode_utf8, encode_utf8, valid_utf8};
use vstd::utf8::{is_ascii_chars, is_char_boundary, pop_first_scalar};
use vstd::utf8::{
    encode_utf8_first_scalar, encode_utf8_valid_utf8, is_ascii_chars_encode_utf8,
    is_char_boundary_iff_not_is_continuation_byte, is_char_boundary_start_end_of_seq,
};

use crate::text::{concat3, str_of_utf8};
use crate::text::{is_white_space, trim_end, trim_start, trimmed};

verus! {

#[verifier::external_type_specification]
#[verifier::external_body]
pub struct ExEnvFilter(EnvFilter);

/// Where the reader of a piece stands.
#[derive(Clone, Copy, Debug, PartialEq, Eq, Structural)]
pub enum Reader {
    Start,
    /// In a level or a target.
    Word,
    /// Behind `[`, in the name of a span.
    Span,
    /// Behind `{`, in a field.
    Field,
    /// Behind `}`.
    Fields,
    /// Behind `]`.
    Closed,
    /// Behind `=`, in a level.
    Level,
    /// The piece is refused.
    Refused,
}

/// What `char::is_alphanumeric` says of a character.
pub uninterp spec fn char_is_alphanumeric(c: char) -> bool;

/// `char::is_alphanumeric`: whether a character is a letter or a number. Which
/// characters are is not stated.
pub assume_specification[ char::is_alphanumeric ](c: char) -> (r: bool)
    ensures
        r == char_is_alphanumeric(c),
;

/// Whether a piece that starts with `c` is refused at once.
pub open spec fn refused_at_start(c: char) -> bool {
    !char_is_alphanumeric(c) && c != '-' && c != ':' && c != '_' && c != '['
}

/// Where the reader stands after one more character.
pub open spec fn reader_after(r: Reader, c: char) -> Reader {
    match r {
        Reader::Start => if c == '[' {
            Reader::Span
        } else if refused_at_start(c) {
            Reader::Refused
        } else {
            Reader::Word
        },
        Reader::Word => if c == '=' {
            Reader::Level
        } else if c == '[' {
            Reader::Span
        } else {
            Reader::Word
        },
        Reader::Span => if c == ']' {
            Reader::Closed
        } else if c == '{' {
            Reader::Field
        } else {
            Reader::Span
        },
        Reader::Field => if c == '}' {
            Reader::Fields
        } else {
            Reader::Field
        },
        Reader::Fields => if c == ']' {
            Reader::Closed
        } else {
            Reader::Refused
        },
        Reader::Closed => if c == '=' {
            Reader::Level
        } else {
            Reader::Refused
        },
        Reader::Level => Reader::Level,
        Reader::Refused => Reader::Refused,
    }
}

/// Where the reader stands after the characters `t`.
pub open spec fn reader_at(t: Seq<char>) -> Reader
    decreases t.len(),
{
    if t.len() == 0 {
        Reader::Start
    } else {
        reader_after(reader_at(t.drop_last()), t.last())
    }
}

/// At which of the characters `t` the part began that the reader is in.
pub open spec fn part_start(t: Seq<char>) -> int
    decreases t.len(),
{
    if t.len() == 0 || reader_at(t) == Reader::Word {
        0
    } else if reader_at(t) == reader_at(t.drop_last()) {
        part_start(t.drop_last())
    } else {
        t.len() as int
    }
}

/// Whether the reader cuts out the part that it is in when it leaves it.
pub open spec fn is_cut_out(r: Reader) -> bool {
    r == Reader::Word || r == Reader::Span || r == Reader::Field
}

/// The byte offset of character `k` of `t`.
pub open spec fn byte_offset(t: Seq<char>, k: int) -> int {
    encode_utf8(t.subrange(0, k)).len() as int
}

/// Whether the byte offset of character `k` of `t` falls between two characters
/// of `piece`.
pub open spec fn fits(piece: Seq<char>, t: Seq<char>, k: int) -> bool {
    is_char_boundary(encode_utf8(piece), byte_offset(t, k))
}

/// What `EnvFilter::from_str` makes of a directive: the filter, or the text of
/// the error.
pub uninterp spec fn env_filter_of(directive: Seq<char>) -> Result<EnvFilter, Seq<char>>;

/// A directive that consists of the field `f` alone.
pub open spec fn field_alone(f: Seq<char>) -> Seq<char> {
    "[{"@ + f + "}]"@
}

/// Whether the bytes that were cut out as a field are accepted as one. A field
/// that holds a brace or a comma cannot stand alone, and is taken to be.
pub open spec fn field_is_valid(bytes: Seq<u8>) -> bool {
    let f = decode_utf8(bytes);
    valid_utf8(bytes) && !f.contains('}') && !f.contains(',') ==> env_filter_of(
        field_alone(f),
    ) is Ok
}

/// The bytes that are cut out of `piece` when the part ends that the reader is in
/// after the characters `t`.
pub open spec fn cut_out(piece: Seq<char>, t: Seq<char>) -> Seq<u8> {
    encode_utf8(piece).subrange(byte_offset(t, part_start(t)), byte_offset(t, t.len() as int))
}

/// Whether the reader met an invalid field among the characters `t`. It then
/// refuses the piece, and cuts no more.
pub open spec fn met_bad_field(piece: Seq<char>, t: Seq<char>) -> bool
    decreases t.len(),
{
    t.len() > 0 && {
        let before = t.drop_last();
        ||| met_bad_field(piece, before)
        ||| reader_at(before) == Reader::Field && t.last() == '}' && !field_is_valid(
            cut_out(piece, before),
        )
    }
}

/// Whether every cut that the reader makes in `piece` while it goes over the
/// characters `t` falls between characters.
pub open spec fn cuts_fit(piece: Seq<char>, t: Seq<char>) -> bool
    decreases t.len(),
{
    t.len() == 0 || {
        let before = t.drop_last();
        &&& cuts_fit(piece, before)
        &&& !met_bad_field(piece, before) && is_cut_out(reader_at(before)) && reader_at(t)
            != reader_at(before) ==> {
            &&& fits(piece, before, part_start(before))
            &&& fits(piece, before, before.len() as int)
        }
    }
}

/// Whether every cut of a piece falls between characters: those on the way, and
/// the one that takes the level at the end.
pub open spec fn piece_is_safe(piece: Seq<char>) -> bool {
    let t = trimmed(piece);
    &&& cuts_fit(piece, t)
    &&& !met_bad_field(piece, t) && reader_at(t) == Reader::Level ==> fits(
        piece,
        t,
        part_start(t),
    )
}

/// Whether `a` to `b` is a piece of `d`, from a comma or an end to the next.
pub open spec fn is_piece(d: Seq<char>, a: int, b: int) -> bool {
    &&& 0 <= a <= b <= d.len()
    &&& a == 0 || d[a - 1] == ','
    &&& b == d.len() || d[b] == ','
    &&& forall|i: int| a <= i < b ==> d[i] != ','
}

/// Whether the piece of `d` that starts at `a` is read: reading stops behind the
/// first piece that is refused.
pub open spec fn is_read(d: Seq<char>, a: int) -> bool {
    forall|c: int, e: int| #[trigger]
        is_piece(d, c, e) && e < a ==> env_filter_of(d.subrange(c, e)) is Ok
}

/// Whether every cut of every piece of a directive that is read falls between
/// characters.
pub open spec fn cuts_between_characters(d: Seq<char>) -> bool {
    forall|a: int, b: int| #[trigger]
        is_piece(d, a, b) && is_read(d, a) ==> piece_is_safe(d.subrange(a, b))
}

/// `EnvFilter::from_str`: the filter that a directive describes, or the text of
/// the error. The grammar of directives is not stated. A piece that is cut inside a
/// character makes the call panic, so it is left out.
#[verifier::external_body]
pub(crate) fn env_filter_parse(directive: &str) -> (r: Result<EnvFilter, String>)
    requires
        cuts_between_characters(directive@),
    ensures
        match r {
            Ok(f) => env_filter_of(directive@) == Ok::<EnvFilter, Seq<char>>(f),
            Err(e) => env_filter_of(directive@) == Err::<EnvFilter, Seq<char>>(e@),
        },
{
    match EnvFilter::from_str(directive) {
        Ok(f) => Ok(f),
        Err(e) => Err(e.to_string()),
    }
}

fn step_reader(r: Reader, c: char) -> (n: Reader)
    ensures
        n == reader_after(r, c),
{
    match r {
        Reader::Start => if c == '[' {
            Reader::Span
        } else if !c.is_alphanumeric() && c != '-' && c != ':' && c != '_' {
            Reader::Refused
        } else {
            Reader::Word
        },
        Reader::Word => if c == '=' {
            Reader::Level
        } else if c == '[' {
            Reader::Span
        } else {
            Reader::Word
        },
        Reader::Span => if c == ']' {
            Reader::Closed
        } else if c == '{' {
            Reader::Field
        } else {
            Reader::Span
        },
        Reader::Field => if c == '}' {
            Reader::Fields
        } else {
            Reader::Field
        },
        Reader::Fields => if c == ']' {
            Reader::Closed
        } else {
            Reader::Refused
        },
        Reader::Closed => if c == '=' {
            Reader::Level
        } else {
            Reader::Refused
        },
        Reader::Level => Reader::Level,
        Reader::Refused => Reader::Refused,
    }
}

fn offset_of(t: &str, k: usize) -> (r: usize)
    requires
        k <= t@.len(),
    ensures
        r == byte_offset(t@, k as int),
{
    t.substring_char(0, k).as_bytes().len()
}

fn contains_char(s: &str, c: char) -> (r: bool)
    ensures
        r == s@.contains(c),
{
    let n: usize = s.unicode_len();
    let mut i: usize = 0;
    while i < n
        invariant
            n == s@.len(),
            i <= n,
            forall|j: int| 0 <= j < i ==> s@[j] != c,
        decreases n - i,
    {
        if s.get_char(i) == c {
            assert(s@[i as int] == c);
            return true;
        }
        i = i + 1;
    }
    false
}

fn check_field(bytes: &[u8]) -> (r: bool)
    ensures
        r == field_is_valid(bytes@),
{
    match str_of_utf8(bytes) {
        Some(f) => {
            if contains_char(f, '}') || contains_char(f, ',') {
                return true;
            }
            let alone: String = concat3("[{", f, "}]");
            proof {
                reveal_strlit("[{");
                reveal_strlit("}]");
                assert(alone@[0] == '[');
                assert forall|i: int| 0 <= i < alone@.len() implies alone@[i] != ',' by {
                    if 2 <= i < 2 + f@.len() {
                        assert(alone@[i] == f@[i - 2]);
                    }
                }
                law_unpadded_directives_are_safe(alone@);
            }
            match env_filter_parse(alone.as_str()) {
                Ok(_) => true,
                Err(_) => false,
            }
        },
        None => true,
    }
}

/// Behind an invalid field nothing is cut any more.
proof fn lemma_bad_field_ends_it(piece: Seq<char>, t: Seq<char>, n: int)
    requires
        0 <= n <= t.len(),
        cuts_fit(piece, t.subrange(0, n)),
        met_bad_field(piece, t.subrange(0, n)),
    ensures
        cuts_fit(piece, t),
        met_bad_field(piece, t),
    decreases t.len() - n,
{
    if n == t.len() {
        assert(t.subrange(0, n) =~= t);
    } else {
        assert(t.subrange(0, n + 1).drop_last() =~= t.subrange(0, n));
        lemma_bad_field_ends_it(piece, t, n + 1);
    }
}

proof fn lemma_cuts_fit_prefix(piece: Seq<char>, t: Seq<char>, n: int)
    requires
        0 <= n <= t.len(),
        cuts_fit(piece, t),
    ensures
        cuts_fit(piece, t.subrange(0, n)),
    decreases t.len() - n,
{
    if n == t.len() {
        assert(t.subrange(0, n) =~= t);
    } else {
        lemma_cuts_fit_prefix(piece, t, n + 1);
        assert(t.subrange(0, n + 1).drop_last() =~= t.subrange(0, n));
    }
}

proof fn lemma_part_start(t: Seq<char>)
    ensures
        0 <= part_start(t) <= t.len(),
    decreases t.len(),
{
    if t.len() > 0 {
        lemma_part_start(t.drop_last());
    }
}

fn check_piece(piece: &str) -> (r: bool)
    ensures
        r == piece_is_safe(piece@),
{
    let t: &str = piece.trim();
    let n: usize = t.unicode_len();
    let mut k: usize = 0;
    let mut at: Reader = Reader::Start;
    let mut start: usize = 0;
    assert(t@.subrange(0, 0) =~= Seq::<char>::empty());
    while k < n
        invariant
            n == t@.len(),
            t@ == trimmed(piece@),
            k <= n,
            at == reader_at(t@.subrange(0, k as int)),
            start == part_start(t@.subrange(0, k as int)),
            start <= k,
            cuts_fit(piece@, t@.subrange(0, k as int)),
            !met_bad_field(piece@, t@.subrange(0, k as int)),
        decreases n - k,
    {
        let c: char = t.get_char(k);
        let next: Reader = step_reader(at, c);
        let ghost before = t@.subrange(0, k as int);
        let ghost part = t@.subrange(0, k + 1);
        assert(part.drop_last() =~= before);
        assert(part.last() == t@[k as int]);
        proof {
            lemma_part_start(part);
            assert(t@.subrange(0, start as int) =~= before.subrange(0, start as int));
            assert(t@.subrange(0, k as int) =~= before.subrange(0, k as int));
        }
        if next != at {
            if at == Reader::Word || at == Reader::Span || at == Reader::Field {
                let from: usize = offset_of(t, start);
                let to: usize = offset_of(t, k);
                if !piece.is_char_boundary(from) || !piece.is_char_boundary(to) {
                    proof {
                        if cuts_fit(piece@, t@) {
                            lemma_cuts_fit_prefix(piece@, t@, k + 1);
                        }
                    }
                    return false;
                }
                if at == Reader::Field {
                    proof {
                        encode_utf8_valid_utf8(piece@);
                        lemma_prefix_is_boundary(before, start as int);
                    }
                    let field: &[u8] = slice_subrange(piece.as_bytes(), from, to);
                    if !check_field(field) {
                        proof {
                            lemma_bad_field_ends_it(piece@, t@, k + 1);
                        }
                        return true;
                    }
                }
            }
            start = if next == Reader::Word {
                0
            } else {
                k + 1
            };
        }
        at = next;
        k = k + 1;
    }
    assert(t@.subrange(0, n as int) =~= t@);
    at != Reader::Level || piece.is_char_boundary(offset_of(t, start))
}

/// Whether a directive can be handed to `EnvFilter`: no cut that it comes to falls
/// inside a character.
pub fn directive_is_safe(directive: &str) -> (r: bool)
    ensures
        r == cuts_between_characters(directive@),
{
    let ghost d = directive@;
    let n: usize = directive.unicode_len();
    let mut start: usize = 0;
    let mut i: usize = 0;
    while i < n
        invariant
            d == directive@,
            n == d.len(),
            start <= i <= n,
            start == 0 || d[start - 1] == ',',
            forall|j: int| start <= j < i ==> d[j] != ',',
            forall|a: int, b: int|
                #[trigger] is_piece(d, a, b) && b < start ==> {
                    &&& piece_is_safe(d.subrange(a, b))
                    &&& env_filter_of(d.subrange(a, b)) is Ok
                },
        decreases n - i,
    {
        if directive.get_char(i) == ',' {
            let piece: &str = directive.substring_char(start, i);
            assert(is_piece(d, start as int, i as int));
            if !check_piece(piece) {
                assert(is_read(d, start as int));
                return false;
            }
            assert forall|a: int, b: int| #[trigger]
                is_piece(d, a, b) && b < i + 1 implies piece_is_safe(d.subrange(a, b)) by {
                if b >= start {
                    lemma_same_piece(d, start as int, i as int, a, b);
                }
            }
            proof {
                lemma_single_piece(piece@);
            }
            match env_filter_parse(piece) {
                Ok(_) => {},
                Err(_) => {
                    assert forall|a: int, b: int| #[trigger]
                        is_piece(d, a, b) && is_read(d, a) implies piece_is_safe(
                        d.subrange(a, b),
                    ) by {
                        if b > i && a <= i {
                            assert(d[i as int] == ',');
                        }
                    }
                    return true;
                },
            }
            assert forall|a: int, b: int| #[trigger]
                is_piece(d, a, b) && b < i + 1 implies env_filter_of(d.subrange(a, b)) is Ok by {
                if b >= start {
                    lemma_same_piece(d, start as int, i as int, a, b);
                }
            }
            start = i + 1;
        }
        i = i + 1;
    }
    assert(is_piece(d, start as int, n as int));
    assert(is_read(d, start as int));
    let r: bool = check_piece(directive.substring_char(start, n));
    proof {
        if r {
            assert forall|a: int, b: int| #[trigger]
                is_piece(d, a, b) && is_read(d, a) implies piece_is_safe(d.subrange(a, b)) by {
                if b >= start {
                    lemma_same_piece(d, start as int, n as int, a, b);
                }
            }
        }
    }
    r
}

/// A text without a comma is its own only piece.
proof fn lemma_single_piece(p: Seq<char>)
    requires
        forall|i: int| 0 <= i < p.len() ==> p[i] != ',',
        piece_is_safe(p),
    ensures
        cuts_between_characters(p),
{
    assert forall|a: int, b: int| #[trigger] is_piece(p, a, b) implies piece_is_safe(
        p.subrange(a, b),
    ) by {
        assert(p.subrange(a, b) =~= p);
    }
}

/// Two pieces of which one ends within the other are the same.
proof fn lemma_same_piece(d: Seq<char>, a: int, b: int, c: int, e: int)
    requires
        is_piece(d, a, b),
        is_piece(d, c, e),
        a <= e <= b,
    ensures
        a == c,
        b == e,
{
    if e < b {
        assert(d[e] == ',');
    }
    if c < a {
        assert(d[a - 1] == ',');
    }
    if a < c {
        assert(d[c - 1] == ',');
    }
}

// ---------------------------------------------------------------------------
// Laws
// ---------------------------------------------------------------------------

proof fn lemma_trimmed_part(s: Seq<char>) -> (r: (int, int))
    ensures
        0 <= r.0 <= r.1 <= s.len(),
        trimmed(s) == s.subrange(r.0, r.1),
        s.len() > 0 && !is_white_space(s[0]) ==> r.0 == 0,
{
    let a = lemma_trim_start_part(s);
    let b = lemma_trim_end_part(s.subrange(a, s.len() as int));
    assert(s.subrange(a, s.len() as int).subrange(0, b) =~= s.subrange(a, a + b));
    (a, a + b)
}

proof fn lemma_trim_start_part(s: Seq<char>) -> (a: int)
    ensures
        0 <= a <= s.len(),
        trim_start(s) == s.subrange(a, s.len() as int),
        s.len() > 0 && !is_white_space(s[0]) ==> a == 0,
    decreases s.len(),
{
    if s.len() > 0 && is_white_space(s[0]) {
        let a = lemma_trim_start_part(s.drop_first());
        assert(s.drop_first().subrange(a, s.len() - 1) =~= s.subrange(a + 1, s.len() as int));
        a + 1
    } else {
        assert(s.subrange(0, s.len() as int) =~= s);
        0
    }
}

proof fn lemma_trim_end_part(s: Seq<char>) -> (b: int)
    ensures
        0 <= b <= s.len(),
        trim_end(s) == s.subrange(0, b),
    decreases s.len(),
{
    if s.len() > 0 && is_white_space(s.last()) {
        let b = lemma_trim_end_part(s.drop_last());
        assert(s.drop_last().subrange(0, b) =~= s.subrange(0, b));
        b
    } else {
        assert(s.subrange(0, s.len() as int) =~= s);
        s.len() as int
    }
}

/// Where the offset of every character fits, so does every cut.
proof fn lemma_all_cuts_fit(piece: Seq<char>, t: Seq<char>)
    requires
        forall|k: int| 0 <= k <= t.len() ==> fits(piece, t, k),
    ensures
        cuts_fit(piece, t),
    decreases t.len(),
{
    if t.len() > 0 {
        let before = t.drop_last();
        assert forall|k: int| 0 <= k <= before.len() implies fits(piece, before, k) by {
            assert(before.subrange(0, k) =~= t.subrange(0, k));
            assert(fits(piece, t, k));
        }
        lemma_all_cuts_fit(piece, before);
        lemma_part_start(before);
    }
}

proof fn lemma_prefix_is_boundary(s: Seq<char>, k: int)
    requires
        0 <= k <= s.len(),
    ensures
        encode_utf8(s.subrange(0, k)).len() <= encode_utf8(s).len(),
        is_char_boundary(encode_utf8(s), encode_utf8(s.subrange(0, k)).len() as int),
    decreases k,
{
    encode_utf8_valid_utf8(s);
    if k == 0 {
        assert(s.subrange(0, 0) =~= Seq::<char>::empty());
    } else {
        let rest = s.drop_first();
        lemma_prefix_is_boundary(rest, k - 1);
        encode_utf8_first_scalar(s);
        encode_utf8_valid_utf8(rest);
        let head = s.subrange(0, k);
        assert(head.drop_first() =~= rest.subrange(0, k - 1));
        assert(pop_first_scalar(encode_utf8(s)) =~= encode_utf8(rest));
    }
}

/// A directive in which no piece starts with white space can be handed on.
pub proof fn law_unpadded_directives_are_safe(d: Seq<char>)
    requires
        forall|i: int|
            0 <= i < d.len() && (i == 0 || d[i - 1] == ',') ==> !is_white_space(#[trigger] d[i]),
    ensures
        cuts_between_characters(d),
{
    assert forall|a: int, b: int| #[trigger] is_piece(d, a, b) implies piece_is_safe(
        d.subrange(a, b),
    ) by {
        let p = d.subrange(a, b);
        let t = trimmed(p);
        if a < b {
            assert(p[0] == d[a]);
        }
        let r = lemma_trimmed_part(p);
        assert forall|k: int| 0 <= k <= t.len() implies fits(p, t, k) by {
            if a < b {
                assert(t.subrange(0, k) =~= p.subrange(0, k));
            } else {
                assert(t.subrange(0, k) =~= p.subrange(0, 0));
            }
            lemma_prefix_is_boundary(p, k);
        }
        lemma_all_cuts_fit(p, t);
        lemma_part_start(t);
    }
}

/// A directive in ASCII can be handed on, padded or not.
pub proof fn law_ascii_directives_are_safe(d: Seq<char>)
    requires
        is_ascii_chars(d),
    ensures
        cuts_between_characters(d),
{
    assert forall|a: int, b: int| #[trigger] is_piece(d, a, b) implies piece_is_safe(
        d.subrange(a, b),
    ) by {
        let p = d.subrange(a, b);
        let t = trimmed(p);
        let r = lemma_trimmed_part(p);
        assert(is_ascii_chars(p));
        is_ascii_chars_encode_utf8(p);
        encode_utf8_valid_utf8(p);
        assert forall|k: int| 0 <= k <= t.len() implies fits(p, t, k) by {
            let head = t.subrange(0, k);
            assert forall|i: int| 0 <= i < head.len() implies '\0' <= #[trigger] head[i]
                <= '\u{7f}' by {
                assert(head[i] == p[r.0 + i]);
            }
            is_ascii_chars_encode_utf8(head);
            if k == p.len() {
                is_char_boundary_start_end_of_seq(encode_utf8(p));
            } else {
                assert(p[k] as u8 == encode_utf8(p)[k]);
                is_char_boundary_iff_not_is_continuation_byte(encode_utf8(p), k);
            }
        }
        lemma_all_cuts_fit(p, t);
        lemma_part_start(t);
    }
}

proof fn lemma_word(piece: Seq<char>, t: Seq<char>)
    requires
        t.len() > 0,
        char_is_alphanumeric(t[0]) || t[0] == '-' || t[0] == ':' || t[0] == '_',
        t[0] != '[',
        forall|j: int| 1 <= j < t.len() ==> #[trigger] t[j] != '=' && t[j] != '[',
    ensures
        reader_at(t) == Reader::Word,
        cuts_fit(piece, t),
        !met_bad_field(piece, t),
    decreases t.len(),
{
    reveal_with_fuel(reader_at, 2);
    reveal_with_fuel(cuts_fit, 2);
    reveal_with_fuel(met_bad_field, 2);
    if t.len() > 1 {
        let init = t.drop_last();
        assert forall|j: int| 1 <= j < init.len() implies #[trigger] init[j] != '=' && init[j]
            != '[' by {
            assert(init[j] == t[j]);
        }
        lemma_word(piece, init);
        assert(t.last() == t[t.len() - 1]);
    }
}

/// A piece that is one word, a level or a target, is never cut, however it is
/// padded.
pub proof fn law_a_word_alone_is_safe(piece: Seq<char>)
    requires
        ({
            let t = trimmed(piece);
            &&& t.len() > 0
            &&& char_is_alphanumeric(t[0]) || t[0] == '-' || t[0] == ':' || t[0] == '_'
            &&& t[0] != '['
            &&& forall|j: int| 1 <= j < t.len() ==> #[trigger] t[j] != '=' && t[j] != '['
        }),
    ensures
        piece_is_safe(piece),
{
    lemma_word(piece, trimmed(piece));
}

proof fn lemma_level(piece: Seq<char>, t: Seq<char>, k: int)
    requires
        0 < k < t.len(),
        t[k] == '=',
        reader_at(t.subrange(0, k)) == Reader::Word,
        cuts_fit(piece, t.subrange(0, k)),
        !met_bad_field(piece, t.subrange(0, k)),
    ensures
        reader_at(t) == Reader::Level,
        part_start(t) == k + 1,
        !met_bad_field(piece, t),
        cuts_fit(piece, t) <==> fits(piece, t, 0) && fits(piece, t, k),
    decreases t.len(),
{
    let init = t.drop_last();
    if k == t.len() - 1 {
        assert(init =~= t.subrange(0, k));
        assert(init.subrange(0, 0) =~= t.subrange(0, 0));
        assert(init.subrange(0, k) =~= t.subrange(0, k));
    } else {
        assert(init.subrange(0, k) =~= t.subrange(0, k));
        lemma_level(piece, init, k);
        assert(init.subrange(0, 0) =~= t.subrange(0, 0));
    }
}

/// A piece that gives a target its level is cut before and behind the first `=`,
/// and nowhere else: it is safe exactly where both places fall between characters.
pub proof fn law_target_and_level_are_cut_at_the_sign(piece: Seq<char>, k: int)
    requires
        ({
            let t = trimmed(piece);
            &&& 0 < k < t.len()
            &&& char_is_alphanumeric(t[0]) || t[0] == '-' || t[0] == ':' || t[0] == '_'
            &&& t[0] != '['
            &&& forall|j: int| 1 <= j < k ==> #[trigger] t[j] != '=' && t[j] != '['
            &&& t[k] == '='
        }),
    ensures
        piece_is_safe(piece) <==> fits(piece, trimmed(piece), k) && fits(
            piece,
            trimmed(piece),
            k + 1,
        ),
{
    let t = trimmed(piece);
    let head = t.subrange(0, k);
    assert forall|j: int| 1 <= j < head.len() implies #[trigger] head[j] != '=' && head[j]
        != '[' by {
        assert(head[j] == t[j]);
    }
    lemma_word(piece, head);
    lemma_level(piece, t, k);
    assert(t.subrange(0, 0) =~= Seq::<char>::empty());
    encode_utf8_valid_utf8(piece);
    is_char_boundary_start_end_of_seq(encode_utf8(piece));
}

}
