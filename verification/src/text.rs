//! Text as sequences of characters: trimming, ASCII case, comparison,
//! concatenation, quoting and UTF-8.

use vstd::prelude::*;
use vstd::string::StringExecFns;
use vstd::utf8::{decode_utf8, encode_utf8, valid_utf8};
use vstd::utf8::{encode_utf8_decode_utf8, encode_utf8_valid_utf8};

verus! {

// ---------------------------------------------------------------------------
// White space and case
// ---------------------------------------------------------------------------

/// The characters with the Unicode property `White_Space`.
pub open spec fn is_white_space(c: char) -> bool {
    let u = c as u32;
    ||| 0x09 <= u <= 0x0d
    ||| u == 0x20
    ||| u == 0x85
    ||| u == 0xa0
    ||| u == 0x1680
    ||| 0x2000 <= u <= 0x200a
    ||| u == 0x2028
    ||| u == 0x2029
    ||| u == 0x202f
    ||| u == 0x205f
    ||| u == 0x3000
}

/// `s` without its leading white space.
pub open spec fn trim_start(s: Seq<char>) -> Seq<char>
    decreases s.len(),
{
    if s.len() > 0 && is_white_space(s[0]) {
        trim_start(s.drop_first())
    } else {
        s
    }
}

/// `s` without its trailing white space.
pub open spec fn trim_end(s: Seq<char>) -> Seq<char>
    decreases s.len(),
{
    if s.len() > 0 && is_white_space(s.last()) {
        trim_end(s.drop_last())
    } else {
        s
    }
}

/// `s` without leading and trailing white space.
pub open spec fn trimmed(s: Seq<char>) -> Seq<char> {
    trim_end(trim_start(s))
}

/// `c` with `A` to `Z` mapped to `a` to `z`.
pub open spec fn ascii_lower(c: char) -> char {
    if 'A' <= c <= 'Z' {
        ((c as u32) + 32) as char
    } else {
        c
    }
}

/// `s` with each ASCII capital made small.
pub open spec fn lowered(s: Seq<char>) -> Seq<char> {
    Seq::new(s.len(), |i: int| ascii_lower(s[i]))
}

/// `str::trim`: the text without leading and trailing characters that have
/// the Unicode property `White_Space`.
pub assume_specification[ str::trim ](s: &str) -> (r: &str)
    ensures
        r@ == trimmed(s@),
;

/// `str::to_ascii_lowercase`: a copy with `A` to `Z` mapped to `a` to `z` and
/// every other character kept.
pub assume_specification[ str::to_ascii_lowercase ](s: &str) -> (r: String)
    ensures
        r@ == lowered(s@),
;

/// Whether two strings hold the same characters.
pub(crate) fn str_eq(a: &str, b: &str) -> (r: bool)
    ensures
        r == (a@ == b@),
{
    proof {
        encode_utf8_decode_utf8(a@);
        encode_utf8_decode_utf8(b@);
    }
    bytes_eq(a.as_bytes(), b.as_bytes())
}

/// `a` followed by `b`.
pub(crate) fn concat2(a: &str, b: &str) -> (r: String)
    ensures
        r@ == a@ + b@,
{
    let mut out: String = a.to_owned();
    out.append(b);
    out
}

/// `a` followed by `b` followed by `c`.
pub(crate) fn concat3(a: &str, b: &str, c: &str) -> (r: String)
    ensures
        r@ == a@ + b@ + c@,
{
    let mut out: String = a.to_owned();
    out.append(b);
    out.append(c);
    out
}

// ---------------------------------------------------------------------------
// Quoting
// ---------------------------------------------------------------------------

/// What `format!("{:?}", s)` gives for the text `s`.
pub uninterp spec fn debug_text(s: Seq<char>) -> Seq<char>;

/// `<str as Debug>::fmt`, through `format!`: the text in double quotes with
/// its special characters escaped. Which characters are escaped, and how, is
/// not stated.
#[verifier::external_body]
pub(crate) fn debug_quote(s: &str) -> (r: String)
    ensures
        r@ == debug_text(s@),
{
    format!("{:?}", s)
}

// ---------------------------------------------------------------------------
// Numbers
// ---------------------------------------------------------------------------

/// The decimal digit `d`.
pub open spec fn digit_char(d: int) -> char {
    if d == 0 {
        '0'
    } else if d == 1 {
        '1'
    } else if d == 2 {
        '2'
    } else if d == 3 {
        '3'
    } else if d == 4 {
        '4'
    } else if d == 5 {
        '5'
    } else if d == 6 {
        '6'
    } else if d == 7 {
        '7'
    } else if d == 8 {
        '8'
    } else {
        '9'
    }
}

/// `n` in decimal, without leading zeros.
pub open spec fn decimal_text(n: nat) -> Seq<char>
    decreases n,
{
    if n < 10 {
        seq![digit_char(n as int)]
    } else {
        decimal_text(n / 10).push(digit_char((n % 10) as int))
    }
}

fn digit(d: u64) -> (r: &'static str)
    requires
        d < 10,
    ensures
        r@ == seq![digit_char(d as int)],
{
    proof {
        reveal_strlit("0");
        reveal_strlit("1");
        reveal_strlit("2");
        reveal_strlit("3");
        reveal_strlit("4");
        reveal_strlit("5");
        reveal_strlit("6");
        reveal_strlit("7");
        reveal_strlit("8");
        reveal_strlit("9");
    }
    let r: &'static str = if d == 0 {
        "0"
    } else if d == 1 {
        "1"
    } else if d == 2 {
        "2"
    } else if d == 3 {
        "3"
    } else if d == 4 {
        "4"
    } else if d == 5 {
        "5"
    } else if d == 6 {
        "6"
    } else if d == 7 {
        "7"
    } else if d == 8 {
        "8"
    } else {
        "9"
    };
    assert(r@ =~= seq![digit_char(d as int)]);
    r
}

fn push_decimal(out: &mut String, n: u64)
    ensures
        final(out)@ == old(out)@ + decimal_text(n as nat),
    decreases n,
{
    if n >= 10 {
        push_decimal(out, n / 10);
    }
    out.append(digit(n % 10));
    assert(out@ =~= old(out)@ + decimal_text(n as nat));
}

/// `n` in decimal.
pub(crate) fn decimal(n: u64) -> (r: String)
    ensures
        r@ == decimal_text(n as nat),
{
    let mut out: String = String::new();
    push_decimal(&mut out, n);
    assert(out@ =~= decimal_text(n as nat));
    out
}

// ---------------------------------------------------------------------------
// Bytes
// ---------------------------------------------------------------------------

/// `std::str::from_utf8`: the text that valid UTF-8 encodes, and nothing for
/// other bytes.
#[verifier::external_body]
pub(crate) fn str_of_utf8<'a>(bytes: &'a [u8]) -> (r: Option<&'a str>)
    ensures
        match r {
            Some(s) => valid_utf8(bytes@) && s@ == decode_utf8(bytes@),
            None => !valid_utf8(bytes@),
        },
{
    std::str::from_utf8(bytes).ok()
}

/// What `String::from_utf8_lossy` makes of bytes.
pub uninterp spec fn lossy_text(bytes: Seq<u8>) -> Seq<char>;

/// `String::from_utf8_lossy`: the text that valid UTF-8 encodes. Other bytes
/// give a text in which each invalid sequence is replaced; where the
/// replacements stand is not stated.
#[verifier::external_body]
pub(crate) fn lossy(bytes: &[u8]) -> (r: String)
    ensures
        r@ == lossy_text(bytes@),
        valid_utf8(bytes@) ==> r@ == decode_utf8(bytes@),
{
    String::from_utf8_lossy(bytes).into_owned()
}

/// Whether two byte strings are the same.
pub(crate) fn bytes_eq(a: &[u8], b: &[u8]) -> (r: bool)
    ensures
        r == (a@ == b@),
{
    let n: usize = a.len();
    if n != b.len() {
        return false;
    }
    let mut i: usize = 0;
    while i < n
        invariant
            n == a@.len(),
            n == b@.len(),
            i <= n,
            forall|j: int| 0 <= j < i ==> a@[j] == b@[j],
        decreases n - i,
    {
        if a[i] != b[i] {
            return false;
        }
        i = i + 1;
    }
    assert(a@ =~= b@);
    true
}

/// The text that came over the boundary as `bytes`: nothing for a null pointer,
/// and a sentinel for bytes that are no UTF-8.
pub open spec fn foreign_text(bytes: Option<Seq<u8>>) -> Seq<char> {
    match bytes {
        Some(b) => if valid_utf8(b) {
            decode_utf8(b)
        } else {
            "<invalid utf-8>"@
        },
        None => ""@,
    }
}

/// The contents of an optional byte slice.
pub open spec fn bytes_model(bytes: Option<&[u8]>) -> Option<Seq<u8>> {
    match bytes {
        Some(b) => Some(b@),
        None => None,
    }
}

/// The text behind a pointer and a length; `None` stands for a null pointer.
pub fn ptr_to_str<'a>(bytes: Option<&'a [u8]>) -> (r: &'a str)
    ensures
        r@ == foreign_text(bytes_model(bytes)),
        bytes is None ==> r@ == ""@,
        bytes matches Some(b) ==> {
            &&& valid_utf8(b@) ==> r@ == decode_utf8(b@)
            &&& !valid_utf8(b@) ==> r@ == "<invalid utf-8>"@
        },
{
    match bytes {
        Some(b) => match str_of_utf8(b) {
            Some(s) => s,
            None => "<invalid utf-8>",
        },
        None => "",
    }
}

/// A text sent over the boundary as its bytes arrives as it was.
pub proof fn law_text_survives_the_boundary(s: Seq<char>)
    ensures
        foreign_text(Some(encode_utf8(s))) == s,
{
    encode_utf8_valid_utf8(s);
    encode_utf8_decode_utf8(s);
}

// ---------------------------------------------------------------------------
// Facts
// ---------------------------------------------------------------------------

proof fn lemma_trim_start_lowered(s: Seq<char>)
    ensures
        trim_start(lowered(s)) == lowered(trim_start(s)),
    decreases s.len(),
{
    if s.len() > 0 {
        assert(is_white_space(ascii_lower(s[0])) == is_white_space(s[0]));
        if is_white_space(s[0]) {
            lemma_trim_start_lowered(s.drop_first());
            assert(lowered(s).drop_first() =~= lowered(s.drop_first()));
        }
    }
}

proof fn lemma_trim_end_lowered(s: Seq<char>)
    ensures
        trim_end(lowered(s)) == lowered(trim_end(s)),
    decreases s.len(),
{
    if s.len() > 0 {
        assert(is_white_space(ascii_lower(s.last())) == is_white_space(s.last()));
        if is_white_space(s.last()) {
            lemma_trim_end_lowered(s.drop_last());
            assert(lowered(s).drop_last() =~= lowered(s.drop_last()));
        }
    }
}

/// Trimming and lowering commute: no ASCII letter is white space.
pub proof fn lemma_trimmed_lowered(s: Seq<char>)
    ensures
        trimmed(lowered(s)) == lowered(trimmed(s)),
{
    lemma_trim_start_lowered(s);
    lemma_trim_end_lowered(trim_start(s));
}

proof fn lemma_trim_start_padding(before: Seq<char>, s: Seq<char>)
    requires
        forall|i: int| 0 <= i < before.len() ==> is_white_space(#[trigger] before[i]),
    ensures
        trim_start(before + s) == trim_start(s),
    decreases before.len(),
{
    if before.len() == 0 {
        assert(before + s =~= s);
    } else {
        assert((before + s).drop_first() =~= before.drop_first() + s);
        lemma_trim_start_padding(before.drop_first(), s);
    }
}

proof fn lemma_trim_end_padding(s: Seq<char>, after: Seq<char>)
    requires
        forall|i: int| 0 <= i < after.len() ==> is_white_space(#[trigger] after[i]),
    ensures
        trim_end(s + after) == trim_end(s),
    decreases after.len(),
{
    if after.len() == 0 {
        assert(s + after =~= s);
    } else {
        assert((s + after).drop_last() =~= s + after.drop_last());
        lemma_trim_end_padding(s, after.drop_last());
    }
}

proof fn lemma_trim_start_suffix(s: Seq<char>, after: Seq<char>)
    requires
        forall|i: int| 0 <= i < after.len() ==> is_white_space(#[trigger] after[i]),
    ensures
        trim_end(trim_start(s + after)) == trim_end(trim_start(s)),
    decreases s.len(),
{
    if s.len() == 0 {
        assert(s + after =~= after + Seq::<char>::empty());
        lemma_trim_start_padding(after, Seq::<char>::empty());
        assert(s =~= Seq::<char>::empty());
    } else if is_white_space(s[0]) {
        assert((s + after).drop_first() =~= s.drop_first() + after);
        lemma_trim_start_suffix(s.drop_first(), after);
    } else {
        lemma_trim_end_padding(s, after);
    }
}

/// White space around a text does not change what is left after trimming.
pub proof fn lemma_trimmed_padding(before: Seq<char>, s: Seq<char>, after: Seq<char>)
    requires
        forall|i: int| 0 <= i < before.len() ==> is_white_space(#[trigger] before[i]),
        forall|i: int| 0 <= i < after.len() ==> is_white_space(#[trigger] after[i]),
    ensures
        trimmed(before + s + after) == trimmed(s),
{
    assert(before + s + after =~= before + (s + after));
    lemma_trim_start_padding(before, s + after);
    lemma_trim_start_suffix(s, after);
}

// ---------------------------------------------------------------------------
// Laws
// ---------------------------------------------------------------------------

/// The number that a row of digits stands for, each digit by its place in the
/// character set.
pub open spec fn number_of(digits: Seq<char>) -> int
    decreases digits.len(),
{
    if digits.len() == 0 {
        0
    } else {
        10 * number_of(digits.drop_last()) + (digits.last() as int - '0' as int)
    }
}

/// The decimal text of a number is made of digits, stands for that number, and has
/// no leading zero unless it is the zero itself.
pub proof fn law_decimal_reads_back(n: nat)
    ensures
        decimal_text(n).len() > 0,
        forall|i: int| 0 <= i < decimal_text(n).len() ==> '0' <= #[trigger] decimal_text(n)[i] <= '9',
        number_of(decimal_text(n)) == n,
        n > 0 ==> decimal_text(n)[0] != '0',
    decreases n,
{
    reveal_with_fuel(number_of, 2);
    let text = decimal_text(n);
    if n < 10 {
        assert(text.drop_last() =~= Seq::<char>::empty());
    } else {
        law_decimal_reads_back(n / 10);
        assert(text.drop_last() =~= decimal_text(n / 10));
        assert(text.last() == digit_char((n % 10) as int));
        assert(text[0] == decimal_text(n / 10)[0]);
    }
}

/// What comes over the boundary is nothing for a null pointer, the encoded text
/// for valid UTF-8, and the sentinel for all other bytes.
pub proof fn law_foreign_text_by_its_bytes(bytes: Seq<u8>)
    ensures
        foreign_text(None) == ""@,
        valid_utf8(bytes) ==> foreign_text(Some(bytes)) == decode_utf8(bytes),
        !valid_utf8(bytes) ==> foreign_text(Some(bytes)) == "<invalid utf-8>"@,
{
}

/// The contents of an optional slice are those of the slice.
pub proof fn law_bytes_are_the_slice(bytes: &[u8])
    ensures
        bytes_model(Some(bytes)) == Some(bytes@),
        bytes_model(None) == None::<Seq<u8>>,
{
}

/// Lowering changes the capitals `A` to `Z` alone, each to the letter 32 places
/// further on, and keeps the length.
pub proof fn law_lowering_moves_capitals_alone(s: Seq<char>, i: int)
    requires
        0 <= i < s.len(),
    ensures
        lowered(s).len() == s.len(),
        'A' <= s[i] <= 'Z' ==> lowered(s)[i] as int == s[i] as int + 32,
        !('A' <= s[i] <= 'Z') ==> lowered(s)[i] == s[i],
{
}

/// Trimming takes white space alone: what is left stands in the text between white
/// space, and neither starts nor ends with any.
pub proof fn law_trimming_takes_white_space_alone(s: Seq<char>) -> (r: (Seq<char>, Seq<char>))
    ensures
        s == r.0 + trimmed(s) + r.1,
        forall|i: int| 0 <= i < r.0.len() ==> is_white_space(#[trigger] r.0[i]),
        forall|i: int| 0 <= i < r.1.len() ==> is_white_space(#[trigger] r.1[i]),
        trimmed(s).len() > 0 ==> !is_white_space(trimmed(s)[0]) && !is_white_space(
            trimmed(s).last(),
        ),
{
    let before = lemma_trim_start_takes(s);
    let t = trim_start(s);
    let after = lemma_trim_end_takes(t);
    assert(s =~= before + trimmed(s) + after);
    if trimmed(s).len() > 0 {
        assert(trimmed(s)[0] == t[0]);
    }
    (before, after)
}

proof fn lemma_trim_start_takes(s: Seq<char>) -> (before: Seq<char>)
    ensures
        s == before + trim_start(s),
        forall|i: int| 0 <= i < before.len() ==> is_white_space(#[trigger] before[i]),
        trim_start(s).len() > 0 ==> !is_white_space(trim_start(s)[0]),
    decreases s.len(),
{
    if s.len() > 0 && is_white_space(s[0]) {
        let rest = lemma_trim_start_takes(s.drop_first());
        let before = seq![s[0]] + rest;
        let tail = trim_start(s.drop_first());
        assert(s =~= seq![s[0]] + s.drop_first());
        assert(seq![s[0]] + (rest + tail) =~= before + tail);
        before
    } else {
        assert(s =~= Seq::<char>::empty() + s);
        Seq::empty()
    }
}

proof fn lemma_trim_end_takes(s: Seq<char>) -> (after: Seq<char>)
    ensures
        s == trim_end(s) + after,
        forall|i: int| 0 <= i < after.len() ==> is_white_space(#[trigger] after[i]),
        trim_end(s).len() > 0 ==> !is_white_space(trim_end(s).last()),
    decreases s.len(),
{
    if s.len() > 0 && is_white_space(s.last()) {
        let rest = lemma_trim_end_takes(s.drop_last());
        let after = rest.push(s.last());
        let head = trim_end(s.drop_last());
        assert(s =~= s.drop_last().push(s.last()));
        assert((head + rest).push(s.last()) =~= head + after);
        after
    } else {
        assert(s =~= s + Seq::<char>::empty());
        Seq::empty()
    }
}

}
