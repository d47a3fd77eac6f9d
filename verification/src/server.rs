//! Start-up decisions of the server: the port to listen on.

use vstd::prelude::*;
use vstd::utf8::{decode_utf8, valid_utf8};

use crate::text::chars_of;

verus! {

/// What `strip_ansi_escapes::strip` leaves of a run of bytes: the bytes
/// without the ANSI escape sequences among them.
pub uninterp spec fn stripped(bytes: Seq<u8>) -> Seq<u8>;

/// Removes ANSI escape sequences with `strip_ansi_escapes::strip`. The
/// result is a function of the bytes alone and is named by `stripped`.
#[verifier::external_body]
fn strip_ansi(bytes: &[u8]) -> (out: Vec<u8>)
    ensures
        out@ == stripped(bytes@),
{
    strip_ansi_escapes::strip(bytes)
}

/// Reads bytes as text with `String::from_utf8`, which gives the text that
/// the bytes encode where they are valid UTF-8, and fails where they are
/// not.
#[verifier::external_body]
fn text_from_utf8(bytes: Vec<u8>) -> (text: Option<String>)
    ensures
        text is Some <==> valid_utf8(bytes@),
        text matches Some(t) ==> t@ == decode_utf8(bytes@),
{
    match String::from_utf8(bytes) {
        Ok(text) => Some(text),
        Err(_) => None,
    }
}

/// Whether a character counts as white space: the characters with the
/// Unicode property `White_Space`.
pub open spec fn is_white_space(c: char) -> bool {
    let code = c as u32;
    ||| 0x09 <= code <= 0x0d
    ||| code == 0x20
    ||| code == 0x85
    ||| code == 0xa0
    ||| code == 0x1680
    ||| 0x2000 <= code <= 0x200a
    ||| code == 0x2028
    ||| code == 0x2029
    ||| code == 0x202f
    ||| code == 0x205f
    ||| code == 0x3000
}

/// Whether the text without white space around it runs from `from` to `to`.
pub open spec fn is_trimmed_span(text: Seq<char>, from: int, to: int) -> bool {
    &&& 0 <= from <= to <= text.len()
    &&& forall|i: int| 0 <= i < from ==> is_white_space(text[i])
    &&& forall|i: int| to <= i < text.len() ==> is_white_space(text[i])
    &&& from < to ==> !is_white_space(text[from]) && !is_white_space(text[to - 1])
}

/// Whether a character is a decimal digit.
pub open spec fn is_digit(c: char) -> bool {
    '0' <= c <= '9'
}

/// The number that a run of decimal digits spells.
pub open spec fn number_of(digits: Seq<char>) -> nat
    decreases digits.len(),
{
    if digits.len() == 0 {
        0
    } else {
        number_of(digits.drop_last()) * 10 + (digits.last() as u32 - '0' as u32) as nat
    }
}

/// The port that a run of decimal digits spells: there must be a digit,
/// nothing but digits, and their number must be one of sixteen bits.
pub open spec fn port_of_digits(digits: Seq<char>) -> Option<u16> {
    if digits.len() > 0 && (forall|i: int| 0 <= i < digits.len() ==> is_digit(digits[i]))
        && number_of(digits) <= u16::MAX {
        Some(number_of(digits) as u16)
    } else {
        None
    }
}

/// The port that a word spells: decimal digits, after a plus sign or
/// without one.
pub open spec fn port_of_word(word: Seq<char>) -> Option<u16> {
    if word.len() > 0 && word[0] == '+' {
        port_of_digits(word.skip(1))
    } else {
        port_of_digits(word)
    }
}

/// Whether `port` is the port that the text spells, white space around it
/// set aside.
pub open spec fn spells_port(text: Seq<char>, port: Option<u16>) -> bool {
    exists|from: int, to: int|
        #[trigger] is_trimmed_span(text, from, to) && port == port_of_word(text.subrange(from, to))
}

fn white_space(c: char) -> (b: bool)
    ensures
        b == is_white_space(c),
{
    let code = c as u32;
    (0x09 <= code && code <= 0x0d) || code == 0x20 || code == 0x85 || code == 0xa0 || code
        == 0x1680 || (0x2000 <= code && code <= 0x200a) || code == 0x2028 || code == 0x2029 || code
        == 0x202f || code == 0x205f || code == 0x3000
}

/// A number does not shrink when digits are appended.
proof fn lemma_number_grows(digits: Seq<char>, n: int)
    requires
        0 <= n <= digits.len(),
    ensures
        number_of(digits.take(n)) <= number_of(digits),
    decreases digits.len() - n,
{
    if n < digits.len() {
        lemma_number_grows(digits, n + 1);
        assert(digits.take(n + 1).drop_last() == digits.take(n));
    } else {
        assert(digits.take(n) == digits);
    }
}

fn port_of_run(chars: &Vec<char>, start: usize, to: usize) -> (port: Option<u16>)
    requires
        start <= to <= chars@.len(),
    ensures
        port == port_of_digits(chars@.subrange(start as int, to as int)),
{
    let ghost digits = chars@.subrange(start as int, to as int);
    if start == to {
        return None;
    }
    let mut value: u32 = 0;
    let mut i: usize = start;
    while i < to
        invariant
            start <= i <= to,
            to <= chars@.len(),
            digits == chars@.subrange(start as int, to as int),
            forall|j: int| 0 <= j < i - start ==> is_digit(digits[j]),
            value == number_of(digits.take(i - start)),
            value <= u16::MAX,
        decreases to - i,
    {
        let c = chars[i];
        if !('0' <= c && c <= '9') {
            assert(!is_digit(digits[i - start]));
            return None;
        }
        let d = c as u32 - '0' as u32;
        proof {
            assert(digits.take(i - start + 1).drop_last() == digits.take(i - start));
            assert(digits.take(i - start + 1).last() == c);
        }
        let next = value * 10 + d;
        if next > 65535 {
            proof {
                lemma_number_grows(digits, i - start + 1);
            }
            return None;
        }
        value = next;
        i = i + 1;
    }
    assert(digits.take(to - start) == digits);
    Some(value as u16)
}

/// The port that a text spells, white space around it set aside.
pub fn port_of_text(text: &str) -> (port: Option<u16>)
    ensures
        spells_port(text@, port),
{
    let chars = chars_of(text);
    let mut from: usize = 0;
    while from < chars.len() && white_space(chars[from])
        invariant
            from <= chars@.len(),
            forall|i: int| 0 <= i < from ==> is_white_space(chars@[i]),
        decreases chars@.len() - from,
    {
        from = from + 1;
    }
    let mut to: usize = chars.len();
    while to > from && white_space(chars[to - 1])
        invariant
            from <= to <= chars@.len(),
            forall|i: int| to <= i < chars@.len() ==> is_white_space(chars@[i]),
        decreases to,
    {
        to = to - 1;
    }
    assert(is_trimmed_span(text@, from as int, to as int));
    let ghost word = text@.subrange(from as int, to as int);
    let start: usize = if from < to && chars[from] == '+' {
        from + 1
    } else {
        from
    };
    proof {
        if word.len() > 0 && word[0] == '+' {
            assert(word.skip(1) =~= text@.subrange(start as int, to as int));
        } else {
            assert(word =~= text@.subrange(start as int, to as int));
        }
    }
    port_of_run(&chars, start, to)
}

/// What a setting of the port comes to: the port that the setting spells
/// once its ANSI escape sequences are removed, or none where what is left
/// is no text.
pub open spec fn port_setting(raw: Seq<u8>, port: Option<u16>) -> bool {
    if valid_utf8(stripped(raw)) {
        spells_port(decode_utf8(stripped(raw)), port)
    } else {
        port is None
    }
}

/// The port that a setting asks for, if it asks for one.
pub fn parse_port(raw: &str) -> (port: Option<u16>)
    ensures
        port_setting(vstd::utf8::encode_utf8(raw@), port),
{
    let cleaned = strip_ansi(raw.as_bytes());
    match text_from_utf8(cleaned) {
        Some(text) => port_of_text(text.as_str()),
        None => None,
    }
}

} // verus!
