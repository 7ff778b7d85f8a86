//! Text as a sequence of characters: classes, conversion, trimming, splitting.

use vstd::prelude::*;
use vstd::utf8::{encode_utf8, is_scalar};

verus! {

/// Appends one character, as `String::push` documents.
pub assume_specification [ String::push ](text: &mut String, c: char)
    ensures
        final(text)@ == old(text)@.push(c),
;

/// `char::from_u32` gives the character of a Unicode scalar value, and nothing for
/// a surrogate or a number above `10FFFF`.
pub assume_specification [ char::from_u32 ](value: u32) -> (c: Option<char>)
    ensures
        c is Some <==> is_scalar(value),
        c matches Some(found) ==> found as u32 == value,
;

/// What a list of texts says.
pub open spec fn texts(list: Seq<String>) -> Seq<Seq<char>> {
    list.map_values(|text: String| text@)
}

/// The Unicode property `White_Space`.
pub open spec fn whitespace(c: char) -> bool {
    let v = c as u32;
    ||| 0x9 <= v <= 0xd
    ||| v == 0x20
    ||| v == 0x85
    ||| v == 0xa0
    ||| v == 0x1680
    ||| 0x2000 <= v <= 0x200a
    ||| v == 0x2028
    ||| v == 0x2029
    ||| v == 0x202f
    ||| v == 0x205f
    ||| v == 0x3000
}

/// The Unicode general category `Cc`.
pub open spec fn control(c: char) -> bool {
    let v = c as u32;
    v <= 0x1f || 0x7f <= v <= 0x9f
}

pub open spec fn ascii_digit(c: char) -> bool {
    0x30 <= c as u32 <= 0x39
}

pub open spec fn ascii_alphanumeric(c: char) -> bool {
    let v = c as u32;
    0x30 <= v <= 0x39 || 0x41 <= v <= 0x5a || 0x61 <= v <= 0x7a
}

/// Space, tab, line feed, form feed and carriage return.
pub open spec fn ascii_whitespace(c: char) -> bool {
    let v = c as u32;
    v == 0x20 || v == 0x9 || v == 0xa || v == 0xc || v == 0xd
}

pub fn is_whitespace(c: char) -> (result: bool)
    ensures
        result == whitespace(c),
{
    let v: u32 = c as u32;
    (0x9 <= v && v <= 0xd) || v == 0x20 || v == 0x85 || v == 0xa0 || v == 0x1680 || (0x2000 <= v
        && v <= 0x200a) || v == 0x2028 || v == 0x2029 || v == 0x202f || v == 0x205f || v == 0x3000
}

pub fn is_control(c: char) -> (result: bool)
    ensures
        result == control(c),
{
    let v: u32 = c as u32;
    v <= 0x1f || (0x7f <= v && v <= 0x9f)
}

pub fn is_ascii_digit(c: char) -> (result: bool)
    ensures
        result == ascii_digit(c),
{
    let v: u32 = c as u32;
    0x30 <= v && v <= 0x39
}

pub fn is_ascii_alphanumeric(c: char) -> (result: bool)
    ensures
        result == ascii_alphanumeric(c),
{
    let v: u32 = c as u32;
    (0x30 <= v && v <= 0x39) || (0x41 <= v && v <= 0x5a) || (0x61 <= v && v <= 0x7a)
}

pub fn is_ascii_whitespace(c: char) -> (result: bool)
    ensures
        result == ascii_whitespace(c),
{
    let v: u32 = c as u32;
    v == 0x20 || v == 0x9 || v == 0xa || v == 0xc || v == 0xd
}

/// The characters of `text`, in order.
pub fn to_chars(text: &str) -> (chars: Vec<char>)
    ensures
        chars@ == text@,
{
    let mut chars: Vec<char> = Vec::new();
    for c in it: text.chars()
        invariant
            it.seq() == text@,
            chars@ == text@.take(it.index() as int),
    {
        proof {
            assert(text@.take(it.index() as int).push(text@[it.index() as int])
                =~= text@.take(it.index() + 1));
        }
        chars.push(c);
    }
    assert(text@.take(text@.len() as int) =~= text@);
    chars
}

/// The characters of `chars` from `start` up to `end`.
pub fn copy_range(chars: &[char], start: usize, end: usize) -> (part: Vec<char>)
    requires
        start <= end <= chars@.len(),
    ensures
        part@ == chars@.subrange(start as int, end as int),
{
    let mut part: Vec<char> = Vec::new();
    let mut i: usize = start;
    while i < end
        invariant
            start <= i <= end <= chars@.len(),
            part@ =~= chars@.subrange(start as int, i as int),
        decreases end - i,
    {
        part.push(chars[i]);
        i += 1;
    }
    part
}

/// Appends `chars` to `text`.
pub fn push_chars(text: &mut String, chars: &[char])
    ensures
        final(text)@ == old(text)@ + chars@,
{
    let ghost start = text@;
    let mut i: usize = 0;
    assert(start + chars@.take(0) =~= start);
    while i < chars.len()
        invariant
            i <= chars.len(),
            text@ == start + chars@.take(i as int),
        decreases chars.len() - i,
    {
        proof {
            assert((start + chars@.take(i as int)).push(chars@[i as int]) =~= start + chars@.take(
                i + 1,
            ));
        }
        text.push(chars[i]);
        i += 1;
    }
    assert(chars@.take(chars@.len() as int) =~= chars@);
}

/// Appends `suffix` to `text`.
pub fn push_text(text: &mut String, suffix: &str)
    ensures
        final(text)@ == old(text)@ + suffix@,
{
    let chars = to_chars(suffix);
    push_chars(text, chars.as_slice());
}

pub fn from_chars(chars: &[char]) -> (text: String)
    ensures
        text@ == chars@,
{
    let mut text = String::new();
    push_chars(&mut text, chars);
    assert(text@ =~= chars@);
    text
}

/// How many bytes `text` takes in UTF-8.
pub open spec fn byte_len(text: Seq<char>) -> nat {
    encode_utf8(text).len()
}

pub fn utf8_len(text: &str) -> (length: usize)
    ensures
        length == byte_len(text@),
{
    text.as_bytes().len()
}

/// The characters that Unicode counts as whitespace: the controls from the tab to the
/// carriage return, the space, the next line and the no-break space, and those of other
/// scripts.
pub proof fn whitespace_is_what_unicode_says(c: char)
    ensures
        whitespace(c) <==> ('\t' <= c <= '\r' || c == ' ' || c == '\u{85}' || c == '\u{a0}' || c
            == '\u{1680}' || '\u{2000}' <= c <= '\u{200a}' || c == '\u{2028}' || c == '\u{2029}'
            || c == '\u{202f}' || c == '\u{205f}' || c == '\u{3000}'),
        control(c) <==> ('\0' <= c <= '\u{1f}' || '\u{7f}' <= c <= '\u{9f}'),
        ascii_digit(c) <==> '0' <= c <= '9',
        ascii_alphanumeric(c) <==> ('0' <= c <= '9' || 'A' <= c <= 'Z' || 'a' <= c <= 'z'),
        ascii_whitespace(c) <==> (c == ' ' || c == '\t' || c == '\n' || c == '\u{c}' || c == '\r'),
{
}

} // verus!
