//! Finding the lyrics in a document that no XML reader accepts: quotes, ampersands
//! and angle brackets may stand unescaped inside them.

use crate::lyrics::line::text_of;
use crate::lyrics::markup::{document_content, document_steps, extract_qrc_content_strict};
use crate::number::{parse_unsigned, unsigned};
use crate::scan::{
    find_char, find_char_is_first, index_of, skip, skip_class, skip_class_stops, trim_start,
    trimmed_start, CharClass,
};
use crate::text::{copy_range, from_chars, push_chars, to_chars};
use vstd::prelude::*;
use vstd::slice::slice_subrange;
use vstd::utf8::is_scalar;

verus! {

/// The number that a numeral stands for, where it fits 32 bits.
pub open spec fn code_number(digits: Seq<char>, radix: nat) -> Option<nat> {
    unsigned(digits, radix, u32::MAX as nat)
}

/// The number that a character reference gives, behind `#` in base ten and behind
/// `#x` in base sixteen.
pub open spec fn reference_number(entity: Seq<char>) -> Option<nat> {
    if entity.len() >= 2 && entity[0] == '#' && (entity[1] == 'x' || entity[1] == 'X') {
        code_number(entity.skip(2), 16)
    } else if entity.len() >= 1 && entity[0] == '#' {
        code_number(entity.skip(1), 10)
    } else {
        None
    }
}

/// The character that an entity stands for.
pub open spec fn entity_char(entity: Seq<char>) -> Option<char> {
    if entity == "amp"@ {
        Some('&')
    } else if entity == "apos"@ {
        Some('\'')
    } else if entity == "gt"@ {
        Some('>')
    } else if entity == "lt"@ {
        Some('<')
    } else if entity == "quot"@ {
        Some('"')
    } else {
        match reference_number(entity) {
            Some(n) if is_scalar(n as u32) => Some((n as u32) as char),
            _ => None,
        }
    }
}

/// Whether two rows of characters are the same.
pub fn same_chars(a: &[char], b: &[char]) -> (result: bool)
    ensures
        result == (a@ == b@),
{
    if a.len() != b.len() {
        return false;
    }
    let mut i: usize = 0;
    while i < a.len()
        invariant
            i <= a@.len(),
            a@.len() == b@.len(),
            forall|j: int| 0 <= j < i ==> a@[j] == b@[j],
        decreases a.len() - i,
    {
        if a[i] != b[i] {
            return false;
        }
        i += 1;
    }
    assert(a@ =~= b@);
    true
}

fn is_text(chars: &[char], text: &str) -> (result: bool)
    ensures
        result == (chars@ == text@),
{
    let expected = to_chars(text);
    same_chars(chars, expected.as_slice())
}

fn parse_reference(entity: &[char]) -> (number: Option<u32>)
    ensures
        match number {
            Some(n) => reference_number(entity@) == Some(n as nat),
            None => reference_number(entity@) is None,
        },
{
    let length: usize = entity.len();
    if length >= 2 && entity[0] == '#' && (entity[1] == 'x' || entity[1] == 'X') {
        let digits = slice_subrange(entity, 2, length);
        assert(digits@ =~= entity@.skip(2));
        match parse_unsigned(digits, 16, u32::MAX as u64) {
            Some(n) => Some(n as u32),
            None => None,
        }
    } else if length >= 1 && entity[0] == '#' {
        let digits = slice_subrange(entity, 1, length);
        assert(digits@ =~= entity@.skip(1));
        match parse_unsigned(digits, 10, u32::MAX as u64) {
            Some(n) => Some(n as u32),
            None => None,
        }
    } else {
        None
    }
}

pub fn decode_qrc_entity(entity: &[char]) -> (result: Option<char>)
    ensures
        result == entity_char(entity@),
{
    if is_text(entity, "amp") {
        Some('&')
    } else if is_text(entity, "apos") {
        Some('\'')
    } else if is_text(entity, "gt") {
        Some('>')
    } else if is_text(entity, "lt") {
        Some('<')
    } else if is_text(entity, "quot") {
        Some('"')
    } else {
        match parse_reference(entity) {
            Some(n) => {
                let c = char::from_u32(n);
                proof {
                    if let Some(found) = c {
                        vstd::utf8::char_u32_cast(found, n);
                    }
                }
                c
            },
            None => None,
        }
    }
}

/// `s` from `from` on with its entities resolved. An ampersand that starts none
/// stands for itself.
pub open spec fn decoded(s: Seq<char>, from: int) -> Seq<char>
    decreases s.len() - from,
    via decoded_decreases
{
    if from < 0 {
        Seq::empty()
    } else {
        match find_char(s, '&', from) {
            None => s.skip(from),
            Some(start) => match find_char(s, ';', start + 1) {
                None => s.skip(from),
                Some(end) => match entity_char(s.subrange(start + 1, end)) {
                    Some(c) => s.subrange(from, start).push(c) + decoded(s, end + 1),
                    None => s.subrange(from, start + 1) + decoded(s, start + 1),
                },
            },
        }
    }
}

#[via_fn]
proof fn decoded_decreases(s: Seq<char>, from: int) {
    if from >= 0 {
        find_char_is_first(s, '&', from);
        if let Some(start) = find_char(s, '&', from) {
            find_char_is_first(s, ';', start + 1);
        }
    }
}

/// A text without an ampersand is left as it is.
pub proof fn decoding_keeps_plain_text(s: Seq<char>)
    requires
        !s.contains('&'),
    ensures
        decoded(s, 0) == s,
{
    find_char_is_first(s, '&', 0);
    assert(s.skip(0) =~= s);
}

/// Resolves the entities of lyrics.
pub fn decode_qrc_entities(input: &[char]) -> (result: String)
    ensures
        result@ == decoded(input@, 0),
{
    let mut text = String::new();
    let mut cursor: usize = 0;
    let length: usize = input.len();
    let mut more: bool = true;
    assert(text@ + decoded(input@, 0) =~= decoded(input@, 0));
    while more
        invariant
            length == input@.len(),
            cursor <= length,
            text@ + decoded(input@, cursor as int) == decoded(input@, 0),
            !more ==> decoded(input@, cursor as int) == input@.skip(cursor as int),
        decreases length - cursor, (if more { 1int } else { 0int }),
    {
        let ghost before = text@;
        match index_of(input, '&', cursor) {
            None => {
                more = false;
            },
            Some(start) => match index_of(input, ';', start + 1) {
                None => {
                    more = false;
                },
                Some(end) => match decode_qrc_entity(slice_subrange(input, start + 1, end)) {
                    Some(c) => {
                        push_chars(&mut text, slice_subrange(input, cursor, start));
                        text.push(c);
                        assert(text@ + decoded(input@, end + 1) =~= before + decoded(
                            input@,
                            cursor as int,
                        ));
                        cursor = end + 1;
                    },
                    None => {
                        push_chars(&mut text, slice_subrange(input, cursor, start + 1));
                        assert(text@ + decoded(input@, start + 1) =~= before + decoded(
                            input@,
                            cursor as int,
                        ));
                        cursor = start + 1;
                    },
                },
            },
        }
    }
    let tail = slice_subrange(input, cursor, length);
    assert(tail@ =~= input@.skip(cursor as int));
    push_chars(&mut text, tail);
    text
}

/// The front of an attribute: its name, its opening quote and where its value starts.
pub struct Head {
    pub name: Seq<char>,
    pub quote: char,
    pub value: int,
}

/// The front of the attribute that starts at `at`: a name, an equals sign and a
/// quote, with space allowed between them.
pub open spec fn attribute_head(s: Seq<char>, at: int) -> Option<Head> {
    let name_end = skip_class(s, CharClass::XmlName, at);
    let equals = skip_class(s, CharClass::AsciiWhitespace, name_end);
    let quote = skip_class(s, CharClass::AsciiWhitespace, equals + 1);
    if name_end > at && equals < s.len() && s[equals] == '=' && quote < s.len() && (s[quote] == '"'
        || s[quote] == '\'') {
        Some(Head { name: s.subrange(at, name_end), quote: s[quote], value: quote + 1 })
    } else {
        None
    }
}

proof fn head_advances(s: Seq<char>, at: int)
    requires
        0 <= at <= s.len(),
    ensures
        attribute_head(s, at) matches Some(head) ==> at < head.value <= s.len(),
{
    skip_class_stops(s, CharClass::XmlName, at);
    let name_end = skip_class(s, CharClass::XmlName, at);
    skip_class_stops(s, CharClass::AsciiWhitespace, name_end);
    let equals = skip_class(s, CharClass::AsciiWhitespace, name_end);
    if equals < s.len() {
        skip_class_stops(s, CharClass::AsciiWhitespace, equals + 1);
    }
}

fn read_head(chars: &[char], at: usize) -> (head: Option<(usize, char, usize)>)
    requires
        at <= chars@.len(),
    ensures
        match (head, attribute_head(chars@, at as int)) {
            (Some((name_end, quote, value)), Some(expected)) => at < name_end < value
                <= chars@.len() && expected.name == chars@.subrange(at as int, name_end as int)
                && expected.quote == quote && expected.value == value,
            (None, None) => true,
            _ => false,
        },
{
    let length: usize = chars.len();
    let name_end = skip(chars, CharClass::XmlName, at);
    if name_end == at {
        return None;
    }
    let equals = skip(chars, CharClass::AsciiWhitespace, name_end);
    if equals >= length || chars[equals] != '=' {
        return None;
    }
    let quote = skip(chars, CharClass::AsciiWhitespace, equals + 1);
    if quote >= length || (chars[quote] != '"' && chars[quote] != '\'') {
        return None;
    }
    Some((name_end, chars[quote], quote + 1))
}

/// A tag ends at `at`.
pub open spec fn tag_ends(s: Seq<char>, at: int) -> bool {
    0 <= at < s.len() && (s[at] == '>' || (s[at] == '/' && at + 1 < s.len() && s[at + 1] == '>'))
}

fn is_tag_end(chars: &[char], at: usize) -> (result: bool)
    ensures
        result == tag_ends(chars@, at as int),
{
    let length: usize = chars.len();
    at < length && (chars[at] == '>' || (chars[at] == '/' && at + 1 < length && chars[at + 1]
        == '>'))
}

/// Behind `at` stand quoted attributes and then the end of the tag.
pub open spec fn tail_valid(s: Seq<char>, at: int) -> bool
    decreases s.len() - at,
    via tail_decreases
{
    if at < 0 || at > s.len() {
        false
    } else {
        let next = skip_class(s, CharClass::AsciiWhitespace, at);
        if tag_ends(s, next) {
            true
        } else {
            match attribute_head(s, next) {
                None => false,
                Some(head) => match find_char(s, head.quote, head.value) {
                    None => false,
                    Some(end) => tail_valid(s, end + 1),
                },
            }
        }
    }
}

#[via_fn]
proof fn tail_decreases(s: Seq<char>, at: int) {
    if 0 <= at <= s.len() {
        skip_class_stops(s, CharClass::AsciiWhitespace, at);
        let next = skip_class(s, CharClass::AsciiWhitespace, at);
        head_advances(s, next);
        if let Some(head) = attribute_head(s, next) {
            find_char_is_first(s, head.quote, head.value);
        }
    }
}

/// Whether what follows `at` is the rest of a tag.
pub fn qrc_attribute_tail_is_valid(chars: &[char], at: usize) -> (result: bool)
    requires
        at <= chars@.len(),
    ensures
        result == tail_valid(chars@, at as int),
{
    let mut cursor: usize = at;
    let length: usize = chars.len();
    loop
        invariant
            length == chars@.len(),
            cursor <= length,
            tail_valid(chars@, at as int) == tail_valid(chars@, cursor as int),
        decreases length - cursor,
    {
        let next = skip(chars, CharClass::AsciiWhitespace, cursor);
        if is_tag_end(chars, next) {
            return true;
        }
        match read_head(chars, next) {
            None => {
                return false;
            },
            Some((_, quote, value)) => match index_of(chars, quote, value) {
                None => {
                    return false;
                },
                Some(end) => {
                    cursor = end + 1;
                },
            },
        }
    }
}

/// The first quote at or after `from` behind which only the rest of a tag stands.
pub open spec fn closing_quote(s: Seq<char>, quote: char, from: int) -> Option<int>
    decreases s.len() - from,
    via closing_decreases
{
    if from < 0 {
        None
    } else {
        match find_char(s, quote, from) {
            None => None,
            Some(at) => if tail_valid(s, at + 1) {
                Some(at)
            } else {
                closing_quote(s, quote, at + 1)
            },
        }
    }
}

#[via_fn]
proof fn closing_decreases(s: Seq<char>, quote: char, from: int) {
    if from >= 0 {
        find_char_is_first(s, quote, from);
    }
}

fn find_closing_quote(chars: &[char], quote: char, from: usize) -> (found: Option<usize>)
    requires
        from <= chars@.len(),
    ensures
        match found {
            Some(at) => closing_quote(chars@, quote, from as int) == Some(at as int) && from <= at
                < chars@.len(),
            None => closing_quote(chars@, quote, from as int) is None,
        },
{
    let mut cursor: usize = from;
    let length: usize = chars.len();
    loop
        invariant
            length == chars@.len(),
            from <= cursor <= length,
            closing_quote(chars@, quote, from as int) == closing_quote(
                chars@,
                quote,
                cursor as int,
            ),
        decreases length - cursor,
    {
        match index_of(chars, quote, cursor) {
            None => {
                return None;
            },
            Some(at) => {
                if qrc_attribute_tail_is_valid(chars, at + 1) {
                    return Some(at);
                }
                cursor = at + 1;
            },
        }
    }
}

/// The value of the first `LyricContent` among the attributes at `at`.
pub open spec fn lyric_attribute(s: Seq<char>, at: int) -> Option<Seq<char>>
    decreases s.len() - at,
    via lyric_attribute_decreases
{
    if at < 0 || at > s.len() {
        None
    } else {
        let next = skip_class(s, CharClass::AsciiWhitespace, at);
        if next >= s.len() || tag_ends(s, next) {
            None
        } else {
            match attribute_head(s, next) {
                None => None,
                Some(head) => if head.name == "LyricContent"@ {
                    match closing_quote(s, head.quote, head.value) {
                        Some(end) => Some(s.subrange(head.value, end)),
                        None => None,
                    }
                } else {
                    match find_char(s, head.quote, head.value) {
                        Some(end) => lyric_attribute(s, end + 1),
                        None => None,
                    }
                },
            }
        }
    }
}

#[via_fn]
proof fn lyric_attribute_decreases(s: Seq<char>, at: int) {
    if 0 <= at <= s.len() {
        skip_class_stops(s, CharClass::AsciiWhitespace, at);
        let next = skip_class(s, CharClass::AsciiWhitespace, at);
        head_advances(s, next);
        if let Some(head) = attribute_head(s, next) {
            find_char_is_first(s, head.quote, head.value);
        }
    }
}

fn find_lyric_attribute(chars: &[char], at: usize) -> (found: Option<Vec<char>>)
    requires
        at <= chars@.len(),
    ensures
        match found {
            Some(value) => lyric_attribute(chars@, at as int) == Some(value@),
            None => lyric_attribute(chars@, at as int) is None,
        },
{
    let mut cursor: usize = at;
    let length: usize = chars.len();
    loop
        invariant
            length == chars@.len(),
            cursor <= length,
            lyric_attribute(chars@, at as int) == lyric_attribute(chars@, cursor as int),
        decreases length - cursor,
    {
        let next = skip(chars, CharClass::AsciiWhitespace, cursor);
        if next >= length || is_tag_end(chars, next) {
            return None;
        }
        match read_head(chars, next) {
            None => {
                return None;
            },
            Some((name_end, quote, value)) => {
                if is_text(slice_subrange(chars, next, name_end), "LyricContent") {
                    return match find_closing_quote(chars, quote, value) {
                        Some(end) => Some(copy_range(chars, value, end)),
                        None => None,
                    };
                }
                match index_of(chars, quote, value) {
                    None => {
                        return None;
                    },
                    Some(end) => {
                        cursor = end + 1;
                    },
                }
            },
        }
    }
}

/// Where `part` first stands in `s` at or after `from`.
pub open spec fn find_part(s: Seq<char>, part: Seq<char>, from: int) -> Option<int>
    decreases s.len() - from + 1,
{
    if from < 0 || from + part.len() > s.len() {
        None
    } else if s.subrange(from, from + part.len()) == part {
        Some(from)
    } else {
        find_part(s, part, from + 1)
    }
}

proof fn find_part_bounds(s: Seq<char>, part: Seq<char>, from: int)
    ensures
        find_part(s, part, from) matches Some(at) ==> 0 <= from <= at && at + part.len() <= s.len(),
    decreases s.len() - from + 1,
{
    if !(from < 0 || from + part.len() > s.len()) && s.subrange(from, from + part.len()) != part {
        find_part_bounds(s, part, from + 1);
    }
}

fn index_of_part(chars: &[char], part: &[char], from: usize) -> (found: Option<usize>)
    requires
        from <= chars@.len(),
    ensures
        match found {
            Some(at) => find_part(chars@, part@, from as int) == Some(at as int) && from <= at
                && at + part@.len() <= chars@.len(),
            None => find_part(chars@, part@, from as int) is None,
        },
{
    let length: usize = chars.len();
    let width: usize = part.len();
    let mut at: usize = from;
    while at < length && width <= length - at
        invariant
            length == chars@.len(),
            width == part@.len(),
            from <= at <= length,
            find_part(chars@, part@, from as int) == find_part(chars@, part@, at as int),
        decreases length - at,
    {
        if same_chars(slice_subrange(chars, at, at + width), part) {
            return Some(at);
        }
        at += 1;
    }
    if at == length && width == 0 {
        assert(chars@.subrange(at as int, at as int) =~= part@);
        return Some(at);
    }
    None
}

/// The lyrics of the first `Lyric_1` tag at or after `from` that has some.
pub open spec fn tagged_content(s: Seq<char>, from: int) -> Option<Seq<char>>
    decreases s.len() - from,
    via tagged_decreases
{
    match find_part(s, "<Lyric_1"@, from) {
        None => None,
        Some(at) => {
            let behind = at + 8;
            if behind < s.len() && CharClass::XmlName.holds(s[behind]) {
                tagged_content(s, behind)
            } else {
                match lyric_attribute(s, behind) {
                    Some(value) => Some(decoded(value, 0)),
                    None => tagged_content(s, behind),
                }
            }
        },
    }
}

#[via_fn]
proof fn tagged_decreases(s: Seq<char>, from: int) {
    reveal_strlit("<Lyric_1");
    find_part_bounds(s, "<Lyric_1"@, from);
}

/// Finds the lyrics in a document that is not well formed.
pub fn extract_qrc_content_relaxed(raw: &str) -> (content: Option<String>)
    ensures
        text_of(content) == tagged_content(raw@, 0),
{
    let chars = to_chars(raw);
    let tag = to_chars("<Lyric_1");
    proof {
        reveal_strlit("<Lyric_1");
    }
    let mut from: usize = 0;
    let length: usize = chars.len();
    loop
        invariant
            chars@ == raw@,
            length == chars@.len(),
            tag@ == "<Lyric_1"@,
            tag@.len() == 8,
            from <= length,
            tagged_content(raw@, 0) == tagged_content(raw@, from as int),
        decreases length - from,
    {
        match index_of_part(chars.as_slice(), tag.as_slice(), from) {
            None => {
                return None;
            },
            Some(at) => {
                let behind: usize = at + 8;
                if !(behind < length && CharClass::XmlName.contains(chars[behind])) {
                    if let Some(value) = find_lyric_attribute(chars.as_slice(), behind) {
                        return Some(decode_qrc_entities(value.as_slice()));
                    }
                }
                from = behind;
            },
        }
    }
}

/// The lyrics in what a provider sent: the text itself unless it is a document, and
/// for a document what a strict or, failing that, a tolerant reading finds.
pub open spec fn provider_content(raw: Seq<char>) -> Option<Seq<char>> {
    let front = trim_start(raw);
    if front.len() == 0 || front[0] != '<' {
        Some(raw)
    } else {
        content_found(document_content(document_steps(raw)), raw)
    }
}

/// What the strict reading found, or else what the tolerant one finds.
pub open spec fn content_found(strict: Option<Seq<char>>, raw: Seq<char>) -> Option<Seq<char>> {
    match strict {
        Some(content) => Some(content),
        None => tagged_content(raw, 0),
    }
}

/// Takes the result of the strict reading of `raw`, and reads tolerantly without one.
pub fn content_or_relaxed(strict: Option<String>, raw: &str) -> (content: Option<String>)
    ensures
        text_of(content) == content_found(text_of(strict), raw@),
{
    match strict {
        Some(content) => Some(content),
        None => extract_qrc_content_relaxed(raw),
    }
}

/// Gives the lyrics in what a provider sent.
pub fn extract_qrc_content(raw: &str) -> (content: Option<String>)
    ensures
        text_of(content) == provider_content(raw@),
{
    let chars = to_chars(raw);
    let front = trimmed_start(chars.as_slice());
    if front.len() == 0 || front[0] != '<' {
        return Some(from_chars(chars.as_slice()));
    }
    content_or_relaxed(extract_qrc_content_strict(raw), raw)
}

} // verus!
