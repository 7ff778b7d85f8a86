//! Byte offsets into a text: where its characters start in UTF-8.

use crate::text::{byte_len, copy_range, to_chars};
use vstd::prelude::*;
use vstd::utf8::encode_scalar;

verus! {

/// The bytes of the first `index` characters.
pub open spec fn offset_of(text: Seq<char>, index: int) -> nat {
    byte_len(text.take(index))
}

/// `offset` lies between two characters of `text`, or at one of its ends.
pub open spec fn is_offset(text: Seq<char>, offset: int) -> bool {
    exists|index: int| 0 <= index <= text.len() && #[trigger] offset_of(text, index) == offset
}

/// The number of characters that start before `offset`.
pub open spec fn index_at(text: Seq<char>, offset: int) -> int
    decreases text.len(),
{
    if text.len() == 0 || offset <= 0 {
        0
    } else {
        1 + index_at(text.drop_first(), offset - encode_scalar(text[0] as u32).len())
    }
}

/// The characters of `text` that start between two offsets.
pub open spec fn slice_at(text: Seq<char>, start: int, end: int) -> Seq<char> {
    text.subrange(index_at(text, start), index_at(text, end))
}

pub proof fn byte_len_of_concat(a: Seq<char>, b: Seq<char>)
    ensures
        byte_len(a + b) == byte_len(a) + byte_len(b),
    decreases a.len(),
{
    if a.len() == 0 {
        assert(a + b =~= b);
    } else {
        assert((a + b).drop_first() =~= a.drop_first() + b);
        byte_len_of_concat(a.drop_first(), b);
    }
}

pub proof fn byte_len_bounds(a: Seq<char>)
    ensures
        a.len() <= byte_len(a) <= 4 * a.len(),
        byte_len(a) == 0 <==> a.len() == 0,
    decreases a.len(),
{
    if a.len() > 0 {
        byte_len_bounds(a.drop_first());
    }
}

/// A longer prefix takes more bytes.
pub proof fn offset_of_grows(text: Seq<char>, i: int, j: int)
    requires
        0 <= i <= j <= text.len(),
    ensures
        offset_of(text, i) + byte_len(text.subrange(i, j)) == offset_of(text, j),
        i < j ==> offset_of(text, i) < offset_of(text, j),
        offset_of(text, j) <= byte_len(text),
        offset_of(text, 0) == 0,
        offset_of(text, text.len() as int) == byte_len(text),
{
    assert(text.take(i) + text.subrange(i, j) =~= text.take(j));
    byte_len_of_concat(text.take(i), text.subrange(i, j));
    byte_len_bounds(text.subrange(i, j));
    assert(text.take(j) + text.skip(j) =~= text);
    byte_len_of_concat(text.take(j), text.skip(j));
    assert(text.take(0) =~= Seq::empty());
    assert(text.take(text.len() as int) =~= text);
}

pub proof fn index_of_offset(text: Seq<char>, index: int)
    requires
        0 <= index <= text.len(),
    ensures
        index_at(text, offset_of(text, index) as int) == index,
    decreases text.len(),
{
    if index == 0 {
        assert(text.take(0) =~= Seq::empty());
    } else {
        let rest = text.drop_first();
        assert(text.take(index).drop_first() =~= rest.take(index - 1));
        assert(text.take(index)[0] == text[0]);
        assert(offset_of(text, index) == encode_scalar(text[0] as u32).len() + offset_of(
            rest,
            index - 1,
        ));
        index_of_offset(rest, index - 1);
        byte_len_bounds(text.take(index));
    }
}

pub proof fn index_at_bounds(text: Seq<char>, offset: int)
    ensures
        0 <= index_at(text, offset) <= text.len(),
    decreases text.len(),
{
    if text.len() > 0 && offset > 0 {
        index_at_bounds(text.drop_first(), offset - encode_scalar(text[0] as u32).len());
    }
}

pub proof fn index_at_grows(text: Seq<char>, a: int, b: int)
    requires
        a <= b,
    ensures
        index_at(text, a) <= index_at(text, b),
    decreases text.len(),
{
    index_at_bounds(text, b);
    if text.len() > 0 && a > 0 {
        let width = encode_scalar(text[0] as u32).len();
        index_at_grows(text.drop_first(), a - width, b - width);
    }
}

/// The characters that start between two offsets of `text`.
pub fn slice_text(text: &str, start: usize, end: usize) -> (part: Vec<char>)
    requires
        start <= end,
    ensures
        part@ == slice_at(text@, start as int, end as int),
{
    let chars = to_chars(text);
    let from = char_index(chars.as_slice(), start);
    let to = char_index(chars.as_slice(), end);
    proof {
        index_at_grows(text@, start as int, end as int);
    }
    copy_range(chars.as_slice(), from, to)
}

fn utf8_width(c: char) -> (width: usize)
    ensures
        width == encode_scalar(c as u32).len(),
        1 <= width <= 4,
{
    let v: u32 = c as u32;
    if v <= 0x7f {
        1
    } else if v <= 0x7ff {
        2
    } else if v <= 0xffff {
        3
    } else {
        4
    }
}

fn char_index(chars: &[char], offset: usize) -> (index: usize)
    ensures
        index == index_at(chars@, offset as int),
        index <= chars@.len(),
{
    let mut index: usize = 0;
    let mut left: usize = offset;
    assert(chars@.skip(0) =~= chars@);
    while index < chars.len() && left > 0
        invariant
            index <= chars@.len(),
            index_at(chars@, offset as int) == index + index_at(
                chars@.skip(index as int),
                left as int,
            ),
        decreases chars.len() - index,
    {
        let width = utf8_width(chars[index]);
        proof {
            let rest = chars@.skip(index as int);
            assert(rest.drop_first() =~= chars@.skip(index + 1));
            assert(rest[0] == chars@[index as int]);
            if left < width {
                assert(index_at(rest.drop_first(), left - width) == 0);
                assert(index_at(rest.drop_first(), 0) == 0);
            }
        }
        left = if left >= width {
            left - width
        } else {
            0
        };
        index += 1;
    }
    index
}

} // verus!
