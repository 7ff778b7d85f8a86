//! Lyrics with a time for every word: `[start,length]` in front of a line and
//! `(start,length)` behind each word, in milliseconds.

use crate::lyrics::line::{
    all_wf, by_start, line_views, ordered_lines, sort_by_start, word_views, words_follow, Line,
    LyricLine, LyricWord, Word,
};
use crate::number::{parse_unsigned, unsigned};
use crate::offset::{
    byte_len_bounds, byte_len_of_concat, is_offset, offset_of, offset_of_grows,
};
use crate::scan::{
    chars_views, end_without, end_without_stops, find_char, find_char_is_first, index_of, lines,
    skip, skip_class, skip_class_stops, split_at_first, split_once, text_lines, trim, trim_end,
    trim_start, trimmed, trimmed_end, trimmed_start, trimming_takes_whitespace_alone, CharClass,
};
use crate::text::{byte_len, from_chars, push_chars, to_chars, utf8_len, whitespace};
use crate::time::{capped_nanos, Duration, NANOS_PER_MILLI};
use vstd::prelude::*;
use vstd::slice::slice_subrange;

verus! {

pub open spec fn decimal(s: Seq<char>) -> Option<nat> {
    unsigned(s, 10, u64::MAX as nat)
}

pub open spec fn millis(n: nat) -> nat {
    n * NANOS_PER_MILLI as nat
}

/// The start in milliseconds that `[start,length]` at the front of `s` gives, and
/// how many characters it takes.
pub open spec fn line_timestamp(s: Seq<char>) -> Option<(nat, int)> {
    if s.len() == 0 || s[0] != '[' {
        None
    } else {
        match find_char(s, ']', 1) {
            None => None,
            Some(end) => match split_once(s.subrange(1, end), ',') {
                None => None,
                Some((start, length)) => match (decimal(start), decimal(length)) {
                    (Some(start), Some(_)) => Some((start, end + 1)),
                    _ => None,
                },
            },
        }
    }
}

fn parse_decimal(chars: &[char]) -> (value: Option<u64>)
    ensures
        match value {
            Some(v) => decimal(chars@) == Some(v as nat),
            None => decimal(chars@) is None,
        },
{
    parse_unsigned(chars, 10, u64::MAX)
}

pub fn parse_qrc_line_timestamp(input: &[char]) -> (result: Option<(Duration, usize)>)
    ensures
        match (result, line_timestamp(input@)) {
            (Some((start, consumed)), Some((ms, length))) => start@ == millis(ms) && consumed
                == length && consumed <= input@.len(),
            (None, None) => true,
            _ => false,
        },
{
    if input.len() == 0 || input[0] != '[' {
        return None;
    }
    match index_of(input, ']', 1) {
        None => None,
        Some(end) => match split_at_first(slice_subrange(input, 1, end), ',') {
            None => None,
            Some((start, length)) => match (parse_decimal(start), parse_decimal(length)) {
                (Some(start), Some(_)) => Some((Duration::from_millis(start), end + 1)),
                _ => None,
            },
        },
    }
}

/// The start and the length in milliseconds that the inside of a word's brackets
/// gives. A further comma ends the length.
pub open spec fn word_timestamp(s: Seq<char>) -> Option<(nat, nat)> {
    match split_once(s, ',') {
        None => None,
        Some((start, rest)) => {
            let length = match split_once(rest, ',') {
                Some((first, _)) => first,
                None => rest,
            };
            match (decimal(start), decimal(length)) {
                (Some(start), Some(length)) => Some((start, length)),
                _ => None,
            }
        },
    }
}

pub fn parse_qrc_word_timestamp(input: &[char]) -> (result: Option<(Duration, Duration)>)
    ensures
        match (result, word_timestamp(input@)) {
            (Some((start, length)), Some((start_ms, length_ms))) => start@ == millis(start_ms)
                && length@ == millis(length_ms),
            (None, None) => true,
            _ => false,
        },
{
    match split_at_first(input, ',') {
        None => None,
        Some((start, rest)) => {
            let length = match split_at_first(rest, ',') {
                Some((first, _)) => first,
                None => rest,
            };
            match (parse_decimal(start), parse_decimal(length)) {
                (Some(start), Some(length)) => Some(
                    (Duration::from_millis(start), Duration::from_millis(length)),
                ),
                _ => None,
            }
        },
    }
}

/// A stretch of a line, with the start and the end of its time where it has one.
pub struct Piece {
    pub text: Seq<char>,
    pub timing: Option<(nat, nat)>,
}

/// The stretches of a line from `from` on: each ends in front of brackets that hold
/// a time, or behind an opening bracket that does not open one. What follows the
/// last bracket is the last stretch.
pub open spec fn pieces(s: Seq<char>, from: int) -> Seq<Piece>
    decreases s.len() - from,
    via pieces_decreases
{
    if from < 0 {
        Seq::empty()
    } else {
        match find_char(s, '(', from) {
            None => seq![Piece { text: s.skip(from), timing: None }],
            Some(open) => match find_char(s, ')', open + 1) {
                None => seq![Piece { text: s.skip(from), timing: None }],
                Some(close) => match word_timestamp(s.subrange(open + 1, close)) {
                    Some((start, length)) => seq![
                        Piece {
                            text: s.subrange(from, open),
                            timing: Some(
                                (
                                    millis(start),
                                    capped_nanos((millis(start) + millis(length)) as int),
                                ),
                            ),
                        },
                    ] + pieces(s, close + 1),
                    None => seq![Piece { text: s.subrange(from, open + 1), timing: None }] + pieces(
                        s,
                        open + 1,
                    ),
                },
            },
        }
    }
}

#[via_fn]
proof fn pieces_decreases(s: Seq<char>, from: int) {
    if from >= 0 {
        find_char_is_first(s, '(', from);
        if let Some(open) = find_char(s, '(', from) {
            find_char_is_first(s, ')', open + 1);
        }
    }
}

/// What the stretches say together.
pub open spec fn joined(pieces: Seq<Piece>) -> Seq<char>
    decreases pieces.len(),
{
    if pieces.len() == 0 {
        Seq::empty()
    } else {
        pieces[0].text + joined(pieces.drop_first())
    }
}

/// A word for each stretch that has a time and is not empty, where the first stretch
/// begins `offset` bytes into the text.
pub open spec fn timed_words(pieces: Seq<Piece>, offset: nat) -> Seq<Word>
    decreases pieces.len(),
{
    if pieces.len() == 0 {
        Seq::empty()
    } else {
        let end = offset + byte_len(pieces[0].text);
        let rest = timed_words(pieces.drop_first(), end);
        match pieces[0].timing {
            Some((start, until)) if offset < end => seq![
                Word { from: offset as int, to: end as int, start, end: until, ruby: None },
            ] + rest,
            _ => rest,
        }
    }
}

proof fn timed_words_follow(pieces: Seq<Piece>, offset: nat)
    ensures
        words_follow(timed_words(pieces, offset)),
        forall|i: int|
            0 <= i < timed_words(pieces, offset).len() ==> offset <= (#[trigger] timed_words(
                pieces,
                offset,
            )[i]).from,
    decreases pieces.len(),
{
    if pieces.len() > 0 {
        let end = offset + byte_len(pieces[0].text);
        timed_words_follow(pieces.drop_first(), end);
        let words = timed_words(pieces, offset);
        let rest = timed_words(pieces.drop_first(), end);
        let first = words.len() - rest.len();
        assert forall|i: int| 0 <= i < words.len() implies offset <= (#[trigger] words[i]).from by {
            if i >= first {
                assert(words[i] == rest[i - first]);
            }
        }
        assert forall|i: int, j: int| 0 <= i < j < words.len() implies (#[trigger] words[i]).to
            <= (#[trigger] words[j]).from by {
            assert(words[j] == rest[j - first]);
            if i >= first {
                assert(words[i] == rest[i - first]);
            }
        }
    }
}

proof fn clipped_words_follow(words: Seq<Word>, start: int, end: int)
    requires
        words_follow(words),
        start <= end,
    ensures
        words_follow(clipped(words, start, end)),
        forall|i: int|
            0 <= i < clipped(words, start, end).len() ==> exists|j: int|
                0 <= j < words.len() && (#[trigger] clipped(words, start, end)[i]).to == clamped(
                    (#[trigger] words[j]).to,
                    start,
                    end,
                ) - start,
    decreases words.len(),
{
    if words.len() > 0 {
        let rest = words.drop_last();
        assert forall|i: int, j: int| 0 <= i < j < rest.len() implies (#[trigger] rest[i]).to <= (
        #[trigger] rest[j]).from by {
            assert(rest[i] == words[i] && rest[j] == words[j]);
        }
        clipped_words_follow(rest, start, end);
        let before = clipped(rest, start, end);
        let all = clipped(words, start, end);
        let last = words.len() - 1;
        assert forall|i: int| 0 <= i < all.len() implies exists|j: int|
            0 <= j < words.len() && (#[trigger] all[i]).to == clamped(
                (#[trigger] words[j]).to,
                start,
                end,
            ) - start by {
            if i < before.len() {
                assert(all[i] == before[i]);
                let j = choose|j: int|
                    0 <= j < rest.len() && before[i].to == clamped(
                        (#[trigger] rest[j]).to,
                        start,
                        end,
                    ) - start;
                assert(rest[j] == words[j]);
            } else {
                assert(all[i].to == clamped(words[last].to, start, end) - start);
            }
        }
        assert forall|i: int, k: int| 0 <= i < k < all.len() implies (#[trigger] all[i]).to <= (
        #[trigger] all[k]).from by {
            assert(all[i] == before[i]);
            if k < before.len() {
                assert(all[k] == before[k]);
            } else {
                let j = choose|j: int|
                    0 <= j < rest.len() && before[i].to == clamped(
                        (#[trigger] rest[j]).to,
                        start,
                        end,
                    ) - start;
                assert(rest[j] == words[j]);
                assert(words[j].to <= words[last].from);
            }
        }
    }
}

proof fn timed_words_lie_in_text(before: Seq<char>, pieces: Seq<Piece>)
    ensures
        forall|i: int|
            0 <= i < timed_words(pieces, byte_len(before)).len() ==> (#[trigger] timed_words(
                pieces,
                byte_len(before),
            )[i]).lies_in(before + joined(pieces)),
    decreases pieces.len(),
{
    if pieces.len() > 0 {
        let words = timed_words(pieces, byte_len(before));
        let text = before + joined(pieces);
        let next = before + pieces[0].text;
        byte_len_of_concat(before, pieces[0].text);
        timed_words_lie_in_text(next, pieces.drop_first());
        assert(next + joined(pieces.drop_first()) =~= text);
        assert(text.take(before.len() as int) =~= before);
        assert(text.take(next.len() as int) =~= next);
        assert(offset_of(text, before.len() as int) == byte_len(before));
        assert(offset_of(text, next.len() as int) == byte_len(next));
        let rest = timed_words(pieces.drop_first(), byte_len(next));
        assert forall|i: int| 0 <= i < words.len() implies (#[trigger] words[i]).lies_in(text) by {
            if words.len() == rest.len() + 1 {
                if i > 0 {
                    assert(words[i] == rest[i - 1]);
                }
            } else {
                assert(words[i] == rest[i]);
            }
        }
    }
}

pub open spec fn clamped(x: int, low: int, high: int) -> int {
    if x < low {
        low
    } else if x > high {
        high
    } else {
        x
    }
}

/// The words as far as they lie between two offsets, counted from the first.
pub open spec fn clipped(words: Seq<Word>, start: int, end: int) -> Seq<Word>
    decreases words.len(),
{
    if words.len() == 0 {
        Seq::empty()
    } else {
        let word = words.last();
        let from = clamped(word.from, start, end);
        let to = clamped(word.to, start, end);
        let before = clipped(words.drop_last(), start, end);
        if from < to {
            before.push(Word { from: from - start, to: to - start, ..word })
        } else {
            before
        }
    }
}

/// Where the text without its outer whitespace starts.
pub open spec fn trim_offset(text: Seq<char>) -> int {
    offset_of(text, skip_class(text, CharClass::Whitespace, 0)) as int
}

/// Where the text without the whitespace behind it ends.
pub open spec fn trim_end_offset(text: Seq<char>) -> int {
    offset_of(text, end_without(text, CharClass::Whitespace)) as int
}

/// A text without its outer whitespace, and its words as far as they lie in it.
pub open spec fn trimmed_words(text: Seq<char>, words: Seq<Word>) -> (Seq<char>, Seq<Word>) {
    let start = trim_offset(text);
    let end = trim_end_offset(text);
    if start >= end {
        (Seq::empty(), Seq::empty())
    } else if start == 0 && end == byte_len(text) {
        (text, words)
    } else {
        (trim(text), clipped(words, start, end))
    }
}

proof fn trim_offsets(text: Seq<char>)
    ensures
        0 <= skip_class(text, CharClass::Whitespace, 0) <= text.len(),
        0 <= end_without(text, CharClass::Whitespace) <= text.len(),
        trim_offset(text) == byte_len(text) - byte_len(trim_start(text)),
        trim_end_offset(text) == byte_len(trim_end(text)),
        trim_offset(text) < trim_end_offset(text) <==> skip_class(text, CharClass::Whitespace, 0)
            < end_without(text, CharClass::Whitespace),
        trim_offset(text) < trim_end_offset(text) ==> trim(text) == text.subrange(
            skip_class(text, CharClass::Whitespace, 0),
            end_without(text, CharClass::Whitespace),
        ),
        trim_offset(text) >= trim_end_offset(text) ==> trim(text).len() == 0,
        0 <= trim_offset(text) <= byte_len(text),
        0 <= trim_end_offset(text) <= byte_len(text),
        trim_offset(text) == 0 && trim_end_offset(text) == byte_len(text) ==> trim(text) == text,
{
    let ws = CharClass::Whitespace;
    let a = skip_class(text, ws, 0);
    let b = end_without(text, ws);
    skip_class_stops(text, ws, 0);
    end_without_stops(text, ws);
    offset_of_grows(text, a, text.len() as int);
    offset_of_grows(text, 0, a);
    offset_of_grows(text, b, text.len() as int);
    assert(text.subrange(a, text.len() as int) =~= trim_start(text));
    if a < b {
        offset_of_grows(text, a, b);
    } else {
        offset_of_grows(text, b, a);
    }
    let started = trim_start(text);
    end_without_stops(started, ws);
    let e = end_without(started, ws);
    if a < b {
        assert(e == b - a) by {
            if e > b - a {
                assert(started[e - 1] == text[a + e - 1]);
            }
            if e < b - a {
                assert(started[b - a - 1] == text[b - 1]);
            }
        }
        assert(trim(text) =~= text.subrange(a, b));
        if a == 0 && b == text.len() {
            assert(text.subrange(a, b) =~= text);
        }
        byte_len_bounds(text.take(a));
        byte_len_bounds(text.subrange(b, text.len() as int));
    } else {
        if e > 0 {
            assert(started[e - 1] == text[a + e - 1]);
        }
        assert(e == 0);
    }
    if a >= b && trim_offset(text) == 0 && trim_end_offset(text) == byte_len(text) {
        byte_len_bounds(text);
        byte_len_bounds(text.take(b));
        byte_len_bounds(text.take(a));
        assert(text.len() == 0) by {
            assert(a == 0);
        }
        assert(trim(text) =~= text);
    }
}

proof fn offset_in_part(text: Seq<char>, a: int, b: int, offset: int)
    requires
        0 <= a <= b <= text.len(),
        is_offset(text, offset),
    ensures
        is_offset(
            text.subrange(a, b),
            clamped(offset, offset_of(text, a) as int, offset_of(text, b) as int) - offset_of(
                text,
                a,
            ),
        ),
{
    let index = choose|index: int|
        0 <= index <= text.len() && #[trigger] offset_of(text, index) == offset;
    let inside = clamped(index, a, b);
    let part = text.subrange(a, b);
    if index < a {
        offset_of_grows(text, index, a);
    }
    if index > b {
        offset_of_grows(text, b, index);
    }
    offset_of_grows(text, a, b);
    offset_of_grows(text, a, inside);
    offset_of_grows(text, inside, b);
    assert(part.take(inside - a) =~= text.subrange(a, inside));
    assert(offset_of(part, inside - a) == offset_of(text, inside) - offset_of(text, a));
}

proof fn clipped_words_lie_in_part(text: Seq<char>, words: Seq<Word>, a: int, b: int)
    requires
        0 <= a <= b <= text.len(),
        forall|i: int| 0 <= i < words.len() ==> (#[trigger] words[i]).lies_in(text),
    ensures
        forall|i: int|
            0 <= i < clipped(words, offset_of(text, a) as int, offset_of(text, b) as int).len()
                ==> (#[trigger] clipped(
                words,
                offset_of(text, a) as int,
                offset_of(text, b) as int,
            )[i]).lies_in(text.subrange(a, b)),
    decreases words.len(),
{
    if words.len() > 0 {
        let rest = words.drop_last();
        assert forall|i: int| 0 <= i < rest.len() implies (#[trigger] rest[i]).lies_in(text) by {
            assert(rest[i] == words[i]);
        }
        clipped_words_lie_in_part(text, rest, a, b);
        assert(words[words.len() - 1].lies_in(text));
        offset_in_part(text, a, b, words.last().from);
        offset_in_part(text, a, b, words.last().to);
        let all = clipped(words, offset_of(text, a) as int, offset_of(text, b) as int);
        let before = clipped(rest, offset_of(text, a) as int, offset_of(text, b) as int);
        assert forall|i: int| 0 <= i < all.len() implies (#[trigger] all[i]).lies_in(
            text.subrange(a, b),
        ) by {
            if i < before.len() {
                assert(all[i] == before[i]);
            }
        }
    }
}

/// Removes whitespace around a text and fits its words to what is left.
pub fn trim_lyric_text(text: String, words: Vec<LyricWord>) -> (result: (String, Vec<LyricWord>))
    ensures
        (result.0@, word_views(result.1@)) == trimmed_words(text@, word_views(words@)),
{
    let chars = to_chars(text.as_str());
    let total: usize = utf8_len(text.as_str());
    let behind = from_chars(trimmed_start(chars.as_slice()));
    let front = from_chars(trimmed_end(chars.as_slice()));
    proof {
        trim_offsets(text@);
    }
    let start: usize = total - utf8_len(behind.as_str());
    let end: usize = utf8_len(front.as_str());
    if start >= end {
        let none: Vec<LyricWord> = Vec::new();
        assert(word_views(none@) =~= Seq::empty());
        let empty = String::new();
        assert(empty@ =~= Seq::empty());
        return (empty, none);
    }
    if start == 0 && end == total {
        return (text, words);
    }
    let mut kept: Vec<LyricWord> = Vec::new();
    let mut i: usize = 0;
    let ghost all = word_views(words@);
    assert(all.take(0) =~= Seq::empty());
    assert(word_views(kept@) =~= Seq::empty());
    while i < words.len()
        invariant
            i <= words@.len(),
            start < end,
            all == word_views(words@),
            word_views(kept@) == clipped(all.take(i as int), start as int, end as int),
        decreases words.len() - i,
    {
        let word = words[i].clone();
        let from = clamp_offset(word.range.start, start, end);
        let to = clamp_offset(word.range.end, start, end);
        assert(all.take(i + 1).drop_last() =~= all.take(i as int));
        assert(all.take(i + 1).last() == word@);
        let ghost before = kept@;
        if from < to {
            let clip = LyricWord {
                range: from - start..to - start,
                start: word.start,
                end: word.end,
                ruby: word.ruby,
            };
            kept.push(clip);
            assert(word_views(kept@) =~= word_views(before).push(clip@));
        }
        i += 1;
    }
    assert(all.take(all.len() as int) =~= all);
    (from_chars(trimmed(chars.as_slice())), kept)
}

fn clamp_offset(x: usize, low: usize, high: usize) -> (result: usize)
    requires
        low <= high,
    ensures
        result == clamped(x as int, low as int, high as int),
        low <= result <= high,
{
    if x < low {
        low
    } else if x > high {
        high
    } else {
        x
    }
}

/// The text and the words of the part of a line behind its time.
pub open spec fn words_of(s: Seq<char>) -> (Seq<char>, Seq<Word>) {
    trimmed_words(joined(pieces(s, 0)), timed_words(pieces(s, 0), 0))
}

/// A line has no words but parts of its text, one behind the other.
pub proof fn words_lie_in_text(s: Seq<char>)
    ensures
        words_follow(words_of(s).1),
        forall|i: int|
            0 <= i < words_of(s).1.len() ==> (#[trigger] words_of(s).1[i]).lies_in(words_of(s).0),
{
    let all = pieces(s, 0);
    let text = joined(all);
    let words = timed_words(all, 0);
    assert(byte_len(Seq::empty()) == 0);
    timed_words_lie_in_text(Seq::empty(), all);
    timed_words_follow(all, 0);
    assert(Seq::<char>::empty() + text =~= text);
    trim_offsets(text);
    let a = skip_class(text, CharClass::Whitespace, 0);
    let b = end_without(text, CharClass::Whitespace);
    if trim_offset(text) < trim_end_offset(text) {
        clipped_words_lie_in_part(text, words, a, b);
        clipped_words_follow(words, trim_offset(text), trim_end_offset(text));
    }
}

pub(crate) proof fn joined_of_one(piece: Piece, rest: Seq<Piece>, offset: nat)
    ensures
        joined(seq![piece] + rest) == piece.text + joined(rest),
        timed_words(seq![piece] + rest, offset) == (match piece.timing {
            Some((start, until)) if byte_len(piece.text) > 0 => seq![
                Word {
                    from: offset as int,
                    to: (offset + byte_len(piece.text)) as int,
                    start,
                    end: until,
                    ruby: None,
                },
            ],
            _ => Seq::<Word>::empty(),
        }) + timed_words(rest, offset + byte_len(piece.text)),
        joined(seq![piece]) == piece.text,
        piece.timing is None ==> timed_words(seq![piece], offset) == Seq::<Word>::empty(),
{
    assert((seq![piece] + rest).drop_first() =~= rest);
    assert(seq![piece].drop_first() =~= Seq::<Piece>::empty());
    assert(joined(Seq::<Piece>::empty()) == Seq::<char>::empty());
    assert(timed_words(Seq::<Piece>::empty(), offset + byte_len(piece.text)) == Seq::<
        Word,
    >::empty());
    assert(joined(seq![piece]) =~= piece.text);
    assert(Seq::<Word>::empty() + timed_words(rest, offset + byte_len(piece.text))
        =~= timed_words(rest, offset + byte_len(piece.text)));
}

pub fn parse_qrc_words(input: &[char]) -> (result: (String, Vec<LyricWord>))
    ensures
        (result.0@, word_views(result.1@)) == words_of(input@),
{
    let mut text = String::new();
    let mut words: Vec<LyricWord> = Vec::new();
    let mut cursor: usize = 0;
    let mut more: bool = true;
    let ghost all = pieces(input@, 0);
    proof {
        assert(text@ + joined(all) =~= joined(all));
        assert(word_views(words@) + timed_words(all, 0) =~= timed_words(all, 0));
    }
    while more
        invariant
            cursor <= input@.len(),
            all == pieces(input@, 0),
            text@ + joined(pieces(input@, cursor as int)) == joined(all),
            word_views(words@) + timed_words(pieces(input@, cursor as int), byte_len(text@))
                == timed_words(all, 0),
            !more ==> pieces(input@, cursor as int) == seq![
                Piece { text: input@.skip(cursor as int), timing: None },
            ],
        decreases input.len() - cursor, (if more { 1int } else { 0int }),
    {
        let ghost before = text@;
        let ghost before_words = words@;
        match index_of(input, '(', cursor) {
            None => {
                more = false;
            },
            Some(open) => match index_of(input, ')', open + 1) {
                None => {
                    more = false;
                },
                Some(close) => {
                    match parse_qrc_word_timestamp(slice_subrange(input, open + 1, close)) {
                        Some((start, length)) => {
                            let range_start: usize = utf8_len(text.as_str());
                            push_chars(&mut text, slice_subrange(input, cursor, open));
                            let range_end: usize = utf8_len(text.as_str());
                            proof {
                                let part = input@.subrange(cursor as int, open as int);
                                byte_len_of_concat(before, part);
                                let rest = pieces(input@, close + 1);
                                let piece = pieces(input@, cursor as int)[0];
                                assert(pieces(input@, cursor as int) == seq![piece] + rest);
                                joined_of_one(piece, rest, byte_len(before));
                                assert(text@ + joined(rest) =~= before + (piece.text + joined(
                                    rest,
                                )));
                            }
                            if range_start < range_end {
                                let word = LyricWord {
                                    range: range_start..range_end,
                                    start,
                                    end: start.saturating_add(length),
                                    ruby: None,
                                };
                                words.push(word);
                                proof {
                                    let rest = pieces(input@, close + 1);
                                    assert(word_views(words@) =~= word_views(before_words).push(
                                        word@,
                                    ));
                                    assert(word_views(words@) + timed_words(rest, byte_len(text@))
                                        =~= word_views(before_words) + timed_words(
                                        pieces(input@, cursor as int),
                                        byte_len(before),
                                    ));
                                }
                            } else {
                                assert(Seq::<Word>::empty() + timed_words(
                                    pieces(input@, close + 1),
                                    byte_len(text@),
                                ) =~= timed_words(pieces(input@, close + 1), byte_len(text@)));
                            }
                            cursor = close + 1;
                        },
                        None => {
                            push_chars(&mut text, slice_subrange(input, cursor, open + 1));
                            proof {
                                let part = input@.subrange(cursor as int, open + 1);
                                byte_len_of_concat(before, part);
                                let rest = pieces(input@, open + 1);
                                let piece = pieces(input@, cursor as int)[0];
                                assert(pieces(input@, cursor as int) == seq![piece] + rest);
                                joined_of_one(piece, rest, byte_len(before));
                                assert(text@ + joined(rest) =~= before + (piece.text + joined(
                                    rest,
                                )));
                                assert(Seq::<Word>::empty() + timed_words(rest, byte_len(text@))
                                    =~= timed_words(rest, byte_len(text@)));
                            }
                            cursor = open + 1;
                        },
                    }
                },
            },
        }
    }
    proof {
        joined_of_one(
            Piece { text: input@.skip(cursor as int), timing: None },
            Seq::empty(),
            byte_len(text@),
        );
        assert(word_views(words@) + Seq::<Word>::empty() =~= word_views(words@));
    }
    let tail = slice_subrange(input, cursor, input.len());
    assert(tail@ =~= input@.skip(cursor as int));
    push_chars(&mut text, tail);
    trim_lyric_text(text, words)
}

/// A row without the byte order marks at its front.
pub open spec fn without_marks(s: Seq<char>) -> Seq<char> {
    s.skip(skip_class(s, CharClass::ByteOrderMark, 0))
}

pub fn skip_marks(chars: &[char]) -> (rest: &[char])
    ensures
        rest@ == without_marks(chars@),
{
    let start = skip(chars, CharClass::ByteOrderMark, 0);
    let rest = slice_subrange(chars, start, chars.len());
    assert(rest@ =~= without_marks(chars@));
    rest
}

/// The line that a row gives: none without a time in front, and none without text.
pub open spec fn qrc_line(row: Seq<char>) -> Option<Line> {
    let s = without_marks(row);
    match line_timestamp(s) {
        None => None,
        Some((start, consumed)) => {
            let (text, words) = words_of(s.skip(consumed));
            if text.len() == 0 {
                None
            } else {
                Some(Line { start: millis(start), text, words, translation: None })
            }
        },
    }
}

/// The lines that the rows give, in their order.
pub open spec fn qrc_lines(rows: Seq<Seq<char>>) -> Seq<Line>
    decreases rows.len(),
{
    if rows.len() == 0 {
        Seq::empty()
    } else {
        let before = qrc_lines(rows.drop_last());
        match qrc_line(rows.last()) {
            Some(line) => before.push(line),
            None => before,
        }
    }
}

/// The lines of a text with word times, ordered by their start.
pub open spec fn qrc(content: Seq<char>) -> Seq<Line> {
    by_start(qrc_lines(text_lines(content)))
}

proof fn qrc_lines_wf(rows: Seq<Seq<char>>)
    ensures
        all_wf(qrc_lines(rows)),
    decreases rows.len(),
{
    if rows.len() > 0 {
        qrc_lines_wf(rows.drop_last());
        let s = without_marks(rows.last());
        if let Some((_, consumed)) = line_timestamp(s) {
            words_lie_in_text(s.skip(consumed));
        }
    }
}

pub proof fn qrc_wf(content: Seq<char>)
    ensures
        all_wf(qrc(content)),
{
    qrc_lines_wf(text_lines(content));
    ordered_lines(qrc_lines(text_lines(content)));
}

fn parse_qrc_row(row: &[char]) -> (line: Option<LyricLine>)
    ensures
        match (line, qrc_line(row@)) {
            (Some(line), Some(expected)) => line@ == expected,
            (None, None) => true,
            _ => false,
        },
{
    let s = skip_marks(row);
    match parse_qrc_line_timestamp(s) {
        None => None,
        Some((start, consumed)) => {
            let rest = slice_subrange(s, consumed, s.len());
            assert(rest@ =~= s@.skip(consumed as int));
            let (text, words) = parse_qrc_words(rest);
            if text.as_str().is_empty() {
                None
            } else {
                Some(LyricLine { start, text, words, translation: None })
            }
        },
    }
}

/// Reads lyrics with word times.
pub fn parse_qrc(content: &str) -> (result: Vec<LyricLine>)
    ensures
        line_views(result@) == qrc(content@),
{
    let chars = to_chars(content);
    let rows = lines(chars.as_slice());
    let ghost views = chars_views(rows@);
    let mut found: Vec<LyricLine> = Vec::new();
    let mut i: usize = 0;
    assert(views.take(0) =~= Seq::empty());
    assert(line_views(found@) =~= Seq::empty());
    while i < rows.len()
        invariant
            i <= rows@.len(),
            views == chars_views(rows@),
            line_views(found@) == qrc_lines(views.take(i as int)),
        decreases rows.len() - i,
    {
        let ghost before = found@;
        assert(views.take(i + 1).drop_last() =~= views.take(i as int));
        assert(views.take(i + 1).last() == rows@[i as int]@);
        if let Some(line) = parse_qrc_row(rows[i].as_slice()) {
            found.push(line);
            assert(line_views(found@) =~= line_views(before).push(line@));
        }
        i += 1;
    }
    assert(views.take(views.len() as int) =~= views);
    sort_by_start(found)
}

/// A text without whitespace around it keeps its words, and a blank one has none.
pub proof fn trimming_fits_the_words(text: Seq<char>, words: Seq<Word>)
    ensures
        trimmed_words(text, words).0 == trim(text),
        text.len() > 0 && trim(text) == text ==> trimmed_words(text, words).1 == words,
        trim(text).len() == 0 ==> trimmed_words(text, words).1.len() == 0,
{
    let ws = CharClass::Whitespace;
    trim_offsets(text);
    skip_class_stops(text, ws, 0);
    end_without_stops(text, ws);
    let a = skip_class(text, ws, 0);
    let b = end_without(text, ws);
    offset_of_grows(text, 0, text.len() as int);
    assert(text.take(0) =~= Seq::empty());
    assert(text.take(text.len() as int) =~= text);
    if trim_offset(text) >= trim_end_offset(text) {
        assert(trim(text) =~= Seq::empty());
    } else if trim(text) == text {
        assert(text.len() == b - a);
    }
}

proof fn clipping_keeps_what_lies_inside(words: Seq<Word>, start: int, end: int, k: int)
    requires
        start < end,
        0 <= k < words.len(),
        words[k].from <= words[k].to,
    ensures
        ({
            let word = words[k];
            let from = if word.from < start {
                start
            } else {
                word.from
            };
            let to = if word.to > end {
                end
            } else {
                word.to
            };
            from < to ==> clipped(words, start, end).contains(
                Word { from: from - start, to: to - start, ..word },
            )
        }),
    decreases words.len(),
{
    let before = clipped(words.drop_last(), start, end);
    let all = clipped(words, start, end);
    if k < words.len() - 1 {
        clipping_keeps_what_lies_inside(words.drop_last(), start, end, k);
        assert forall|w: Word| before.contains(w) implies all.contains(w) by {
            let i = choose|i: int| 0 <= i < before.len() && before[i] == w;
            assert(all[i] == w);
        }
    } else {
        assert(all.len() > 0 ==> all[all.len() - 1] == all.last());
    }
}

proof fn clipping_makes_no_word(words: Seq<Word>, start: int, end: int, i: int)
    requires
        start < end,
        0 <= i < clipped(words, start, end).len(),
    ensures
        exists|k: int|
            {
                let kept = clipped(words, start, end)[i];
                let word = #[trigger] words[k];
                0 <= k < words.len() && kept.start == word.start && kept.end == word.end
                    && kept.ruby == word.ruby && word.from <= kept.from + start < word.to
                    && word.from < kept.to + start <= word.to
            },
    decreases words.len(),
{
    let rest = words.drop_last();
    let before = clipped(rest, start, end);
    let all = clipped(words, start, end);
    if i < before.len() {
        clipping_makes_no_word(rest, start, end, i);
        let k = choose|k: int|
            {
                let kept = before[i];
                let word = #[trigger] rest[k];
                0 <= k < rest.len() && kept.start == word.start && kept.end == word.end
                    && kept.ruby == word.ruby && word.from <= kept.from + start < word.to
                    && word.from < kept.to + start <= word.to
            };
        assert(words[k] == rest[k]);
        assert(all[i] == before[i]);
    } else {
        let k = words.len() - 1;
        assert(all[i] == all.last());
        assert(words[k] == words.last());
    }
}

/// Of a text with whitespace around it each word that lies in what is left, or partly,
/// stays with its times, counted from where that begins, and nothing else becomes a word.
pub proof fn trimming_keeps_the_words_inside(
    front: Seq<char>,
    core: Seq<char>,
    behind: Seq<char>,
    words: Seq<Word>,
)
    requires
        forall|i: int| 0 <= i < front.len() ==> whitespace(#[trigger] front[i]),
        forall|i: int| 0 <= i < behind.len() ==> whitespace(#[trigger] behind[i]),
        core.len() > 0,
        !whitespace(core[0]) && !whitespace(core.last()),
        forall|k: int|
            0 <= k < words.len() ==> 0 <= (#[trigger] words[k]).from < words[k].to <= byte_len(
                front + core + behind,
            ),
    ensures
        ({
            let (text, kept) = trimmed_words(front + core + behind, words);
            let start = byte_len(front) as int;
            let end = byte_len(front) + byte_len(core);
            &&& text == core
            &&& forall|k: int|
                0 <= k < words.len() && words[k].to > start && words[k].from < end
                    ==> kept.contains(
                    Word {
                        from: if words[k].from < start {
                            0
                        } else {
                            words[k].from - start
                        },
                        to: if words[k].to > end {
                            end - start
                        } else {
                            words[k].to - start
                        },
                        ..#[trigger] words[k]
                    },
                )
            &&& forall|i: int|
                0 <= i < kept.len() ==> exists|k: int|
                    0 <= k < words.len() && (#[trigger] kept[i]).start == (
                    #[trigger] words[k]).start && kept[i].end == words[k].end && kept[i].ruby
                        == words[k].ruby && words[k].from <= kept[i].from + start < words[k].to
                        && words[k].from < kept[i].to + start <= words[k].to
        }),
{
    let ws = CharClass::Whitespace;
    let text = front + core + behind;
    let (_, kept) = trimmed_words(text, words);
    let a = front.len() as int;
    let b = a + core.len();
    trimming_takes_whitespace_alone(front, core, behind);
    trimming_fits_the_words(text, words);
    trim_offsets(text);
    skip_class_stops(text, ws, 0);
    end_without_stops(text, ws);
    assert(skip_class(text, ws, 0) == a) by {
        let at = skip_class(text, ws, 0);
        assert(text[a] == core[0]);
        if at < a {
            assert(text[at] == front[at]);
        }
    }
    assert(end_without(text, ws) == b) by {
        let at = end_without(text, ws);
        assert(text[b - 1] == core.last());
        if at > b {
            assert(text[at - 1] == behind[at - 1 - b]);
        }
    }
    assert(text.take(a) =~= front);
    assert(text.take(b) =~= front + core);
    byte_len_of_concat(front, core);
    byte_len_of_concat(front + core, behind);
    byte_len_bounds(core);
    let start = trim_offset(text);
    let end = trim_end_offset(text);
    assert(start == byte_len(front) && end == byte_len(front) + byte_len(core));
    let whole = start == 0 && end == byte_len(text);
    assert forall|k: int|
        0 <= k < words.len() && words[k].to > start && words[k].from < end implies kept.contains(
        Word {
            from: if words[k].from < start {
                0
            } else {
                words[k].from - start
            },
            to: if words[k].to > end {
                end - start
            } else {
                words[k].to - start
            },
            ..#[trigger] words[k]
        },
    ) by {
        if whole {
            assert(kept[k] == words[k]);
        } else {
            clipping_keeps_what_lies_inside(words, start, end, k);
        }
    }
    assert forall|i: int| 0 <= i < kept.len() implies exists|k: int|
        0 <= k < words.len() && (#[trigger] kept[i]).start == (#[trigger] words[k]).start
            && kept[i].end == words[k].end && kept[i].ruby == words[k].ruby && words[k].from
            <= kept[i].from + start < words[k].to && words[k].from < kept[i].to + start
            <= words[k].to by {
        if whole {
            assert(kept[i] == words[i]);
        } else {
            clipping_makes_no_word(words, start, end, i);
        }
    }
}

} // verus!
