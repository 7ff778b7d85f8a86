//! What a row with a time behind every stretch says: laws on rows that are written out.

use crate::lyrics::line::{in_order, ordered_lines, Word};
use crate::lyrics::lrc::lrc_row;
use crate::lyrics::qrc::{
    decimal, joined, joined_of_one, line_timestamp, pieces, qrc, qrc_line, qrc_lines, timed_words,
    trimmed_words, trimming_fits_the_words, without_marks, word_timestamp, words_of, Piece,
};
use crate::number::{digits_value, numerals_alone_are_read, only_decimals};
use crate::offset::{byte_len_bounds, byte_len_of_concat};
use crate::scan::{
    fed_lines, find_char, find_char_is_first, lacks, skip_class, skip_class_stops, split_once,
    splitting_undoes_joining, trim, written_lines_read_back, CharClass,
};
use crate::text::byte_len;
use vstd::prelude::*;

verus! {

/// A stretch of a row: a text, and behind it in brackets the digits of its start and of
/// its length, with what else stands in the brackets.
pub struct Stretch {
    pub text: Seq<char>,
    pub start: Seq<char>,
    pub length: Seq<char>,
    pub more: Seq<char>,
}

/// At least one digit, and a number that 64 bits hold.
pub open spec fn short_digits(s: Seq<char>) -> bool {
    s.len() > 0 && only_decimals(s) && digits_value(s, 10) <= u64::MAX
}

/// A text that is read as a number.
pub open spec fn is_number(s: Seq<char>) -> bool {
    decimal(s) is Some
}

/// Two numbers with a comma between them, at the end or in front of a further comma.
#[verifier::opaque]
pub open spec fn names_a_time(s: Seq<char>) -> bool {
    exists|comma: int, end: int|
        0 <= comma < end <= s.len() && s[comma] == ',' && (end == s.len() || s[end] == ',')
            && is_number(#[trigger] s.take(comma)) && is_number(
            #[trigger] s.subrange(comma + 1, end),
        )
}

/// Two brackets that belong together hold a time.
pub open spec fn time_between(s: Seq<char>, open: int, close: int) -> bool {
    s[open] == '(' && s[close] == ')' && lacks(s.subrange(open + 1, close), ')') && names_a_time(
        s.subrange(open + 1, close),
    )
}

/// None of the opening brackets in front of `until` opens brackets that hold a time.
#[verifier::opaque]
pub open spec fn opens_no_time(s: Seq<char>, until: int) -> bool {
    forall|open: int, close: int|
        0 <= open < until && open < close < s.len() ==> !#[trigger] time_between(s, open, close)
}

impl Stretch {
    pub open spec fn mark(self) -> Seq<char> {
        seq!['('] + self.inside().push(')')
    }

    pub open spec fn inside(self) -> Seq<char> {
        self.start.push(',') + (self.length + self.more)
    }

    /// The brackets hold two numbers, and those in the text hold no time.
    pub open spec fn wf(self) -> bool {
        &&& short_digits(self.start) && short_digits(self.length)
        &&& self.more.len() > 0 ==> self.more[0] == ','
        &&& lacks(self.more, ')')
        &&& opens_no_time(self.text + self.mark(), self.text.len() as int)
    }

    /// The part of the text that the time is said of: what stands behind its last
    /// opening bracket.
    pub open spec fn sung_part(self) -> Seq<char> {
        behind_brackets(self.text)
    }

    /// The word whose text ends `end` bytes into the line.
    pub open spec fn word(self, end: nat) -> Word {
        let start = 1_000_000 * digits_value(self.start, 10);
        let length = 1_000_000 * digits_value(self.length, 10);
        let longest = 18_446_744_073_709_551_615_999_999_999;
        Word {
            from: end - byte_len(self.sung_part()),
            to: end as int,
            start,
            end: if start + length <= longest {
                start + length
            } else {
                longest
            },
            ruby: None,
        }
    }

    /// The words of the stretch, where its text begins `offset` bytes into the line.
    pub open spec fn words(self, offset: nat) -> Seq<Word> {
        if self.sung_part().len() > 0 {
            seq![self.word(offset + byte_len(self.text))]
        } else {
            Seq::empty()
        }
    }
}

pub open spec fn behind_brackets(s: Seq<char>) -> Seq<char>
    decreases s.len(),
{
    if s.len() == 0 || s.last() == '(' {
        Seq::empty()
    } else {
        behind_brackets(s.drop_last()).push(s.last())
    }
}

/// The row: each text with its mark behind it, and a last text without one.
pub open spec fn written(stretches: Seq<Stretch>, tail: Seq<char>) -> Seq<char>
    decreases stretches.len(),
{
    if stretches.len() == 0 {
        tail
    } else {
        stretches[0].text + stretches[0].mark() + written(stretches.drop_first(), tail)
    }
}

/// The texts alone.
pub open spec fn spoken(stretches: Seq<Stretch>, tail: Seq<char>) -> Seq<char>
    decreases stretches.len(),
{
    if stretches.len() == 0 {
        tail
    } else {
        stretches[0].text + spoken(stretches.drop_first(), tail)
    }
}

/// A word for each mark with something to say it of, where the first text begins `offset`
/// bytes into the line.
pub open spec fn sung(stretches: Seq<Stretch>, offset: nat) -> Seq<Word>
    decreases stretches.len(),
{
    if stretches.len() == 0 {
        Seq::empty()
    } else {
        stretches[0].words(offset) + sung(
            stretches.drop_first(),
            offset + byte_len(stretches[0].text),
        )
    }
}

proof fn a_time_names_numbers(s: Seq<char>)
    requires
        word_timestamp(s) is Some,
    ensures
        names_a_time(s),
{
    reveal(names_a_time);
    find_char_is_first(s, ',', 0);
    let comma = find_char(s, ',', 0).unwrap();
    let rest = s.skip(comma + 1);
    find_char_is_first(rest, ',', 0);
    let end = match find_char(rest, ',', 0) {
        Some(k) => comma + 1 + k,
        None => s.len() as int,
    };
    assert(s.subrange(comma + 1, end) =~= match split_once(rest, ',') {
        Some((first, _)) => first,
        None => rest,
    });
    if end < s.len() {
        assert(s[end] == rest[end - comma - 1]);
    }
    assert(is_number(s.take(comma)) && is_number(s.subrange(comma + 1, end)));
}

proof fn two_numbers_are_a_time(s: Seq<char>, comma: int, end: int)
    requires
        0 <= comma < end <= s.len(),
        s[comma] == ',',
        end == s.len() || s[end] == ',',
        is_number(s.take(comma)),
        is_number(s.subrange(comma + 1, end)),
    ensures
        word_timestamp(s) is Some,
{
    numbers_lack_commas(s.take(comma));
    numbers_lack_commas(s.subrange(comma + 1, end));
    assert(s.take(comma).push(',') + s.skip(comma + 1) =~= s);
    splitting_undoes_joining(s.take(comma), ',', s.skip(comma + 1));
    if end < s.len() {
        assert(s.subrange(comma + 1, end).push(',') + s.skip(end + 1) =~= s.skip(comma + 1));
        splitting_undoes_joining(s.subrange(comma + 1, end), ',', s.skip(end + 1));
    } else {
        assert(s.subrange(comma + 1, end) =~= s.skip(comma + 1));
        splitting_undoes_joining(s.skip(comma + 1), ',', Seq::empty());
    }
}

/// A time in brackets is exactly two numbers with a comma between them, whatever else
/// follows behind a further comma.
pub proof fn a_time_is_two_numbers(s: Seq<char>)
    ensures
        word_timestamp(s) is Some <==> names_a_time(s),
{
    reveal(names_a_time);
    if word_timestamp(s) is Some {
        a_time_names_numbers(s);
    }
    if names_a_time(s) {
        let (comma, end) = choose|comma: int, end: int|
            0 <= comma < end <= s.len() && s[comma] == ',' && (end == s.len() || s[end] == ',')
                && is_number(#[trigger] s.take(comma)) && is_number(
                #[trigger] s.subrange(comma + 1, end),
            );
        two_numbers_are_a_time(s, comma, end);
    }
}

proof fn numbers_lack_commas(s: Seq<char>)
    requires
        is_number(s),
    ensures
        lacks(s, ','),
{
    numerals_alone_are_read(s, u64::MAX as nat);
    assert forall|i: int| 0 <= i < s.len() implies #[trigger] s[i] != ',' by {
        if only_decimals(s) {
            assert('0' <= s[i] <= '9');
        } else if i > 0 {
            assert(s[i] == s.skip(1)[i - 1]);
        }
    }
}

proof fn digits_lack(s: Seq<char>, c: char)
    requires
        only_decimals(s),
        !('0' <= c <= '9'),
    ensures
        lacks(s, c),
{
    assert forall|i: int| 0 <= i < s.len() implies #[trigger] s[i] != c by {
        assert('0' <= s[i] <= '9');
    }
}

proof fn mark_is_read(stretch: Stretch)
    requires
        stretch.wf(),
    ensures
        word_timestamp(stretch.inside()) == Some(
            (digits_value(stretch.start, 10), digits_value(stretch.length, 10)),
        ),
        lacks(stretch.inside(), ')'),
{
    let rest = stretch.length + stretch.more;
    digits_lack(stretch.start, ',');
    digits_lack(stretch.length, ',');
    digits_lack(stretch.start, ')');
    digits_lack(stretch.length, ')');
    numerals_alone_are_read(stretch.start, u64::MAX as nat);
    numerals_alone_are_read(stretch.length, u64::MAX as nat);
    splitting_undoes_joining(stretch.start, ',', rest);
    if stretch.more.len() > 0 {
        assert(rest =~= stretch.length.push(',') + stretch.more.skip(1));
        splitting_undoes_joining(stretch.length, ',', stretch.more.skip(1));
    } else {
        assert(rest =~= stretch.length);
        splitting_undoes_joining(stretch.length, ',', Seq::empty());
    }
    let s = stretch.inside();
    assert forall|i: int| 0 <= i < s.len() implies #[trigger] s[i] != ')' by {
        let first = stretch.start.len() as int;
        let second = first + 1 + stretch.length.len();
        if i < first {
            assert(s[i] == stretch.start[i]);
        } else if first < i < second {
            assert(s[i] == stretch.length[i - first - 1]);
        } else if i >= second {
            assert(s[i] == stretch.more[i - second]);
        }
    }
}

proof fn behind_one_bracket(front: Seq<char>, s: Seq<char>)
    ensures
        behind_brackets(front.push('(') + s) == behind_brackets(s),
    decreases s.len(),
{
    let all = front.push('(') + s;
    if s.len() == 0 {
        assert(all.last() == '(');
    } else {
        assert(all.last() == s.last());
        assert(all.drop_last() =~= front.push('(') + s.drop_last());
        behind_one_bracket(front, s.drop_last());
    }
}

proof fn without_brackets(s: Seq<char>)
    requires
        lacks(s, '('),
    ensures
        behind_brackets(s) == s,
    decreases s.len(),
{
    if s.len() > 0 {
        assert(s[s.len() - 1] != '(');
        let rest = s.drop_last();
        assert forall|i: int| 0 <= i < rest.len() implies #[trigger] rest[i] != '(' by {
            assert(rest[i] == s[i]);
        }
        without_brackets(rest);
        assert(rest.push(s.last()) =~= s);
    } else {
        assert(behind_brackets(s) =~= s);
    }
}

/// What stands behind the last bracket ends the text.
proof fn sung_part_is_shorter(s: Seq<char>)
    ensures
        behind_brackets(s).len() <= s.len(),
    decreases s.len(),
{
    if s.len() > 0 {
        sung_part_is_shorter(s.drop_last());
    }
}

proof fn shifted_opens_no_time(front: Seq<char>, s: Seq<char>, until: int)
    requires
        opens_no_time(front + s, front.len() + until),
    ensures
        opens_no_time(s, until),
{
    reveal(opens_no_time);
    let all = front + s;
    let by = front.len() as int;
    assert forall|open: int, close: int|
        0 <= open < until && open < close < s.len() implies !#[trigger] time_between(
        s,
        open,
        close,
    ) by {
        assert(all.subrange(by + open + 1, by + close) =~= s.subrange(open + 1, close));
        assert(all[by + open] == s[open] && all[by + close] == s[close]);
        assert(!time_between(all, by + open, by + close));
    }
}

/// A bracket of a text that opens no time ends a stretch without one.
proof fn bracket_is_passed(before: Seq<char>, s: Seq<char>, until: int)
    requires
        opens_no_time(s, until),
        0 <= until <= s.len(),
        !lacks(s.take(until), '('),
    ensures
        ({
            let all = before + s;
            let open = find_char(s, '(', 0).unwrap();
            let from = before.len() as int;
            &&& find_char(s, '(', 0) is Some && 0 <= open < until && s[open] == '('
            &&& lacks(s.take(open), '(')
            &&& find_char(s, ')', open + 1) is Some ==> pieces(all, from) == seq![
                Piece { text: s.take(open + 1), timing: None },
            ] + pieces(all, from + open + 1)
            &&& find_char(s, ')', open + 1) is None ==> pieces(all, from) == seq![
                Piece { text: s, timing: None },
            ]
        }),
{
    reveal(opens_no_time);
    let all = before + s;
    let from = before.len() as int;
    find_char_is_first(s, '(', 0);
    find_char_is_first(all, '(', from);
    let some = choose|i: int| 0 <= i < until && s.take(until)[i] == '(';
    assert(s[some] == '(');
    let open = find_char(s, '(', 0).unwrap();
    assert(open <= some);
    assert(all[from + open] == '(');
    let found = find_char(all, '(', from).unwrap();
    assert(found <= from + open);
    assert(s[found - from] == all[found]);
    assert(found == from + open);
    assert forall|i: int| 0 <= i < open implies #[trigger] s.take(open)[i] != '(' by {
        assert(s[i] != '(');
    }
    find_char_is_first(s, ')', open + 1);
    find_char_is_first(all, ')', found + 1);
    if let Some(close) = find_char(s, ')', open + 1) {
        assert(all[from + close] == ')');
        let end = find_char(all, ')', found + 1).unwrap();
        assert(end <= from + close);
        assert(s[end - from] == all[end]);
        assert(end == from + close);
        let inside = s.subrange(open + 1, close);
        assert(all.subrange(found + 1, end) =~= inside);
        assert forall|i: int| 0 <= i < inside.len() implies #[trigger] inside[i] != ')' by {
            assert(s[open + 1 + i] != ')');
        }
        assert(!time_between(s, open, close));
        assert(!names_a_time(inside));
        a_time_is_two_numbers(inside);
        assert(all.subrange(from, found + 1) =~= s.take(open + 1));
    } else {
        if let Some(end) = find_char(all, ')', found + 1) {
            assert(s[end - from] == all[end]);
        }
        assert(all.skip(from) =~= s);
    }
}

/// What stands behind a mark has no say in whether a bracket in front of it opens a time.
proof fn the_mark_ends_it(text: Seq<char>, mark: Seq<char>, rest: Seq<char>)
    requires
        opens_no_time(text + mark, text.len() as int),
        mark.len() > 0,
        mark.last() == ')',
    ensures
        opens_no_time(text + mark + rest, text.len() as int),
{
    reveal(opens_no_time);
    let near = text + mark;
    let ahead = near + rest;
    let last = text.len() + mark.len() - 1;
    assert(ahead[last] == ')');
    assert forall|open: int, close: int|
        0 <= open < text.len() && open < close < ahead.len() implies !#[trigger] time_between(
        ahead,
        open,
        close,
    ) by {
        if close > last {
            assert(ahead.subrange(open + 1, close)[last - open - 1] == ')');
        } else {
            assert(near.subrange(open + 1, close) =~= ahead.subrange(open + 1, close));
            assert(near[open] == ahead[open] && near[close] == ahead[close]);
            assert(!time_between(near, open, close));
        }
    }
}

proof fn plain_stretch_is_read(before: Seq<char>, stretch: Stretch, rest: Seq<char>, offset: nat)
    requires
        stretch.wf(),
        lacks(stretch.text, '('),
    ensures
        ({
            let s = before + (stretch.text + stretch.mark() + rest);
            let from = before.len() as int;
            let next = from + stretch.text.len() + stretch.mark().len();
            reads_as(pieces(s, from), pieces(s, next), stretch.text, stretch.words(offset), offset)
        }),
{
    let text = stretch.text;
    let mark = stretch.mark();
    let s = before + (text + mark + rest);
    let from = before.len() as int;
    let next = from + text.len() + mark.len();
    mark_is_read(stretch);
    assert(mark.last() == ')');
    without_brackets(text);
    find_char_is_first(s, '(', from);
    let open = from + text.len();
    assert(s[open] == mark[0]);
    let found = find_char(s, '(', from).unwrap();
    if found < open {
        assert(s[found] == text[found - from]);
    }
    assert(found == open);
    find_char_is_first(s, ')', open + 1);
    assert(s[next - 1] == ')');
    let close = find_char(s, ')', open + 1).unwrap();
    if close < next - 1 {
        assert(s[close] == stretch.inside()[close - open - 1]);
    }
    assert(close == next - 1);
    assert(s.subrange(open + 1, close) =~= stretch.inside());
    assert(s.subrange(from, open) =~= text);
    let piece = pieces(s, from)[0];
    assert(pieces(s, from) == seq![piece] + pieces(s, next));
    joined_of_one(piece, pieces(s, next), offset);
    byte_len_bounds(text);
    reveal(reads_as);
}

/// The stretches `all` say `text` with `words`, and then what `rest` says.
#[verifier::opaque]
spec fn reads_as(
    all: Seq<Piece>,
    rest: Seq<Piece>,
    text: Seq<char>,
    words: Seq<Word>,
    offset: nat,
) -> bool {
    &&& joined(all) == text + joined(rest)
    &&& timed_words(all, offset) == words + timed_words(rest, offset + byte_len(text))
}

proof fn passing_reads_on(
    front: Seq<char>,
    others: Seq<Piece>,
    rest: Seq<Piece>,
    text: Seq<char>,
    words: Seq<Word>,
    offset: nat,
)
    requires
        reads_as(others, rest, text, words, offset + byte_len(front)),
    ensures
        reads_as(
            seq![Piece { text: front, timing: None }] + others,
            rest,
            front + text,
            words,
            offset,
        ),
{
    reveal(reads_as);
    let middle = byte_len(front);
    byte_len_of_concat(front, text);
    joined_of_one(Piece { text: front, timing: None }, others, offset);
    assert(Seq::<Word>::empty() + timed_words(others, offset + middle) =~= timed_words(
        others,
        offset + middle,
    ));
    assert(front + (text + joined(rest)) =~= front + text + joined(rest));
}

/// What is left of a stretch behind a bracket in its text.
proof fn behind_the_bracket(stretch: Stretch, open: int, offset: nat) -> (later: Stretch)
    requires
        stretch.wf(),
        0 <= open < stretch.text.len(),
        stretch.text[open] == '(',
    ensures
        later.wf(),
        later.mark() == stretch.mark(),
        later.text == stretch.text.skip(open + 1),
        stretch.text.take(open + 1) + later.text == stretch.text,
        later.words(offset + byte_len(stretch.text.take(open + 1))) == stretch.words(offset),
{
    let text = stretch.text;
    let front = text.take(open + 1);
    let later = Stretch { text: text.skip(open + 1), ..stretch };
    assert(front =~= text.take(open).push('('));
    assert(front + later.text =~= text);
    behind_one_bracket(text.take(open), later.text);
    assert(front + (later.text + stretch.mark()) =~= text + stretch.mark());
    shifted_opens_no_time(front, later.text + stretch.mark(), later.text.len() as int);
    byte_len_of_concat(front, later.text);
    later
}

#[verifier::rlimit(40)]
proof fn stretch_is_read(before: Seq<char>, stretch: Stretch, rest: Seq<char>, offset: nat)
    requires
        stretch.wf(),
    ensures
        ({
            let s = before + (stretch.text + stretch.mark() + rest);
            let from = before.len() as int;
            let next = from + stretch.text.len() + stretch.mark().len();
            reads_as(pieces(s, from), pieces(s, next), stretch.text, stretch.words(offset), offset)
        }),
    decreases stretch.text.len(),
{
    let text = stretch.text;
    let mark = stretch.mark();
    if lacks(text, '(') {
        plain_stretch_is_read(before, stretch, rest, offset);
    } else {
        let ahead = text + mark + rest;
        let s = before + ahead;
        let from = before.len() as int;
        let next = from + text.len() + mark.len();
        assert(mark.last() == ')');
        assert(ahead[text.len() + mark.len() - 1] == ')');
        assert(text =~= ahead.take(text.len() as int));
        the_mark_ends_it(text, mark, rest);
        bracket_is_passed(before, ahead, text.len() as int);
        let open = find_char(ahead, '(', 0).unwrap();
        find_char_is_first(ahead, ')', open + 1);
        assert(text[open] == ahead[open]);
        let front = ahead.take(open + 1);
        assert(front =~= text.take(open + 1));
        let later = behind_the_bracket(stretch, open, offset);
        let middle = byte_len(front);
        assert(before + front + (later.text + mark + rest) =~= s) by {
            assert(front + (later.text + mark + rest) =~= ahead);
        }
        stretch_is_read(before + front, later, rest, offset + middle);
        passing_reads_on(
            front,
            pieces(s, from + open + 1),
            pieces(s, next),
            later.text,
            stretch.words(offset),
            offset,
        );
    }
}

proof fn tail_is_read(before: Seq<char>, tail: Seq<char>, offset: nat)
    requires
        opens_no_time(tail, tail.len() as int),
    ensures
        joined(pieces(before + tail, before.len() as int)) == tail,
        timed_words(pieces(before + tail, before.len() as int), offset) == Seq::<Word>::empty(),
    decreases tail.len(),
{
    let s = before + tail;
    let from = before.len() as int;
    let whole = Piece { text: tail, timing: None };
    joined_of_one(whole, Seq::empty(), offset);
    assert(tail.take(tail.len() as int) =~= tail);
    if lacks(tail, '(') {
        find_char_is_first(s, '(', from);
        if let Some(found) = find_char(s, '(', from) {
            assert(s[found] == tail[found - from]);
        }
        assert(s.skip(from) =~= tail);
        assert(pieces(s, from) == seq![whole]);
    } else {
        bracket_is_passed(before, tail, tail.len() as int);
        let open = find_char(tail, '(', 0).unwrap();
        if find_char(tail, ')', open + 1) is Some {
            let front = tail.take(open + 1);
            let later = tail.skip(open + 1);
            assert(front + later =~= tail);
            shifted_opens_no_time(front, later, later.len() as int);
            tail_is_read(before + front, later, offset + byte_len(front));
            assert(before + front + later =~= s);
            let piece = Piece { text: front, timing: None };
            joined_of_one(piece, pieces(s, from + open + 1), offset);
            assert(Seq::<Word>::empty() + Seq::<Word>::empty() =~= Seq::<Word>::empty());
        }
    }
}

proof fn stretches_are_read(
    before: Seq<char>,
    stretches: Seq<Stretch>,
    tail: Seq<char>,
    offset: nat,
)
    requires
        forall|i: int| 0 <= i < stretches.len() ==> (#[trigger] stretches[i]).wf(),
        opens_no_time(tail, tail.len() as int),
    ensures
        ({
            let s = before + written(stretches, tail);
            let from = before.len() as int;
            &&& joined(pieces(s, from)) == spoken(stretches, tail)
            &&& timed_words(pieces(s, from), offset) == sung(stretches, offset)
        }),
    decreases stretches.len(),
{
    if stretches.len() == 0 {
        tail_is_read(before, tail, offset);
    } else {
        let first = stretches[0];
        let others = stretches.drop_first();
        let rest = written(others, tail);
        let s = before + written(stretches, tail);
        stretch_is_read(before, first, rest, offset);
        assert forall|i: int| 0 <= i < others.len() implies (#[trigger] others[i]).wf() by {
            assert(others[i] == stretches[i + 1]);
        }
        let next = before + first.text + first.mark();
        stretches_are_read(next, others, tail, offset + byte_len(first.text));
        assert(next + rest =~= s);
        reveal(reads_as);
    }
}

/// No time mark stays in the text, and none is lost: a row of texts with a mark behind
/// each, in which brackets that hold no time may stand anywhere, says the texts one after
/// the other, and every mark with something in front of it gives a word that ends where
/// its text ends and lasts from its start for its length. Whitespace around the line is
/// taken away.
pub proof fn every_mark_gives_its_word(stretches: Seq<Stretch>, tail: Seq<char>)
    requires
        forall|i: int| 0 <= i < stretches.len() ==> (#[trigger] stretches[i]).wf(),
        opens_no_time(tail, tail.len() as int),
    ensures
        words_of(written(stretches, tail)) == trimmed_words(
            spoken(stretches, tail),
            sung(stretches, 0),
        ),
        words_of(written(stretches, tail)).0 == trim(spoken(stretches, tail)),
        spoken(stretches, tail).len() > 0 && trim(spoken(stretches, tail)) == spoken(
            stretches,
            tail,
        ) ==> words_of(written(stretches, tail)).1 == sung(stretches, 0),
{
    let s = written(stretches, tail);
    stretches_are_read(Seq::empty(), stretches, tail, 0);
    assert(Seq::<char>::empty() + s =~= s);
    trimming_fits_the_words(spoken(stretches, tail), sung(stretches, 0));
}

/// A row begins with its time in square brackets, `start` and `length` in milliseconds:
/// the line starts there and says what the rest says, unless that is nothing.
pub proof fn a_row_begins_with_its_time(start: Seq<char>, length: Seq<char>, rest: Seq<char>)
    requires
        short_digits(start),
        short_digits(length),
    ensures
        ({
            let row = seq!['['] + (start.push(',') + length).push(']') + rest;
            let (text, words) = words_of(rest);
            match qrc_line(row) {
                None => text.len() == 0,
                Some(line) => text.len() > 0 && line.start == 1_000_000 * digits_value(start, 10)
                    && line.text == text && line.words == words && line.translation is None,
            }
        }),
{
    let inside = start.push(',') + length;
    let row = seq!['['] + inside.push(']') + rest;
    digits_lack(start, ',');
    digits_lack(start, ']');
    digits_lack(length, ']');
    assert forall|i: int| 0 <= i < inside.len() implies #[trigger] inside[i] != ']' by {
        if i < start.len() {
            assert(inside[i] == start[i]);
        } else if i > start.len() {
            assert(inside[i] == length[i - start.len() - 1]);
        }
    }
    numerals_alone_are_read(start, u64::MAX as nat);
    numerals_alone_are_read(length, u64::MAX as nat);
    splitting_undoes_joining(start, ',', length);
    find_char_is_first(row, ']', 1);
    let end = inside.len() as int + 1;
    assert(row[end] == ']');
    let found = find_char(row, ']', 1).unwrap();
    if found < end {
        assert(row[found] == inside[found - 1]);
    }
    assert(row.subrange(1, end) =~= inside);
    assert(row[0] == '[');
    assert(without_marks(row) =~= row);
    assert(row.skip(end + 1) =~= rest);
    assert(line_timestamp(row) == Some((digits_value(start, 10), end + 1)));
}

/// A row that does not begin with a bracket gives no line.
pub proof fn rows_without_a_bracket_are_silent(row: Seq<char>)
    requires
        row.len() > 0 ==> row[0] != '[' && row[0] != '\u{feff}',
    ensures
        qrc_line(row) is None,
{
    assert(without_marks(row) =~= row);
}

/// Every row with a line gives it, and the lines stand in the order of their starts.
pub proof fn timed_rows_are_read_one_by_one(rows: Seq<Seq<char>>, row: Seq<char>)
    requires
        forall|i: int|
            0 <= i < rows.len() ==> lacks(#[trigger] rows[i], '\n') && (rows[i].len() > 0
                ==> rows[i].last() != '\r'),
        lacks(row, '\n'),
        row.len() > 0 ==> row.last() != '\r',
    ensures
        qrc(fed_lines(rows.push(row))).to_multiset() == (match qrc_line(row) {
            Some(line) => qrc(fed_lines(rows)).to_multiset().insert(line),
            None => qrc(fed_lines(rows)).to_multiset(),
        }),
        in_order(qrc(fed_lines(rows.push(row)))),
{
    broadcast use vstd::seq_lib::group_to_multiset_ensures;

    let all = rows.push(row);
    assert forall|i: int| 0 <= i < all.len() implies lacks(#[trigger] all[i], '\n') && (
    all[i].len() > 0 ==> all[i].last() != '\r') by {
        if i < rows.len() {
            assert(all[i] == rows[i]);
        }
    }
    written_lines_read_back(all);
    written_lines_read_back(rows);
    assert(all.drop_last() =~= rows);
    ordered_lines(qrc_lines(all));
    ordered_lines(qrc_lines(rows));
}

/// Byte order marks in front of a row do not matter.
pub proof fn byte_order_marks_do_not_matter(row: Seq<char>)
    ensures
        qrc_line(seq!['\u{feff}'] + row) == qrc_line(row),
        lrc_row(seq!['\u{feff}'] + row) == lrc_row(row),
{
    let marked = seq!['\u{feff}'] + row;
    let class = CharClass::ByteOrderMark;
    skip_class_stops(marked, class, 0);
    skip_class_stops(row, class, 0);
    let a = skip_class(marked, class, 0);
    let b = skip_class(row, class, 0);
    assert(marked[0] == '\u{feff}');
    assert(a == b + 1) by {
        if a > b + 1 {
            assert(class.holds(marked[b + 1]));
            assert(marked[b + 1] == row[b]);
        } else if 0 < a < b + 1 {
            assert(class.holds(row[a - 1]));
            assert(marked[a] == row[a - 1]);
        }
    }
    assert(marked.skip(a) =~= row.skip(b));
}

} // verus!
