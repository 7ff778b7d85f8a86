//! Lyrics with a time for every line: one or more `[minutes:seconds.fraction]` in
//! front of a text.

use crate::lyrics::line::{
    all_wf, by_start, line_views, ordered_lines, sort_by_start, word_views, Line, LyricLine, Word,
};
use crate::lyrics::qrc::{decimal, millis, skip_marks, without_marks};
use crate::number::{
    digits_value, numeral, numerals_alone_are_read, numerals_are_short, only_decimals,
    padding_changes_no_value, parse_unsigned, unsigned, written_number_reads_back, zero_padded,
};
use crate::scan::{
    chars_views, fed_lines, find_char, find_char_is_first, index_of, lacks, lines, split_at_first,
    split_once, splitting_undoes_joining, text_lines, trim, trimmed, written_lines_read_back,
};
use crate::text::{ascii_digit, from_chars, is_ascii_digit, to_chars};
use crate::time::Duration;
use vstd::prelude::*;
use vstd::slice::slice_subrange;

verus! {

/// The milliseconds that the digits behind the point of a second stand for: digits
/// behind the third are cut off.
pub open spec fn fraction_millis(digits: Seq<char>) -> nat {
    let value = |s: Seq<char>| decimal(s).unwrap_or(0);
    if digits.len() == 0 {
        0
    } else if digits.len() == 1 {
        value(digits) * 100
    } else if digits.len() == 2 {
        value(digits) * 10
    } else {
        value(digits.take(3))
    }
}

pub open spec fn all_ascii_digits(s: Seq<char>) -> bool {
    forall|i: int| 0 <= i < s.len() ==> ascii_digit(#[trigger] s[i])
}

pub open spec fn at_most_u64(n: nat) -> nat {
    if n <= u64::MAX {
        n
    } else {
        u64::MAX as nat
    }
}

/// The milliseconds that `minutes:seconds.fraction` stands for. The point and the
/// fraction may be missing. The seconds stay below a minute.
pub open spec fn clock_millis(s: Seq<char>) -> Option<nat> {
    match split_once(s, ':') {
        None => None,
        Some((minutes, rest)) => {
            let (seconds, fraction) = match split_once(rest, '.') {
                Some(parts) => parts,
                None => (rest, Seq::empty()),
            };
            match (decimal(minutes), decimal(seconds)) {
                (Some(minutes), Some(seconds)) if seconds < 60 && all_ascii_digits(
                    fraction,
                ) => Some(
                    at_most_u64(minutes * 60_000 + seconds * 1_000 + fraction_millis(fraction)),
                ),
                _ => None,
            }
        },
    }
}

/// The time in brackets at the front of `s`, in milliseconds, and how many characters
/// it takes.
pub open spec fn lrc_timestamp(s: Seq<char>) -> Option<(nat, int)> {
    if s.len() == 0 || s[0] != '[' {
        None
    } else {
        match find_char(s, ']', 0) {
            None => None,
            Some(end) => match clock_millis(s.subrange(1, end)) {
                Some(ms) => Some((ms, end + 1)),
                None => None,
            },
        }
    }
}

fn parse_fraction(digits: &[char]) -> (value: u64)
    requires
        all_ascii_digits(digits@),
    ensures
        value == fraction_millis(digits@),
        value <= 999,
{
    if digits.len() == 0 {
        0
    } else {
        let count: usize = if digits.len() > 3 {
            3
        } else {
            digits.len()
        };
        let head = slice_subrange(digits, 0, count);
        proof {
            short_numeral(head@);
            assert(head@ =~= digits@.take(count as int));
            if count == digits@.len() {
                assert(digits@.take(count as int) =~= digits@);
            }
        }
        let value = match parse_unsigned(head, 10, u64::MAX) {
            Some(value) => value,
            None => 0,
        };
        if count == 1 {
            value * 100
        } else if count == 2 {
            value * 10
        } else {
            value
        }
    }
}

/// One to three digits read as a number below ten, a hundred or a thousand.
proof fn short_numeral(s: Seq<char>)
    requires
        all_ascii_digits(s),
        1 <= s.len() <= 3,
    ensures
        decimal(s) is Some,
        s.len() == 1 ==> decimal(s).unwrap() <= 9,
        s.len() == 2 ==> decimal(s).unwrap() <= 99,
        s.len() == 3 ==> decimal(s).unwrap() <= 999,
{
    reveal_with_fuel(crate::number::digits_value, 4);
    assert(crate::number::without_plus(s) == s);
    assert(ascii_digit(s[0]) && ascii_digit(s.last()));
    if s.len() == 2 {
        assert(s.drop_last().last() == s[0]);
    } else if s.len() == 3 {
        assert(ascii_digit(s[1]));
        assert(s.drop_last().last() == s[1]);
        assert(s.drop_last().drop_last().last() == s[0]);
    }
    assert forall|i: int| 0 <= i < s.len() implies crate::number::digit_value(
        #[trigger] s[i],
        10,
    ) is Some by {
        assert(ascii_digit(s[i]));
    }
}

fn only_digits(chars: &[char]) -> (result: bool)
    ensures
        result == all_ascii_digits(chars@),
{
    let mut i: usize = 0;
    while i < chars.len()
        invariant
            i <= chars@.len(),
            forall|j: int| 0 <= j < i ==> ascii_digit(#[trigger] chars@[j]),
        decreases chars.len() - i,
    {
        if !is_ascii_digit(chars[i]) {
            return false;
        }
        i += 1;
    }
    true
}

fn parse_clock(chars: &[char]) -> (ms: Option<u64>)
    ensures
        match ms {
            Some(ms) => clock_millis(chars@) == Some(ms as nat),
            None => clock_millis(chars@) is None,
        },
{
    match split_at_first(chars, ':') {
        None => None,
        Some((minutes, rest)) => {
            let none = slice_subrange(rest, 0, 0);
            assert(none@ =~= Seq::empty());
            let (seconds, fraction) = match split_at_first(rest, '.') {
                Some(parts) => parts,
                None => (rest, none),
            };
            match (parse_unsigned(minutes, 10, u64::MAX), parse_unsigned(seconds, 10, u64::MAX)) {
                (Some(minutes), Some(seconds)) => {
                    if seconds < 60 && only_digits(fraction) {
                        let milliseconds = parse_fraction(fraction);
                        let total: u128 = minutes as u128 * 60_000 + seconds as u128 * 1_000
                            + milliseconds as u128;
                        if total <= u64::MAX as u128 {
                            Some(total as u64)
                        } else {
                            Some(u64::MAX)
                        }
                    } else {
                        None
                    }
                },
                _ => None,
            }
        },
    }
}

pub fn parse_lrc_timestamp(input: &[char]) -> (result: Option<(Duration, usize)>)
    ensures
        match (result, lrc_timestamp(input@)) {
            (Some((start, consumed)), Some((ms, length))) => start@ == millis(ms) && consumed
                == length && 0 < consumed <= input@.len(),
            (None, None) => true,
            _ => false,
        },
{
    if input.len() == 0 || input[0] != '[' {
        return None;
    }
    match index_of(input, ']', 0) {
        None => None,
        Some(end) => match parse_clock(slice_subrange(input, 1, end)) {
            Some(ms) => Some((Duration::from_millis(ms), end + 1)),
            None => None,
        },
    }
}

/// The times at the front of `s` from `from` on, in milliseconds.
pub open spec fn leading_times(s: Seq<char>, from: int) -> Seq<nat>
    decreases s.len() - from,
    via times_decrease
{
    if from < 0 || from > s.len() {
        Seq::empty()
    } else {
        match lrc_timestamp(s.skip(from)) {
            Some((ms, length)) => seq![ms] + leading_times(s, from + length),
            None => Seq::empty(),
        }
    }
}

/// Where the times at the front of `s` end.
pub open spec fn times_end(s: Seq<char>, from: int) -> int
    decreases s.len() - from,
    via times_end_decreases
{
    if from < 0 || from > s.len() {
        from
    } else {
        match lrc_timestamp(s.skip(from)) {
            Some((_, length)) => times_end(s, from + length),
            None => from,
        }
    }
}

proof fn timestamp_length(s: Seq<char>)
    ensures
        lrc_timestamp(s) matches Some((_, length)) ==> 0 < length <= s.len(),
{
    find_char_is_first(s, ']', 0);
}

#[via_fn]
proof fn times_decrease(s: Seq<char>, from: int) {
    if 0 <= from <= s.len() {
        timestamp_length(s.skip(from));
    }
}

#[via_fn]
proof fn times_end_decreases(s: Seq<char>, from: int) {
    if 0 <= from <= s.len() {
        timestamp_length(s.skip(from));
    }
}

/// A line that says `text` from each of `times` on.
pub open spec fn repeated(times: Seq<nat>, text: Seq<char>) -> Seq<Line> {
    times.map_values(
        |ms: nat| Line { start: millis(ms), text, words: Seq::empty(), translation: None },
    )
}

/// The lines that a row gives: one for each of its times, and none where it has no
/// text.
pub open spec fn lrc_row(row: Seq<char>) -> Seq<Line> {
    let s = without_marks(row);
    let text = trim(s.skip(times_end(s, 0)));
    if text.len() == 0 {
        Seq::empty()
    } else {
        repeated(leading_times(s, 0), text)
    }
}

pub open spec fn lrc_lines(rows: Seq<Seq<char>>) -> Seq<Line>
    decreases rows.len(),
{
    if rows.len() == 0 {
        Seq::empty()
    } else {
        lrc_lines(rows.drop_last()) + lrc_row(rows.last())
    }
}

/// The lines of a text with line times, ordered by their start.
pub open spec fn lrc(raw: Seq<char>) -> Seq<Line> {
    by_start(lrc_lines(text_lines(raw)))
}

proof fn lrc_lines_wf(rows: Seq<Seq<char>>)
    ensures
        all_wf(lrc_lines(rows)),
    decreases rows.len(),
{
    if rows.len() > 0 {
        lrc_lines_wf(rows.drop_last());
    }
}

pub proof fn lrc_wf(raw: Seq<char>)
    ensures
        all_wf(lrc(raw)),
{
    lrc_lines_wf(text_lines(raw));
    ordered_lines(lrc_lines(text_lines(raw)));
}

fn parse_row(row: &[char], found: &mut Vec<LyricLine>)
    ensures
        line_views(final(found)@) == line_views(old(found)@) + lrc_row(row@),
{
    let s = skip_marks(row);
    let mut times: Vec<Duration> = Vec::new();
    let mut at: usize = 0;
    let ghost all = leading_times(s@, 0);
    let ghost mut read: Seq<nat> = Seq::empty();
    let mut more: bool = true;
    assert(read + all =~= all);
    while more
        invariant
            at <= s@.len(),
            read + leading_times(s@, at as int) == all,
            times@.len() == read.len(),
            forall|i: int| 0 <= i < read.len() ==> (#[trigger] times@[i])@ == millis(read[i]),
            times_end(s@, at as int) == times_end(s@, 0),
            !more ==> leading_times(s@, at as int).len() == 0 && times_end(s@, at as int) == at,
        decreases s.len() - at, (if more { 1int } else { 0int }),
    {
        let rest = slice_subrange(s, at, s.len());
        assert(rest@ =~= s@.skip(at as int));
        match parse_lrc_timestamp(rest) {
            Some((time, consumed)) => {
                times.push(time);
                proof {
                    let ms = lrc_timestamp(s@.skip(at as int)).unwrap().0;
                    assert(read.push(ms) + leading_times(s@, at + consumed) =~= read
                        + leading_times(s@, at as int));
                    read = read.push(ms);
                }
                at += consumed;
            },
            None => {
                more = false;
            },
        }
    }
    assert(read =~= all);
    let rest = slice_subrange(s, at, s.len());
    assert(rest@ =~= s@.skip(at as int));
    let text = trimmed(rest);
    let ghost before = found@;
    if text.len() == 0 {
        assert(line_views(found@) + Seq::<Line>::empty() =~= line_views(found@));
        return;
    }
    let mut i: usize = 0;
    let ghost lines = repeated(all, text@);
    assert(line_views(found@) + lines.take(0) =~= line_views(found@));
    while i < times.len()
        invariant
            i <= times@.len(),
            times@.len() == all.len(),
            lines == repeated(all, text@),
            forall|i: int| 0 <= i < all.len() ==> (#[trigger] times@[i])@ == millis(all[i]),
            line_views(found@) == line_views(before) + lines.take(i as int),
        decreases times.len() - i,
    {
        let words = Vec::new();
        assert(word_views(words@) =~= Seq::<Word>::empty());
        let line = LyricLine {
            start: times[i],
            text: from_chars(text),
            words,
            translation: None,
        };
        let ghost earlier = found@;
        found.push(line);
        proof {
            assert(line_views(found@) =~= line_views(earlier).push(line@));
            assert(line@ == lines[i as int]);
            assert(line_views(found@) =~= line_views(before) + lines.take(i + 1));
        }
        i += 1;
    }
    assert(lines.take(lines.len() as int) =~= lines);
}

/// Reads lyrics with line times.
pub fn parse_lrc(raw: &str) -> (result: Vec<LyricLine>)
    ensures
        line_views(result@) == lrc(raw@),
{
    let chars = to_chars(raw);
    let rows = lines(chars.as_slice());
    let ghost views = chars_views(rows@);
    let mut found: Vec<LyricLine> = Vec::new();
    let mut i: usize = 0;
    assert(views.take(0) =~= Seq::empty());
    assert(line_views(found@) =~= Seq::empty());
    while i < rows.len()
        invariant
            i <= rows@.len(),
            views == chars_views(rows@),
            line_views(found@) == lrc_lines(views.take(i as int)),
        decreases rows.len() - i,
    {
        assert(views.take(i + 1).drop_last() =~= views.take(i as int));
        assert(views.take(i + 1).last() == rows@[i as int]@);
        parse_row(rows[i].as_slice(), &mut found);
        i += 1;
    }
    assert(views.take(views.len() as int) =~= views);
    sort_by_start(found)
}

/// A minute has sixty seconds and a second a thousand milliseconds: the time that is read
/// from digits lies in the second that they name, as long as it fits, and within that
/// second at the tenths, hundredths or thousandths behind the point.
pub proof fn clocks_count_sixty_seconds(minutes: Seq<char>, seconds: Seq<char>, fraction: Seq<char>)
    requires
        minutes.len() > 0 && only_decimals(minutes),
        seconds.len() > 0 && only_decimals(seconds),
        only_decimals(fraction),
        digits_value(minutes, 10) <= u64::MAX,
        digits_value(seconds, 10) <= u64::MAX,
    ensures
        ({
            let read = clock_millis(minutes.push(':') + (seconds.push('.') + fraction));
            let plain = clock_millis(minutes.push(':') + seconds);
            let second = 60_000 * digits_value(minutes, 10) + 1_000 * digits_value(seconds, 10);
            &&& digits_value(seconds, 10) >= 60 ==> read is None && plain is None
            &&& digits_value(seconds, 10) < 60 ==> read is Some && plain is Some
            &&& digits_value(seconds, 10) < 60 && second + 999 <= u64::MAX ==> {
                &&& plain.unwrap() == second
                &&& second <= read.unwrap() < second + 1_000
                &&& fraction.len() == 0 ==> read.unwrap() == second
                &&& fraction.len() == 1 ==> read.unwrap() == second + 100 * digits_value(
                    fraction,
                    10,
                )
                &&& fraction.len() == 2 ==> read.unwrap() == second + 10 * digits_value(
                    fraction,
                    10,
                )
                &&& fraction.len() >= 3 ==> read.unwrap() == second + digits_value(
                    fraction.take(3),
                    10,
                )
            }
            &&& digits_value(seconds, 10) < 60 && second > u64::MAX ==> plain.unwrap()
                == u64::MAX && read.unwrap() == u64::MAX
        }),
{
    let behind = seconds.push('.') + fraction;
    assert(lacks(minutes, ':')) by {
        assert forall|i: int| 0 <= i < minutes.len() implies #[trigger] minutes[i] != ':' by {
            assert('0' <= minutes[i] <= '9');
        }
    }
    assert(lacks(seconds, '.')) by {
        assert forall|i: int| 0 <= i < seconds.len() implies #[trigger] seconds[i] != '.' by {
            assert('0' <= seconds[i] <= '9');
        }
    }
    splitting_undoes_joining(minutes, ':', behind);
    splitting_undoes_joining(minutes, ':', seconds);
    splitting_undoes_joining(seconds, '.', fraction);
    numerals_alone_are_read(minutes, u64::MAX as nat);
    numerals_alone_are_read(seconds, u64::MAX as nat);
    assert(all_ascii_digits(fraction)) by {
        assert forall|i: int| 0 <= i < fraction.len() implies ascii_digit(
            #[trigger] fraction[i],
        ) by {
            assert('0' <= fraction[i] <= '9');
        }
    }
    if fraction.len() > 0 {
        let count = if fraction.len() > 3 {
            3
        } else {
            fraction.len() as int
        };
        let head = fraction.take(count);
        assert(all_ascii_digits(head)) by {
            assert forall|i: int| 0 <= i < head.len() implies ascii_digit(#[trigger] head[i]) by {
                assert(head[i] == fraction[i]);
            }
        }
        assert(only_decimals(head)) by {
            assert forall|i: int| 0 <= i < head.len() implies '0' <= #[trigger] head[i] <= '9' by {
                assert(head[i] == fraction[i]);
            }
        }
        short_numeral(head);
        numerals_alone_are_read(head, u64::MAX as nat);
        if fraction.len() <= 3 {
            assert(head =~= fraction);
        }
    }
}

/// The time of a clock that is written out is the time that was written, and the last
/// millisecond of a minute comes right before the next minute.
pub proof fn written_clocks_read_back(minutes: nat, seconds: nat, thousandths: nat)
    requires
        seconds < 60,
        thousandths < 1_000,
        60_000 * minutes + 60_000 <= u64::MAX,
    ensures
        clock_millis(
            numeral(minutes, 10).push(':') + (zero_padded(numeral(seconds, 10), 2).push('.')
                + zero_padded(numeral(thousandths, 10), 3)),
        ) == Some(60_000 * minutes + 1_000 * seconds + thousandths),
        clock_millis(
            numeral(minutes + 1, 10).push(':') + zero_padded(numeral(0, 10), 2),
        ) == Some(60_000 * (minutes + 1)),
{
    let digits = |n: nat, width: nat| zero_padded(numeral(n, 10), width);
    numerals_are_short(minutes);
    numerals_are_short(minutes + 1);
    numerals_are_short(seconds);
    numerals_are_short(thousandths);
    numerals_are_short(0);
    written_number_reads_back(minutes, 10, u64::MAX as nat);
    written_number_reads_back(minutes + 1, 10, u64::MAX as nat);
    written_number_reads_back(seconds, 10, u64::MAX as nat);
    written_number_reads_back(thousandths, 10, u64::MAX as nat);
    written_number_reads_back(0, 10, u64::MAX as nat);
    numerals_alone_are_read(numeral(minutes, 10), u64::MAX as nat);
    numerals_alone_are_read(numeral(minutes + 1, 10), u64::MAX as nat);
    numerals_alone_are_read(numeral(seconds, 10), u64::MAX as nat);
    numerals_alone_are_read(numeral(thousandths, 10), u64::MAX as nat);
    numerals_alone_are_read(numeral(0, 10), u64::MAX as nat);
    padding_changes_no_value(numeral(seconds, 10), 2);
    padding_changes_no_value(numeral(thousandths, 10), 3);
    padding_changes_no_value(numeral(0, 10), 2);
    clocks_count_sixty_seconds(numeral(minutes, 10), digits(seconds, 2), digits(thousandths, 3));
    clocks_count_sixty_seconds(numeral(minutes + 1, 10), digits(0, 2), Seq::empty());
    assert(digits(thousandths, 3).take(3) =~= digits(thousandths, 3));
}

/// Clocks in brackets, one behind the other.
pub open spec fn bracketed(clocks: Seq<Seq<char>>) -> Seq<char>
    decreases clocks.len(),
{
    if clocks.len() == 0 {
        Seq::empty()
    } else {
        seq!['['] + clocks[0].push(']') + bracketed(clocks.drop_first())
    }
}

proof fn one_clock(clock: Seq<char>, rest: Seq<char>)
    requires
        lacks(clock, ']'),
        clock_millis(clock) is Some,
    ensures
        lrc_timestamp(seq!['['] + clock.push(']') + rest) == Some(
            (clock_millis(clock).unwrap(), clock.len() as int + 2),
        ),
{
    let s = seq!['['] + clock.push(']') + rest;
    find_char_is_first(s, ']', 0);
    let at = clock.len() as int + 1;
    assert(s[at] == ']');
    let found = find_char(s, ']', 0).unwrap();
    if 0 < found < at {
        assert(s[found] == clock[found - 1]);
    }
    assert(s[0] == '[');
    assert(found == at);
    assert(s.subrange(1, at) =~= clock);
}

proof fn clocks_in_front(before: Seq<char>, clocks: Seq<Seq<char>>, text: Seq<char>)
    requires
        forall|i: int|
            0 <= i < clocks.len() ==> lacks(#[trigger] clocks[i], ']') && clock_millis(clocks[i])
                is Some,
        lrc_timestamp(text) is None,
    ensures
        ({
            let s = before + bracketed(clocks) + text;
            let from = before.len() as int;
            &&& leading_times(s, from) == Seq::new(
                clocks.len(),
                |i: int| clock_millis(clocks[i]).unwrap(),
            )
            &&& times_end(s, from) == before.len() + bracketed(clocks).len()
        }),
    decreases clocks.len(),
{
    let s = before + bracketed(clocks) + text;
    let from = before.len() as int;
    let times = Seq::new(clocks.len(), |i: int| clock_millis(clocks[i]).unwrap());
    if clocks.len() == 0 {
        assert(s.skip(from) =~= text);
        assert(leading_times(s, from) =~= times);
    } else {
        let rest = clocks.drop_first();
        let first = seq!['['] + clocks[0].push(']');
        assert(s.skip(from) =~= first + (bracketed(rest) + text));
        one_clock(clocks[0], bracketed(rest) + text);
        assert forall|i: int| 0 <= i < rest.len() implies lacks(#[trigger] rest[i], ']')
            && clock_millis(rest[i]) is Some by {
            assert(rest[i] == clocks[i + 1]);
        }
        let next = before + first;
        clocks_in_front(next, rest, text);
        assert(next + bracketed(rest) + text =~= s);
        assert(next.len() == from + clocks[0].len() + 2);
        let later = Seq::new(rest.len(), |i: int| clock_millis(rest[i]).unwrap());
        assert(seq![clock_millis(clocks[0]).unwrap()] + later =~= times);
    }
}

/// A row with clocks in brackets in front of a text says the text once from each of these
/// times on, in the order in which they stand, and nothing else.
pub proof fn every_clock_of_a_row_counts(clocks: Seq<Seq<char>>, text: Seq<char>)
    requires
        clocks.len() > 0,
        forall|i: int|
            0 <= i < clocks.len() ==> lacks(#[trigger] clocks[i], ']') && clock_millis(clocks[i])
                is Some,
        text.len() > 0 && text[0] == '[' ==> forall|end: int|
            0 < end < text.len() && text[end] == ']' && lacks(#[trigger] text.take(end), ']')
                ==> clock_millis(text.subrange(1, end)) is None,
    ensures
        trim(text).len() == 0 ==> lrc_row(bracketed(clocks) + text).len() == 0,
        trim(text).len() > 0 ==> lrc_row(bracketed(clocks) + text).len() == clocks.len(),
        trim(text).len() > 0 ==> forall|i: int|
            0 <= i < clocks.len() ==> (#[trigger] lrc_row(bracketed(clocks) + text)[i]) == (Line {
                start: 1_000_000 * clock_millis(clocks[i]).unwrap(),
                text: trim(text),
                words: Seq::empty(),
                translation: None,
            }),
{
    let s = bracketed(clocks) + text;
    assert(Seq::<char>::empty() + bracketed(clocks) + text =~= s);
    assert(lrc_timestamp(text) is None) by {
        find_char_is_first(text, ']', 0);
        if text.len() > 0 && text[0] == '[' {
            if let Some(end) = find_char(text, ']', 0) {
                let front = text.take(end);
                assert forall|i: int| 0 <= i < front.len() implies #[trigger] front[i] != ']' by {
                    assert(text[i] != ']');
                }
                assert(lacks(text.take(end), ']'));
            }
        }
    }
    clocks_in_front(Seq::empty(), clocks, text);
    assert(s[0] == '[');
    assert(without_marks(s) =~= s);
    assert(s.skip(bracketed(clocks).len() as int) =~= text);
}

/// A row that does not begin with a time gives no line.
pub proof fn rows_without_a_time_are_silent(row: Seq<char>)
    requires
        row.len() > 0 ==> row[0] != '[' && row[0] != '\u{feff}',
    ensures
        lrc_row(row).len() == 0,
{
    assert(without_marks(row) =~= row);
    assert(row.skip(0) =~= row);
}

/// Every line of every row is read, and no other one: the lines of a text are those of
/// its rows, in the order of their starts.
pub proof fn rows_are_read_one_by_one(rows: Seq<Seq<char>>, row: Seq<char>)
    requires
        forall|i: int|
            0 <= i < rows.len() ==> lacks(#[trigger] rows[i], '\n') && (rows[i].len() > 0
                ==> rows[i].last() != '\r'),
        lacks(row, '\n'),
        row.len() > 0 ==> row.last() != '\r',
    ensures
        lrc(fed_lines(rows.push(row))).to_multiset() == lrc(fed_lines(rows)).to_multiset().add(
            lrc_row(row).to_multiset(),
        ),
        crate::lyrics::line::in_order(lrc(fed_lines(rows.push(row)))),
{
    broadcast use vstd::seq_lib::group_to_multiset_ensures;

    let all = rows.push(row);
    assert forall|i: int| 0 <= i < all.len() implies lacks(#[trigger] all[i], '\n') && (
    all[i].len() > 0 ==> all[i].last() != '\r') by {
        if i < rows.len() {
            assert(all[i] == rows[i]);
        }
    }
    written_lines_read_back(all);
    written_lines_read_back(rows);
    assert(all.drop_last() =~= rows);
    ordered_lines(lrc_lines(all));
    ordered_lines(lrc_lines(rows));
    vstd::seq_lib::lemma_multiset_commutative(lrc_lines(rows), lrc_row(row));
}

/// The text is a number, a colon, a number below sixty, and nothing more or a point and
/// digits.
pub open spec fn is_clock(s: Seq<char>, colon: int, end: int) -> bool {
    &&& 0 <= colon < end <= s.len()
    &&& s[colon] == ':'
    &&& unsigned(s.take(colon), 10, u64::MAX as nat) is Some
    &&& unsigned(s.subrange(colon + 1, end), 10, 59) is Some
    &&& end < s.len() ==> s[end] == '.' && only_decimals(s.skip(end + 1))
}

/// Nothing but a clock is read as a time.
pub proof fn only_clocks_are_read(s: Seq<char>)
    requires
        clock_millis(s) is Some,
    ensures
        exists|colon: int, end: int| #[trigger] is_clock(s, colon, end),
{
    find_char_is_first(s, ':', 0);
    let colon = find_char(s, ':', 0).unwrap();
    let rest = s.skip(colon + 1);
    find_char_is_first(rest, '.', 0);
    match find_char(rest, '.', 0) {
        Some(point) => {
            let end = colon + 1 + point;
            assert(s.subrange(colon + 1, end) =~= rest.take(point));
            assert(s.skip(end + 1) =~= rest.skip(point + 1));
            assert(s[end] == rest[point]);
            let fraction = s.skip(end + 1);
            assert forall|i: int| 0 <= i < fraction.len() implies '0' <= #[trigger] fraction[i]
                <= '9' by {
                one_digit(fraction[i]);
                assert(ascii_digit(fraction[i]));
            }
            assert(is_clock(s, colon, end));
        },
        None => {
            let end = s.len() as int;
            assert(s.subrange(colon + 1, end) =~= rest);
            assert(is_clock(s, colon, end));
        },
    }
}

proof fn one_digit(c: char)
    ensures
        ascii_digit(c) <==> '0' <= c <= '9',
{
}

} // verus!
