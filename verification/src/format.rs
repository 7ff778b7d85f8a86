//! Times and counts as texts.

use crate::number::{
    digits_value, format_unsigned, numeral, numerals_alone_are_read, numerals_are_short,
    only_decimals, padding_changes_no_value, written_number_reads_back, zero_padded,
};
use crate::text::{push_chars, push_text, to_chars};
use crate::time::{Duration, NANOS_PER_SECOND};
use vstd::prelude::*;

verus! {

/// A number with at least `width` digits.
pub open spec fn padded(n: nat, width: nat) -> Seq<char> {
    zero_padded(numeral(n, 10), width)
}

pub fn push_number(text: &mut String, n: u64, width: usize)
    ensures
        final(text)@ == old(text)@ + padded(n as nat, width as nat),
{
    let digits = format_unsigned(n as u128, 10, width);
    push_chars(text, digits.as_slice());
}

pub open spec fn minutes_and_seconds(minutes: nat, width: nat, seconds: nat) -> Seq<char> {
    padded(minutes, width) + ":"@ + padded(seconds, 2)
}

/// The length of a track as minutes and seconds, two digits each at least.
pub open spec fn duration_text(seconds: u64) -> Seq<char> {
    minutes_and_seconds(seconds as nat / 60, 2, seconds as nat % 60)
}

fn push_clock(text: &mut String, minutes: u64, width: usize, seconds: u64)
    ensures
        final(text)@ == old(text)@ + minutes_and_seconds(
            minutes as nat,
            width as nat,
            seconds as nat,
        ),
{
    let ghost before = text@;
    push_number(text, minutes, width);
    push_text(text, ":");
    push_number(text, seconds, 2);
    assert(text@ =~= before + minutes_and_seconds(minutes as nat, width as nat, seconds as nat));
}

pub fn format_duration(seconds: u64) -> (text: String)
    ensures
        text@ == duration_text(seconds),
{
    let mut text = String::new();
    push_clock(&mut text, seconds / 60, 2, seconds % 60);
    assert(text@ =~= duration_text(seconds));
    text
}

/// A position as minutes and seconds, and hours in front from the first one on.
pub open spec fn time_text(seconds: nat) -> Seq<char> {
    if seconds >= 3600 {
        padded(seconds / 3600, 1) + ":"@ + minutes_and_seconds(
            seconds / 60 % 60,
            2,
            seconds % 60,
        )
    } else {
        minutes_and_seconds(seconds / 60, 1, seconds % 60)
    }
}

pub fn format_playback_time(duration: Duration) -> (text: String)
    ensures
        text@ == time_text(duration@ / NANOS_PER_SECOND as nat),
{
    let seconds: u64 = duration.as_secs();
    let mut text = String::new();
    if seconds >= 3600 {
        push_number(&mut text, seconds / 3600, 1);
        push_text(&mut text, ":");
        push_clock(&mut text, seconds / 60 % 60, 2, seconds % 60);
    } else {
        push_clock(&mut text, seconds / 60, 1, seconds % 60);
    }
    assert(text@ =~= time_text(seconds as nat));
    text
}

/// How wide a text is, where characters beyond ASCII count twice.
pub open spec fn display_width(text: Seq<char>) -> nat
    decreases text.len(),
{
    if text.len() == 0 {
        0
    } else {
        display_width(text.drop_last()) + if (text.last() as u32) < 128 {
            1nat
        } else {
            2nat
        }
    }
}

proof fn display_width_grows(text: Seq<char>, end: int)
    requires
        0 <= end <= text.len(),
    ensures
        display_width(text.take(end)) <= display_width(text),
    decreases text.len(),
{
    if end < text.len() {
        display_width_grows(text.drop_last(), end);
        assert(text.drop_last().take(end) =~= text.take(end));
    } else {
        assert(text.take(end) =~= text);
    }
}

/// A title that needs more than one line.
pub fn playlist_title_is_long(title: &str) -> (result: bool)
    ensures
        result == (display_width(title@) > 24),
{
    let chars = to_chars(title);
    let mut width: usize = 0;
    let mut i: usize = 0;
    assert(chars@.take(0) =~= Seq::empty());
    while i < chars.len()
        invariant
            i <= chars@.len(),
            chars@ == title@,
            width <= 24,
            width == display_width(chars@.take(i as int)),
        decreases chars.len() - i,
    {
        proof {
            assert(chars@.take(i + 1).drop_last() =~= chars@.take(i as int));
            assert(chars@.take(i + 1).last() == chars@[i as int]);
            display_width_grows(chars@, i + 1);
        }
        width += if (chars[i] as u32) < 128 {
            1
        } else {
            2
        };
        if width > 24 {
            return true;
        }
        i += 1;
    }
    assert(chars@.take(chars@.len() as int) =~= chars@);
    false
}

/// The length of a track is written as minutes and seconds that make it up: at least two
/// digits, a colon, and two digits below sixty.
pub proof fn lengths_are_minutes_and_seconds(seconds: u64)
    ensures
        ({
            let text = duration_text(seconds);
            let at = text.len() - 3;
            &&& at >= 2 && text[at] == ':'
            &&& only_decimals(text.take(at)) && only_decimals(text.skip(at + 1))
            &&& 60 * digits_value(text.take(at), 10) + digits_value(text.skip(at + 1), 10)
                == seconds
            &&& digits_value(text.skip(at + 1), 10) < 60
            &&& at > 2 ==> text[0] != '0'
        }),
{
    two_parts(seconds as nat / 60, 2, seconds as nat % 60);
    let text = duration_text(seconds);
    let minutes = padded(seconds as nat / 60, 2);
    numerals_are_short(seconds as nat / 60);
    if minutes.len() > 2 {
        assert(text[0] == minutes[0]);
        assert(minutes == numeral(seconds as nat / 60, 10));
    }
}

proof fn padded_reads_back(n: nat, width: nat)
    requires
        n <= u64::MAX,
    ensures
        only_decimals(padded(n, width)),
        digits_value(padded(n, width), 10) == n,
        padded(n, width).len() >= width,
        padded(n, width).len() > 0,
        n < 100 && width == 2 ==> padded(n, width).len() == 2,
        width <= 1 && n > 0 ==> padded(n, width)[0] != '0',
        width <= 1 ==> padded(n, width) == numeral(n, 10),
{
    numerals_are_short(n);
    padding_changes_no_value(numeral(n, 10), width);
    written_number_reads_back(n, 10, u64::MAX as nat);
    numerals_alone_are_read(numeral(n, 10), u64::MAX as nat);
}

proof fn two_parts(minutes: nat, width: nat, seconds: nat)
    requires
        minutes <= u64::MAX,
        seconds < 60,
    ensures
        ({
            let text = minutes_and_seconds(minutes, width, seconds);
            let at = text.len() - 3;
            &&& at == padded(minutes, width).len() && text[at] == ':'
            &&& text.take(at) == padded(minutes, width)
            &&& text.skip(at + 1) == padded(seconds, 2)
            &&& only_decimals(text.take(at)) && only_decimals(text.skip(at + 1))
            &&& digits_value(text.take(at), 10) == minutes && digits_value(text.skip(at + 1), 10)
                == seconds
        }),
{
    reveal_strlit(":");
    padded_reads_back(minutes, width);
    padded_reads_back(seconds, 2);
    let text = minutes_and_seconds(minutes, width, seconds);
    let at = text.len() - 3;
    assert(text.take(at) =~= padded(minutes, width));
    assert(text.skip(at + 1) =~= padded(seconds, 2));
}

/// A position below an hour is written as minutes and seconds, and from an hour on with
/// the hours in front; the parts make up the position, the first has no zero in front, and
/// the others have two digits below sixty.
pub proof fn positions_are_hours_minutes_and_seconds(seconds: nat)
    requires
        seconds <= u64::MAX,
    ensures
        ({
            let text = time_text(seconds);
            let at = text.len() - 3;
            &&& at > 0 && text[at] == ':' && only_decimals(text.skip(at + 1)) && digits_value(
                text.skip(at + 1),
                10,
            ) == seconds % 60
            &&& seconds < 3_600 ==> only_decimals(text.take(at)) && digits_value(text.take(at), 10)
                == seconds / 60 && (at > 1 ==> text[0] != '0')
            &&& seconds >= 3_600 ==> at > 3 && text[at - 3] == ':' && only_decimals(
                text.take(at - 3),
            ) && digits_value(text.take(at - 3), 10) == seconds / 3_600 && text[0] != '0'
                && only_decimals(text.subrange(at - 2, at)) && digits_value(
                text.subrange(at - 2, at),
                10,
            ) == seconds / 60 % 60
        }),
{
    let text = time_text(seconds);
    let at = text.len() - 3;
    if seconds < 3_600 {
        two_parts(seconds / 60, 1, seconds % 60);
        padded_reads_back(seconds / 60, 1);
        numerals_are_short(seconds / 60);
        assert(text[0] == text.take(at)[0]);
    } else {
        reveal_strlit(":");
        two_parts(seconds / 60 % 60, 2, seconds % 60);
        padded_reads_back(seconds / 3_600, 1);
        padded_reads_back(seconds / 60 % 60, 2);
        let hours = padded(seconds / 3_600, 1);
        let rest = minutes_and_seconds(seconds / 60 % 60, 2, seconds % 60);
        assert(text =~= hours.push(':') + rest);
        assert(rest.len() == 5);
        assert(text.skip(at + 1) =~= rest.skip(3));
        assert(text.subrange(at - 2, at) =~= rest.take(2));
        assert(text.take(at - 3) =~= hours);
        assert(text[at] == rest[2]);
        assert(text[0] == hours[0]);
    }
}

/// A character of ASCII is one wide and any other two, one beside the other.
pub proof fn widths_add_up(a: Seq<char>, b: Seq<char>, c: char)
    ensures
        display_width(a + b) == display_width(a) + display_width(b),
        c <= '\u{7f}' ==> display_width(seq![c]) == 1,
        c > '\u{7f}' ==> display_width(seq![c]) == 2,
        display_width(Seq::empty()) == 0,
    decreases b.len(),
{
    reveal_with_fuel(display_width, 2);
    assert(seq![c].drop_last() =~= Seq::empty());
    if b.len() > 0 {
        widths_add_up(a, b.drop_last(), c);
        assert((a + b).drop_last() =~= a + b.drop_last());
        assert((a + b).last() == b.last());
    } else {
        assert(a + b =~= a);
    }
}

} // verus!
