//! What is lit when: how far a word is sung, and when the next frame is drawn.

use crate::lyrics::line::LyricWord;
use crate::settings::LyricFrameRate;
use crate::time::{
    at_least, at_most, capped_nanos, Duration, Instant, MAX_NANOS, NANOS_PER_SECOND,
};
use vstd::prelude::*;

verus! {

/// How far something timed has come.
#[derive(Clone, Copy, Debug, PartialEq, Eq, Structural)]
pub enum Progress {
    Nothing,
    /// `elapsed` out of `total`, which is longer.
    Part { elapsed: Duration, total: Duration },
    Everything,
}

impl Progress {
    /// The progress as a fraction: the numerator, and the denominator above zero.
    pub open spec fn fraction(self) -> (nat, nat) {
        match self {
            Progress::Nothing => (0, 1),
            Progress::Part { elapsed, total } => (elapsed@, total@),
            Progress::Everything => (1, 1),
        }
    }
}

/// The progress, as a fraction, of something that lasts from `start` to `end`.
pub open spec fn progress_at(start: nat, end: nat, position: nat) -> (nat, nat) {
    if position <= start {
        (0, 1)
    } else if position >= end || end <= start {
        (1, 1)
    } else {
        ((position - start) as nat, (end - start) as nat)
    }
}

pub fn lyric_highlight_progress(start: Duration, end: Duration, position: Duration) -> (progress:
    Progress)
    ensures
        progress.fraction() == progress_at(start@, end@, position@),
        progress is Nothing <==> position@ <= start@,
        progress is Everything <==> position@ > start@ && (position@ >= end@ || end@ <= start@),
{
    if position.is_at_most(start) {
        return Progress::Nothing;
    }
    if end.is_at_most(position) || end.is_at_most(start) {
        return Progress::Everything;
    }
    Progress::Part {
        elapsed: position.saturating_sub(start),
        total: end.saturating_sub(start),
    }
}

impl LyricWord {
    pub fn highlight_progress(&self, position: Duration) -> (progress: Progress)
        ensures
            progress.fraction() == progress_at(self.start@, self.end@, position@),
    {
        lyric_highlight_progress(self.start, self.end, position)
    }
}

/// A word is never less lit at a later position, and never lit by more than the whole.
pub proof fn highlight_never_recedes(start: nat, end: nat, earlier: nat, later: nat)
    requires
        earlier <= later,
    ensures
        ({
            let a = progress_at(start, end, earlier);
            let b = progress_at(start, end, later);
            &&& a.1 > 0 && b.1 > 0
            &&& a.0 <= a.1 && b.0 <= b.1
            &&& a.0 * b.1 <= b.0 * a.1
        }),
{
    let a = progress_at(start, end, earlier);
    let b = progress_at(start, end, later);
    assert(a.0 * b.1 <= b.0 * a.1) by (nonlinear_arith)
        requires
            a.0 <= a.1,
            b.0 <= b.1,
            a.0 == 0 || (b.0 == b.1) || (a.1 == b.1 && a.0 <= b.0),
    ;
}

/// The times of a stretch between timed words: it begins where the word in front of
/// it ends, or where the line starts, and lasts up to the next word, or the end of
/// the line, but never ends before it begins.
pub open spec fn stretch_times(
    previous: Option<(nat, nat)>,
    next: Option<(nat, nat)>,
    line_start: nat,
    line_end: nat,
) -> (nat, nat) {
    let start = match previous {
        Some((_, previous_end)) => previous_end,
        None => line_start,
    };
    let end = match next {
        Some((next_start, _)) => next_start,
        None => line_end,
    };
    (start, at_least(end, start))
}

pub open spec fn times_of(timing: Option<(Duration, Duration)>) -> Option<(nat, nat)> {
    match timing {
        Some((start, end)) => Some((start@, end@)),
        None => None,
    }
}

pub fn adjacent_lyric_timing(
    previous: Option<(Duration, Duration)>,
    next: Option<(Duration, Duration)>,
    line_start: Duration,
    line_end: Duration,
) -> (timing: (Duration, Duration))
    ensures
        (timing.0@, timing.1@) == stretch_times(
            times_of(previous),
            times_of(next),
            line_start@,
            line_end@,
        ),
{
    match (previous, next) {
        (Some((_, previous_end)), Some((next_start, _))) => (
            previous_end,
            next_start.longer(previous_end),
        ),
        (Some((_, previous_end)), None) => (previous_end, line_end.longer(previous_end)),
        (None, Some((next_start, _))) => (line_start, next_start.longer(line_start)),
        (None, None) => (line_start, line_end.longer(line_start)),
    }
}

/// The shorter of the two intervals, and none where the display decides one of them.
pub open spec fn combined_interval(highlight: LyricFrameRate, scroll: LyricFrameRate) -> Option<
    nat,
> {
    match (highlight.interval_nanos(), scroll.interval_nanos()) {
        (Some(a), Some(b)) => Some(at_most(a, b)),
        _ => None,
    }
}

pub fn combined_lyric_frame_interval(highlight: LyricFrameRate, scroll: LyricFrameRate) -> (interval:
    Option<Duration>)
    ensures
        match interval {
            Some(span) => combined_interval(highlight, scroll) == Some(span@),
            None => combined_interval(highlight, scroll) is None,
        },
{
    match (highlight.frame_interval(), scroll.frame_interval()) {
        (Some(highlight), Some(scroll)) => Some(highlight.shorter(scroll)),
        _ => None,
    }
}

/// The start of the frame that `position` lies in.
pub open spec fn frame_position(position: nat, frame_rate: LyricFrameRate) -> nat {
    match frame_rate.interval_nanos() {
        None => position,
        Some(interval) => {
            let start = position / interval * interval;
            if start <= u64::MAX {
                start
            } else {
                u64::MAX as nat
            }
        },
    }
}

pub fn lyric_position_for_frame_rate(position: Duration, frame_rate: LyricFrameRate) -> (result:
    Duration)
    ensures
        result@ == frame_position(position@, frame_rate),
{
    match frame_rate.frame_interval() {
        None => position,
        Some(interval) => {
            let nanos: u128 = position.as_nanos();
            let width: u128 = interval.as_nanos();
            assert(nanos / width * width <= nanos) by (nonlinear_arith)
                requires
                    width > 0,
            ;
            let start: u128 = nanos / width * width;
            if start <= u64::MAX as u128 {
                Duration::from_nanos(start as u64)
            } else {
                Duration::from_nanos(u64::MAX)
            }
        },
    }
}

/// A frame starts at or before the position in it, less than an interval away, and
/// later positions never lie in earlier frames.
pub proof fn frames_divide_time(position: nat, later: nat, frame_rate: LyricFrameRate)
    requires
        position <= later <= u64::MAX,
    ensures
        frame_position(position, frame_rate) <= position,
        frame_rate.interval_nanos() matches Some(interval) ==> position < frame_position(
            position,
            frame_rate,
        ) + interval,
        frame_position(position, frame_rate) <= frame_position(later, frame_rate),
        frame_position(frame_position(position, frame_rate), frame_rate) == frame_position(
            position,
            frame_rate,
        ),
{
    if let Some(interval) = frame_rate.interval_nanos() {
        let q = position / interval;
        let r = later / interval;
        assert(interval > 0);
        assert(q * interval <= position < q * interval + interval) by (nonlinear_arith)
            requires
                interval > 0,
                q == position / interval,
        ;
        assert(r * interval <= later < r * interval + interval) by (nonlinear_arith)
            requires
                interval > 0,
                r == later / interval,
        ;
        assert(q * interval <= r * interval) by (nonlinear_arith)
            requires
                q <= r || q >= r + 1,
                q * interval <= position,
                position <= later,
                later < r * interval + interval,
                interval > 0,
        ;
        assert((q * interval) / interval == q) by (nonlinear_arith)
            requires
                interval > 0,
        ;
    }
}

/// The deadline of the frame after one that was due at `deadline` and is drawn now:
/// one interval later, counted from now where a whole interval was missed.
pub open spec fn following_deadline(now: int, deadline: int, interval: nat) -> int {
    if capped_nanos(now - deadline) < interval {
        deadline + interval
    } else {
        now + interval
    }
}

/// Whether a frame is due, and the deadline of the next one.
pub open spec fn frame_step(now: int, interval: Option<nat>, deadline: Option<int>) -> (
    bool,
    Option<int>,
) {
    match (interval, deadline) {
        (None, _) => (true, None),
        (Some(interval), None) => (false, Some(now + interval)),
        (Some(interval), Some(deadline)) => if now < deadline {
            (false, Some(deadline))
        } else {
            (true, Some(following_deadline(now, deadline, interval)))
        },
    }
}

pub open spec fn point(instant: Option<Instant>) -> Option<int> {
    match instant {
        Some(instant) => Some(instant.nanos as int),
        None => None,
    }
}

pub fn lyric_frame_is_due(
    now: Instant,
    frame_rate: LyricFrameRate,
    next_frame: &mut Option<Instant>,
) -> (due: bool)
    requires
        now.nanos + NANOS_PER_SECOND <= u128::MAX,
    ensures
        (due, point(*final(next_frame))) == frame_step(
            now.nanos as int,
            frame_rate.interval_nanos(),
            point(*old(next_frame)),
        ),
{
    match frame_rate.frame_interval() {
        None => {
            *next_frame = None;
            true
        },
        Some(interval) => match *next_frame {
            None => {
                *next_frame = Some(now.plus(interval));
                false
            },
            Some(deadline) => {
                if now.nanos < deadline.nanos {
                    return false;
                }
                let delay = now.saturating_duration_since(deadline);
                *next_frame = Some(
                    if delay.is_below(interval) {
                        deadline.plus(interval)
                    } else {
                        now.plus(interval)
                    },
                );
                true
            },
        },
    }
}

/// A frame that is drawn sets the next deadline ahead of now by at most an interval;
/// while frames are drawn in time the deadlines stay an interval apart.
pub proof fn deadlines_are_stable(now: int, interval: nat, deadline: int)
    requires
        0 < interval < MAX_NANOS,
    ensures
        ({
            let (due, next) = frame_step(now, Some(interval), Some(deadline));
            &&& due <==> deadline <= now
            &&& !due ==> next == Some(deadline)
            &&& due ==> next is Some && now < next.unwrap() <= now + interval
            &&& due && now - deadline < interval ==> next == Some(deadline + interval)
        }),
{
}

/// How bright a line is, in percent, by how far it stands from the anchor.
pub open spec fn line_brightness(anchor: int, index: int) -> int {
    let away = if anchor >= index {
        anchor - index
    } else {
        index - anchor
    };
    if away == 0 {
        100
    } else if away == 1 {
        72
    } else if away == 2 {
        48
    } else if away == 3 {
        30
    } else {
        16
    }
}

pub fn lyric_line_opacity(anchor: usize, index: usize) -> (percent: u32)
    ensures
        percent == line_brightness(anchor as int, index as int),
{
    let away: usize = if anchor >= index {
        anchor - index
    } else {
        index - anchor
    };
    match away {
        0 => 100,
        1 => 72,
        2 => 48,
        3 => 30,
        _ => 16,
    }
}

/// What lasts from `start` to `end` is lit evenly: not before its start, wholly from its
/// end on, and in between by the part of its time that has passed.
pub proof fn progress_is_even(start: nat, end: nat, position: nat)
    ensures
        ({
            let (part, whole) = progress_at(start, end, position);
            &&& whole > 0
            &&& part == 0 <==> position <= start
            &&& position > start && position >= end ==> part == whole
            &&& start < position < end ==> part * (end - start) == (position - start) * whole
                && part < whole
        }),
{
    if start < position < end {
        let (part, whole) = progress_at(start, end, position);
        assert(part * (end - start) == (position - start) * whole) by (nonlinear_arith)
            requires
                part == position - start,
                whole == end - start,
        ;
    }
}

/// A stretch between two words fills the time between them: from the end of the one in
/// front to the start of the one behind, and no time at all where they meet or overlap.
/// At the ends of the line the line itself takes their place.
pub proof fn stretches_fill_the_gaps(before: (nat, nat), behind: (nat, nat), start: nat, end: nat)
    ensures
        before.1 <= behind.0 ==> stretch_times(Some(before), Some(behind), start, end) == (
            before.1,
            behind.0,
        ),
        before.1 >= behind.0 ==> stretch_times(Some(before), Some(behind), start, end) == (
            before.1,
            before.1,
        ),
        start <= behind.0 ==> stretch_times(None, Some(behind), start, end) == (start, behind.0),
        before.1 <= end ==> stretch_times(Some(before), None, start, end) == (before.1, end),
        start <= end ==> stretch_times(None, None, start, end) == (start, end),
        stretch_times(Some(before), None, start, end).0 <= stretch_times(
            Some(before),
            None,
            start,
            end,
        ).1,
{
}

/// A rate has its number of frames in a second, up to less than one nanosecond each, and
/// of two rates the faster one sets the pace, unless the display does.
pub proof fn frames_fill_a_second(highlight: LyricFrameRate, scroll: LyricFrameRate)
    ensures
        LyricFrameRate::Fps30.interval_nanos() == Some(33_333_333nat),
        LyricFrameRate::Fps60.interval_nanos() == Some(16_666_666nat),
        LyricFrameRate::Fps90.interval_nanos() == Some(11_111_111nat),
        LyricFrameRate::Fps120.interval_nanos() == Some(8_333_333nat),
        LyricFrameRate::Display.interval_nanos() is None,
        combined_interval(highlight, scroll) == combined_interval(scroll, highlight),
        combined_interval(highlight, scroll) is None <==> highlight == LyricFrameRate::Display
            || scroll == LyricFrameRate::Display,
        combined_interval(highlight, scroll) matches Some(interval) ==> interval
            <= highlight.interval_nanos().unwrap() && interval <= scroll.interval_nanos().unwrap()
            && (Some(interval) == highlight.interval_nanos() || Some(interval)
            == scroll.interval_nanos()),
{
}

/// A frame starts at a whole number of intervals.
pub proof fn frames_start_at_whole_intervals(position: nat, frame_rate: LyricFrameRate)
    requires
        position <= u64::MAX,
    ensures
        frame_rate == LyricFrameRate::Display ==> frame_position(position, frame_rate) == position,
        frame_rate.interval_nanos() matches Some(interval) ==> exists|n: nat|
            #[trigger] (n * interval) == frame_position(position, frame_rate) && n * interval
                <= position < n * interval + interval,
{
    if let Some(interval) = frame_rate.interval_nanos() {
        let n = position / interval;
        assert(n * interval <= position < n * interval + interval) by (nonlinear_arith)
            requires
                interval > 0,
                n == position / interval,
        ;
        assert(n * interval == frame_position(position, frame_rate));
    }
}

/// The first frame is due one interval after it was asked for; without an interval every
/// frame is due.
pub proof fn first_frame_waits_an_interval(now: int, interval: nat, deadline: Option<int>)
    ensures
        frame_step(now, Some(interval), None) == (false, Some(now + interval)),
        frame_step(now, None, deadline) == (true, None::<int>),
{
}

/// The line at the anchor is the brightest; lines grow darker with the distance, alike on
/// both sides, but never go out.
pub proof fn lines_fade_with_the_distance(anchor: int, near: int, far: int)
    requires
        0 <= near <= far,
    ensures
        line_brightness(anchor, anchor + near) == line_brightness(anchor, anchor - near),
        line_brightness(anchor, anchor + far) <= line_brightness(anchor, anchor + near),
        line_brightness(anchor, anchor) == 100,
        far >= 4 ==> line_brightness(anchor, anchor + far) == 16,
        near < far <= 4 ==> line_brightness(anchor, anchor + far) < line_brightness(
            anchor,
            anchor + near,
        ),
        line_brightness(anchor, anchor + 1) == 72 && line_brightness(anchor, anchor + 2) == 48
            && line_brightness(anchor, anchor + 3) == 30,
{
}

/// Progress is a part of the whole: nothing of it, all of it, or the time that has passed of
/// the time that it takes.
pub proof fn progress_is_a_part_of_the_whole(elapsed: Duration, total: Duration)
    ensures
        Progress::Nothing.fraction().0 == 0 && Progress::Nothing.fraction().1 > 0,
        Progress::Everything.fraction().0 == Progress::Everything.fraction().1
            && Progress::Everything.fraction().1 > 0,
        (Progress::Part { elapsed, total }).fraction() == (elapsed@, total@),
{
}

} // verus!
