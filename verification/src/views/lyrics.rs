//! The panel with the lyrics.

use crate::lyrics::line::{in_order, text_of, Line, LyricLine};
use crate::lyrics::parse::ParsedLyrics;
use crate::lyrics::store::TrackLyrics;
use crate::lyrics::timing::{
    combined_interval, combined_lyric_frame_interval, frame_step, lyric_frame_is_due,
    lyric_highlight_progress, point, progress_at, Progress,
};
use crate::playback::nanos_of;
use crate::settings::LyricFrameRate;
use crate::time::{Duration, Instant, NANOS_PER_MILLI, NANOS_PER_SECOND};
use vstd::prelude::*;

verus! {

/// What the panel shows.
#[derive(Debug)]
pub enum LyricsPanel {
    Message { title: &'static str, detail: Option<String> },
    /// The lines from `start` up to `end`, around the one that is sung.
    Lines { anchor: usize, start: usize, end: usize },
}

/// What is said in the place of lyrics.
pub open spec fn panel_message(state: TrackLyrics) -> Option<(Seq<char>, Option<Seq<char>>)> {
    match state.cached {
        Some(lyrics) => if lyrics.parsed@.len() == 0 {
            Some(("暂无歌词"@, None))
        } else {
            None
        },
        None => if state.loading {
            Some(("正在加载歌词…"@, None))
        } else {
            match state.error {
                Some(error) => Some(("歌词加载失败"@, Some(error@))),
                None => Some(("歌词暂未加载"@, None)),
            }
        },
    }
}

/// The line that the panel is centred on: the one that is sung, and before the first
/// the first.
pub open spec fn anchored(lines: Seq<Line>, position: nat, anchor: int) -> bool {
    &&& 0 <= anchor < lines.len()
    &&& if lines[0].start > position {
        anchor == 0
    } else {
        lines[anchor].start <= position && (anchor + 1 < lines.len() ==> lines[anchor + 1].start
            > position)
    }
}

/// Composes the panel; `radius` lines are drawn on each side of the one that is sung.
pub fn lyrics_panel(state: &TrackLyrics, position: Duration, radius: usize) -> (panel: LyricsPanel)
    requires
        state.cached matches Some(lyrics) ==> lyrics.parsed.wf() && lyrics.parsed@.len() + radius
            <= usize::MAX,
    ensures
        match (panel_message(*state), panel) {
            (Some((text, more)), LyricsPanel::Message { title, detail }) => title@ == text
                && text_of(detail) == more,
            (None, LyricsPanel::Lines { anchor, start, end }) => {
                let lines = state.cached.unwrap().parsed@;
                &&& anchored(lines, position@, anchor as int)
                &&& start == (if anchor >= radius {
                    anchor - radius
                } else {
                    0
                })
                &&& end == (if anchor + radius + 1 <= lines.len() {
                    anchor + radius + 1
                } else {
                    lines.len() as int
                })
                &&& start <= anchor < end
            },
            _ => false,
        },
{
    match &state.cached {
        None => if state.loading {
            LyricsPanel::Message { title: "正在加载歌词…", detail: None }
        } else {
            match &state.error {
                Some(error) => LyricsPanel::Message {
                    title: "歌词加载失败",
                    detail: Some(error.clone()),
                },
                None => LyricsPanel::Message { title: "歌词暂未加载", detail: None },
            }
        },
        Some(lyrics) => {
            let count: usize = lyrics.parsed.lines.len();
            assert(lyrics.parsed@.len() == count);
            if count == 0 {
                return LyricsPanel::Message { title: "暂无歌词", detail: None };
            }
            let anchor: usize = match lyrics.parsed.active_index(position) {
                Some(index) => index,
                None => 0,
            };
            assert(anchored(lyrics.parsed@, position@, anchor as int)) by {
                if anchor > 0 {
                    assert(lyrics.parsed@[0].start <= lyrics.parsed@[anchor as int].start);
                }
            }
            let start: usize = if anchor >= radius {
                anchor - radius
            } else {
                0
            };
            let reach: usize = anchor + radius + 1;
            let end: usize = if reach <= count {
                reach
            } else {
                count
            };
            LyricsPanel::Lines { anchor, start, end }
        },
    }
}

/// When a line ends: where the next begins, and the last with the track, or with its
/// last word where the length of the track is not known.
pub open spec fn end_of_line(lines: Seq<Line>, index: int, duration: Option<nat>) -> nat {
    if index + 1 < lines.len() {
        lines[index + 1].start
    } else {
        match duration {
            Some(duration) => duration,
            None => if lines[index].words.len() > 0 {
                lines[index].words.last().end
            } else {
                lines[index].start
            },
        }
    }
}

pub fn line_end(lyrics: &ParsedLyrics, index: usize, duration: Option<Duration>) -> (end: Duration)
    requires
        index < lyrics@.len(),
    ensures
        end@ == end_of_line(lyrics@, index as int, nanos_of(duration)),
{
    let count: usize = lyrics.lines.len();
    if index + 1 < count {
        assert(lyrics@[index + 1] == lyrics.lines@[index + 1]@);
        return lyrics.lines[index + 1].start;
    }
    match duration {
        Some(duration) => duration,
        None => {
            let line = &lyrics.lines[index];
            assert(lyrics@[index as int] == line@);
            let words: usize = line.words.len();
            if words > 0 {
                assert(line@.words[words - 1] == line.words@[words - 1]@);
                line.words[words - 1].end
            } else {
                line.start
            }
        },
    }
}

/// How far the current line has come, where its words have no times of their own.
pub fn estimated_progress(line: &LyricLine, end: Duration, current: bool, position: Duration) -> (progress:
    Option<Progress>)
    ensures
        match progress {
            Some(progress) => current && line@.words.len() == 0 && end@ > line@.start
                && progress.fraction() == progress_at(line@.start, end@, position@),
            None => !current || line@.words.len() > 0 || end@ <= line@.start,
        },
{
    if current && line.words.len() == 0 && line.start.is_below(end) {
        Some(lyric_highlight_progress(line.start, end, position))
    } else {
        None
    }
}

/// Twenty-five frames a second are enough for a window in the background.
pub const INACTIVE_FRAME_MILLIS: u64 = 40;

/// How often a window in the background is drawn.
pub fn inactive_window_frame_interval(
    backdrop_expanded: bool,
    highlight: LyricFrameRate,
    scroll: LyricFrameRate,
) -> (interval: Option<Duration>)
    ensures
        nanos_of(interval) == (if backdrop_expanded {
            combined_interval(highlight, scroll)
        } else {
            Some((INACTIVE_FRAME_MILLIS * NANOS_PER_MILLI) as nat)
        }),
{
    if backdrop_expanded {
        combined_lyric_frame_interval(highlight, scroll)
    } else {
        Some(Duration::from_millis(INACTIVE_FRAME_MILLIS))
    }
}

/// The frames in which lyrics are lit and scrolled.
#[derive(Clone, Copy, Debug, PartialEq, Eq, Structural)]
pub struct LyricFrames {
    /// A frame has been asked for.
    pub pending: bool,
    pub next_highlight: Option<Instant>,
    pub next_scroll: Option<Instant>,
}

/// What a frame leads to.
#[derive(Clone, Copy, Debug, PartialEq, Eq, Structural)]
pub enum FrameAction {
    /// Lyrics no longer move.
    Stop,
    /// Ask for the next frame, and draw now or not.
    Continue { draw: bool },
}

impl LyricFrames {
    pub fn reset(&mut self)
        ensures
            *final(self) == (LyricFrames {
                next_highlight: None,
                next_scroll: None,
                ..*old(self)
            }),
    {
        self.next_highlight = None;
        self.next_scroll = None;
    }

    /// Asks for a frame, unless one has been asked for.
    pub fn request(&mut self) -> (ask: bool)
        ensures
            ask == !old(self).pending,
            *final(self) == (LyricFrames { pending: true, ..*old(self) }),
    {
        if self.pending {
            return false;
        }
        self.pending = true;
        true
    }

    /// A frame has come.
    pub fn on_frame(
        &mut self,
        now: Instant,
        moving: bool,
        scrolling: bool,
        highlight: LyricFrameRate,
        scroll: LyricFrameRate,
    ) -> (action: FrameAction)
        requires
            now.nanos + NANOS_PER_SECOND <= u128::MAX,
        ensures
            !final(self).pending,
            !moving ==> action == FrameAction::Stop && final(self).next_highlight is None
                && final(self).next_scroll is None,
            moving ==> {
                let (lit, next_highlight) = frame_step(
                    now.nanos as int,
                    highlight.interval_nanos(),
                    point(old(self).next_highlight),
                );
                let (scrolled, next_scroll) = if scrolling {
                    frame_step(
                        now.nanos as int,
                        scroll.interval_nanos(),
                        point(old(self).next_scroll),
                    )
                } else {
                    (false, None)
                };
                &&& action == (FrameAction::Continue { draw: lit || scrolled })
                &&& point(final(self).next_highlight) == next_highlight
                &&& point(final(self).next_scroll) == next_scroll
            },
    {
        self.pending = false;
        if !moving {
            self.reset();
            return FrameAction::Stop;
        }
        let lit = lyric_frame_is_due(now, highlight, &mut self.next_highlight);
        let scrolled: bool = if scrolling {
            lyric_frame_is_due(now, scroll, &mut self.next_scroll)
        } else {
            self.next_scroll = None;
            false
        };
        FrameAction::Continue { draw: lit || scrolled }
    }
}

/// A line lasts until the next one begins, and the last to the end of the track.
pub proof fn lines_last_until_the_next(lines: Seq<Line>, index: int, duration: Option<nat>)
    requires
        0 <= index < lines.len(),
    ensures
        index < lines.len() - 1 ==> end_of_line(lines, index, duration) == lines[index + 1].start,
        index == lines.len() - 1 && duration is Some ==> end_of_line(lines, index, duration)
            == duration.unwrap(),
        index == lines.len() - 1 && duration is None && lines[index].words.len() > 0
            ==> end_of_line(lines, index, duration) == lines[index].words[lines[index].words.len()
            - 1].end,
        index == lines.len() - 1 && duration is None && lines[index].words.len() == 0
            ==> end_of_line(lines, index, duration) == lines[index].start,
{
}

/// The panel is centred on the last line that has started, and on the first before any has:
/// for lines in order that is one line at every position.
pub proof fn one_line_is_the_anchor(lines: Seq<Line>, position: nat, anchor: int, other: int)
    requires
        in_order(lines),
        anchored(lines, position, anchor),
    ensures
        lines[0].start > position ==> anchor == 0,
        lines[0].start <= position ==> lines[anchor].start <= position && forall|i: int|
            anchor < i < lines.len() ==> (#[trigger] lines[i]).start > position,
        anchored(lines, position, other) ==> other == anchor,
{
    if lines[0].start <= position {
        assert forall|i: int| anchor < i < lines.len() implies (#[trigger] lines[i]).start
            > position by {
            if i > anchor + 1 {
                assert(lines[anchor + 1].start <= lines[i].start);
            }
        }
        if anchored(lines, position, other) {
            if other > anchor {
                assert(lines[other].start > position);
            } else if other < anchor {
                if other + 1 < anchor {
                    assert(lines[other + 1].start <= lines[anchor].start);
                }
            }
        }
    }
}

/// Lyrics that are there are shown; in the place of those that are not stands whether none
/// are known, they are being loaded, or that failed.
pub proof fn lyrics_that_are_there_are_shown(state: TrackLyrics)
    ensures
        state.cached matches Some(lyrics) ==> (panel_message(state) is None <==> lyrics.parsed@.len()
            > 0),
        state.cached is None ==> panel_message(state) is Some,
        state.cached is None && !state.loading && state.error is Some ==> panel_message(
            state,
        ).unwrap().1 == Some(state.error.unwrap()@),
        state.cached is None && (state.loading || state.error is None) ==> panel_message(
            state,
        ).unwrap().1 is None,
{
}

} // verus!
