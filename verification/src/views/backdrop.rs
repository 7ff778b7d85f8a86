//! The large cover with the lyrics on it.

use crate::icons::MediaIcon;
use crate::lyrics::line::text_of;
use crate::time::{Duration, NANOS_PER_MILLI};
use crate::views::layout::{pick, Layout};
use vstd::prelude::*;

verus! {

/// How long the pictures of two tracks fade into each other.
pub const TRACK_SWITCH_MILLIS: u64 = 420;

/// The pictures behind the lyrics: the one that fades in and the one that fades out.
#[derive(Debug)]
pub struct BackdropState {
    pub expanded: bool,
    /// It has grown to its full height and hides the rest of the window.
    pub fully_expanded: bool,
    pub current_url: Option<String>,
    pub previous_url: Option<String>,
    /// Flips with every picture.
    pub crossfade_phase: bool,
}

impl BackdropState {
    pub fn new() -> (state: Self)
        ensures
            !state.expanded && !state.fully_expanded && !state.crossfade_phase,
            state.current_url is None && state.previous_url is None,
    {
        BackdropState {
            expanded: false,
            fully_expanded: false,
            current_url: None,
            previous_url: None,
            crossfade_phase: false,
        }
    }

    pub fn set_expanded(&mut self, expanded: bool)
        ensures
            *final(self) == (BackdropState {
                expanded,
                fully_expanded: old(self).fully_expanded && expanded,
                ..*old(self)
            }),
    {
        self.expanded = expanded;
        if !expanded {
            self.fully_expanded = false;
        }
    }

    /// The icon on the cover of the bar: it opens the large cover or closes it.
    pub fn toggle_icon(&self) -> (icon: MediaIcon)
        ensures
            icon == (if self.expanded {
                MediaIcon::ChevronDown
            } else {
                MediaIcon::ChevronUp
            }),
    {
        if self.expanded {
            MediaIcon::ChevronDown
        } else {
            MediaIcon::ChevronUp
        }
    }

    /// The growth has reached its end, or not.
    pub fn on_growth(&mut self, complete: bool)
        ensures
            *final(self) == (BackdropState {
                fully_expanded: old(self).fully_expanded || (old(self).expanded && complete),
                ..*old(self)
            }),
    {
        if self.expanded && complete {
            self.fully_expanded = true;
        }
    }

    /// How long a new picture takes to fade in; it is there at once while nobody can
    /// see it.
    pub fn fade_duration(&self) -> (span: Duration)
        ensures
            span@ == (if self.expanded {
                TRACK_SWITCH_MILLIS * NANOS_PER_MILLI
            } else {
                0
            }),
    {
        if self.expanded {
            Duration::from_millis(TRACK_SWITCH_MILLIS)
        } else {
            Duration::zero()
        }
    }

    /// Shows a picture: a new one fades in over the one before.
    pub fn show(&mut self, url: &String)
        ensures
            final(self).expanded == old(self).expanded,
            final(self).fully_expanded == old(self).fully_expanded,
            text_of(final(self).current_url) == Some(url@),
            if text_of(old(self).current_url) == Some(url@) {
                *final(self) == *old(self)
            } else {
                final(self).previous_url == old(self).current_url && final(self).crossfade_phase
                    == !old(self).crossfade_phase
            },
    {
        let same: bool = match &self.current_url {
            Some(current) => current.eq(url),
            None => false,
        };
        if !same {
            let before = self.current_url.take();
            self.previous_url = before;
            self.current_url = Some(url.clone());
            self.crossfade_phase = !self.crossfade_phase;
        }
    }
}

/// The distances on the backdrop, in pixels.
#[derive(Clone, Copy, Debug, PartialEq, Eq, Structural)]
pub struct BackdropSizes {
    pub padding: u32,
    pub gap: u32,
    /// The cover stands beside the lyrics.
    pub shows_cover: bool,
    pub message_size: u32,
}

pub fn backdrop_sizes(layout: Layout) -> (sizes: BackdropSizes)
    ensures
        sizes == (BackdropSizes {
            padding: pick(layout, 48, 64, 96),
            gap: if layout.compact {
                64
            } else {
                96
            },
            shows_cover: !layout.narrow,
            message_size: if layout.narrow {
                24
            } else {
                28
            },
        }),
{
    BackdropSizes {
        padding: layout.pick(48, 64, 96),
        gap: if layout.compact {
            64
        } else {
            96
        },
        shows_cover: !layout.narrow,
        message_size: if layout.narrow {
            24
        } else {
            28
        },
    }
}

/// Lyrics of a new track appear a frame after its cover.
#[derive(Debug)]
pub struct LyricReveal {
    /// The track whose lyrics wait.
    pub pending_mid: Option<String>,
    pub frame_pending: bool,
}

impl LyricReveal {
    /// A track starts: its lyrics wait where they are on show.
    pub fn on_start(&mut self, mid: &String, expanded: bool)
        ensures
            text_of(final(self).pending_mid) == (if expanded {
                Some(mid@)
            } else {
                None
            }),
            final(self).frame_pending == old(self).frame_pending,
    {
        self.pending_mid = if expanded {
            Some(mid.clone())
        } else {
            None
        };
    }

    /// Whether the lyrics of a track still wait, and whether a frame is to be asked
    /// for.
    pub fn defer(&mut self, mid: &String) -> (decision: (bool, bool))
        ensures
            final(self).pending_mid == old(self).pending_mid,
            decision.0 == (text_of(old(self).pending_mid) == Some(mid@)),
            decision.1 == (decision.0 && !old(self).frame_pending),
            final(self).frame_pending == (old(self).frame_pending || decision.0),
    {
        let waits: bool = match &self.pending_mid {
            Some(pending) => pending.eq(mid),
            None => false,
        };
        if !waits {
            return (false, false);
        }
        if self.frame_pending {
            return (true, false);
        }
        self.frame_pending = true;
        (true, true)
    }

    /// The frame that was asked for has come.
    pub fn on_frame(&mut self, mid: &String)
        ensures
            !final(self).frame_pending,
            text_of(final(self).pending_mid) == (if text_of(old(self).pending_mid) == Some(mid@) {
                None
            } else {
                text_of(old(self).pending_mid)
            }),
    {
        self.frame_pending = false;
        let waits: bool = match &self.pending_mid {
            Some(pending) => pending.eq(mid),
            None => false,
        };
        if waits {
            self.pending_mid = None;
        }
    }
}

} // verus!
