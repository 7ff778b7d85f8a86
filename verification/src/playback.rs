//! What plays, and what a wish of the listener or the end of a track leads to.

use crate::catalog::Quality;
use crate::queue::RepeatMode;
use crate::settings::PersistedQueueContinuation;
use crate::time::{at_most, Duration, NANOS_PER_MILLI};
use vstd::prelude::*;

verus! {

/// From this position on, going back starts the track over.
pub const RESTART_AFTER_NANOS: u64 = 3_000_000_000;

/// How often the position is read while a track plays.
pub const PROGRESS_TICK_MILLIS: u64 = 250;

/// What the audio output reports.
#[derive(Clone, Copy, Debug, PartialEq, Eq, Structural)]
pub struct AudioStatus {
    pub playing: bool,
    /// Nothing is left to play.
    pub empty: bool,
    pub position: Duration,
}

/// The state of playback.
#[derive(Clone, Copy, Debug, PartialEq, Eq, Structural)]
pub struct Playback {
    /// The track that plays or is about to, by its place in the queue.
    pub current_track: Option<usize>,
    /// The track that is being loaded.
    pub loading_track: Option<usize>,
    /// Whether it plays once it is loaded.
    pub loading_autoplay: bool,
    pub resolving_qualities: bool,
    pub playback_started: bool,
    pub position: Duration,
    pub seek_preview: Option<Duration>,
    pub active_quality: Quality,
    pub quality_menu_open: bool,
    pub shuffle: bool,
    pub repeat_mode: RepeatMode,
    /// Counts what was started; reports for an earlier count come too late.
    pub play_generation: u64,
    pub queue_generation: u64,
    pub queue_recommendation_loading: bool,
    pub queue_waiting_for_recommendation: bool,
}

/// What a `Playback` says, times in nanoseconds.
pub struct PlaybackView {
    pub current_track: Option<usize>,
    pub loading_track: Option<usize>,
    pub loading_autoplay: bool,
    pub resolving_qualities: bool,
    pub playback_started: bool,
    pub position: nat,
    pub seek_preview: Option<nat>,
    pub active_quality: Quality,
    pub quality_menu_open: bool,
    pub shuffle: bool,
    pub repeat_mode: RepeatMode,
    pub play_generation: u64,
    pub queue_generation: u64,
    pub queue_recommendation_loading: bool,
    pub queue_waiting_for_recommendation: bool,
}

pub open spec fn nanos_of(span: Option<Duration>) -> Option<nat> {
    match span {
        Some(span) => Some(span@),
        None => None,
    }
}

impl View for Playback {
    type V = PlaybackView;

    open spec fn view(&self) -> PlaybackView {
        PlaybackView {
            current_track: self.current_track,
            loading_track: self.loading_track,
            loading_autoplay: self.loading_autoplay,
            resolving_qualities: self.resolving_qualities,
            playback_started: self.playback_started,
            position: self.position@,
            seek_preview: nanos_of(self.seek_preview),
            active_quality: self.active_quality,
            quality_menu_open: self.quality_menu_open,
            shuffle: self.shuffle,
            repeat_mode: self.repeat_mode,
            play_generation: self.play_generation,
            queue_generation: self.queue_generation,
            queue_recommendation_loading: self.queue_recommendation_loading,
            queue_waiting_for_recommendation: self.queue_waiting_for_recommendation,
        }
    }
}

/// What is to be done next.
#[derive(Clone, Copy, Debug, PartialEq, Eq, Structural)]
pub enum PlaybackAction {
    Nothing,
    /// Play the first track of the list that is shown.
    SelectFirst,
    /// Load a track of the queue from a position on.
    Start { index: usize, resume_at: Duration, quality: Option<Quality>, autoplay: bool },
    /// Pause what plays, or go on with it.
    Toggle,
    /// Wait for more recommendations, and ask for them.
    AwaitRecommendations,
    /// The queue has ended.
    EndQueue,
}

impl PlaybackAction {
    pub open spec fn status(self, playing: bool) -> Option<Seq<char>> {
        match self {
            PlaybackAction::Toggle => Some(
                if playing {
                    "继续播放"@
                } else {
                    "已暂停"@
                },
            ),
            PlaybackAction::AwaitRecommendations => Some("正在获取下一首推荐…"@),
            PlaybackAction::EndQueue => Some("当前播放队列已结束"@),
            _ => None,
        }
    }

    /// What is said once it was done. `playing` says whether something plays by then.
    pub fn status_text(self, playing: bool) -> (text: Option<&'static str>)
        ensures
            match text {
                Some(text) => self.status(playing) == Some(text@),
                None => self.status(playing) is None,
            },
    {
        match self {
            PlaybackAction::Toggle => Some(
                if playing {
                    "继续播放"
                } else {
                    "已暂停"
                },
            ),
            PlaybackAction::AwaitRecommendations => Some("正在获取下一首推荐…"),
            PlaybackAction::EndQueue => Some("当前播放队列已结束"),
            _ => None,
        }
    }
}

/// What a `PlaybackAction` says.
pub enum Act {
    Nothing,
    SelectFirst,
    Start { index: int, resume_at: nat, quality: Option<Quality>, autoplay: bool },
    Toggle,
    AwaitRecommendations,
    EndQueue,
}

impl View for PlaybackAction {
    type V = Act;

    open spec fn view(&self) -> Act {
        match self {
            PlaybackAction::Nothing => Act::Nothing,
            PlaybackAction::SelectFirst => Act::SelectFirst,
            PlaybackAction::Start { index, resume_at, quality, autoplay } => Act::Start {
                index: *index as int,
                resume_at: resume_at@,
                quality: *quality,
                autoplay: *autoplay,
            },
            PlaybackAction::Toggle => Act::Toggle,
            PlaybackAction::AwaitRecommendations => Act::AwaitRecommendations,
            PlaybackAction::EndQueue => Act::EndQueue,
        }
    }
}

pub open spec fn next_count(count: u64) -> u64 {
    if count == u64::MAX {
        0
    } else {
        (count + 1) as u64
    }
}

/// Starts a track over, in the preferred quality.
pub open spec fn start_anew(index: int) -> Act {
    Act::Start { index, resume_at: 0, quality: None, autoplay: true }
}

/// The whole microseconds of a span, as far as 63 bits hold them.
pub open spec fn micros(nanos: nat) -> int {
    let count = nanos as int / 1000;
    if count <= i64::MAX {
        count
    } else {
        i64::MAX as int
    }
}

pub fn duration_micros(duration: Duration) -> (result: i64)
    ensures
        result == micros(duration@),
        result >= 0,
{
    let count: u128 = duration.as_micros();
    if count <= i64::MAX as u128 {
        count as i64
    } else {
        i64::MAX
    }
}

/// The length of a track in microseconds, as far as 63 bits hold it.
pub open spec fn length_micros(seconds: u64) -> int {
    if seconds * 1_000_000 <= i64::MAX {
        seconds * 1_000_000
    } else {
        i64::MAX as int
    }
}

pub fn track_length_micros(seconds: u64) -> (result: i64)
    ensures
        result == length_micros(seconds),
        result >= 0,
{
    let count: u128 = seconds as u128 * 1_000_000;
    if count <= i64::MAX as u128 {
        count as i64
    } else {
        i64::MAX
    }
}

impl PlaybackView {
    /// The state once all that plays was forgotten; shuffling and repeating stay.
    pub open spec fn forgotten(self, preferred: Quality) -> PlaybackView {
        PlaybackView {
            current_track: None,
            loading_track: None,
            loading_autoplay: false,
            resolving_qualities: false,
            playback_started: false,
            position: 0,
            active_quality: preferred,
            quality_menu_open: false,
            play_generation: next_count(self.play_generation),
            queue_generation: next_count(self.queue_generation),
            queue_recommendation_loading: false,
            queue_waiting_for_recommendation: false,
            ..self
        }
    }

    pub open spec fn advancing(self, audio: Option<AudioStatus>) -> bool {
        self.playback_started && self.loading_track is None && audio is Some
            && audio.unwrap().playing
    }

    /// What pressing play or pause leads to, where `tracks_shown` says whether a
    /// list with tracks is shown.
    pub open spec fn toggled(self, audio: Option<AudioStatus>, tracks_shown: bool) -> Act {
        if self.loading_track is Some {
            Act::Nothing
        } else if self.current_track is None {
            if tracks_shown {
                Act::SelectFirst
            } else {
                Act::Nothing
            }
        } else if audio is None {
            Act::Nothing
        } else if !self.playback_started || audio.unwrap().empty {
            start_anew(self.current_track.unwrap() as int)
        } else {
            Act::Toggle
        }
    }

    /// What a wish to play leads to: as pressing play, but what plays goes on.
    pub open spec fn played(self, audio: Option<AudioStatus>, tracks_shown: bool) -> Act {
        let act = self.toggled(audio, tracks_shown);
        if act == Act::Toggle && audio.unwrap().playing {
            Act::Nothing
        } else {
            act
        }
    }

    /// What a wish to pause leads to.
    pub open spec fn paused(self, audio: Option<AudioStatus>, tracks_shown: bool) -> Act {
        if self.loading_track is None && audio is Some && audio.unwrap().playing {
            self.toggled(audio, tracks_shown)
        } else {
            Act::Nothing
        }
    }

    /// The state once playback was stopped: nothing is loaded, and the track is at its
    /// start.
    pub open spec fn stopped(self) -> PlaybackView {
        if self.current_track is None {
            self
        } else {
            PlaybackView {
                play_generation: next_count(self.play_generation),
                loading_track: None,
                loading_autoplay: false,
                resolving_qualities: false,
                playback_started: false,
                position: 0,
                seek_preview: None,
                ..self
            }
        }
    }

    /// What a seek leads to: the current track from there on, in the quality it has,
    /// never behind its end.
    pub open spec fn sought(self, target: nat, duration: Option<nat>, audio: Option<AudioStatus>) -> Act {
        match self.current_track {
            None => Act::Nothing,
            Some(index) => Act::Start {
                index: index as int,
                resume_at: match duration {
                    Some(duration) => at_most(target, duration),
                    None => target,
                },
                quality: Some(self.active_quality),
                autoplay: audio is Some && audio.unwrap().playing,
            },
        }
    }

    /// What going back leads to: the start of the track after its first seconds, and
    /// else the track before; from the first the last where all repeat.
    pub open spec fn previous(self, queue_len: int, duration: Option<nat>, audio: Option<AudioStatus>) -> Act {
        match self.current_track {
            None => Act::Nothing,
            Some(index) => if self.position >= RESTART_AFTER_NANOS {
                self.sought(0, duration, audio)
            } else if index > 0 {
                start_anew(index - 1)
            } else if self.repeat_mode == RepeatMode::All && queue_len > 0 {
                start_anew(queue_len - 1)
            } else {
                Act::Nothing
            },
        }
    }

    /// What going on leads to, on the listener's wish or by itself at the end of a
    /// track. `random` is a track other than the current one.
    pub open spec fn following(
        self,
        automatic: bool,
        queue_len: int,
        continuation: Option<PersistedQueueContinuation>,
        random: int,
    ) -> Act {
        let can_extend = continuation is Some && continuation.unwrap().has_next();
        match self.current_track {
            None => Act::Nothing,
            Some(index) => if queue_len == 0 {
                Act::Nothing
            } else if automatic && self.repeat_mode == RepeatMode::One {
                start_anew(index as int)
            } else if continuation is None && self.shuffle && queue_len > 1 {
                start_anew(random)
            } else if index + 1 < queue_len {
                start_anew(index + 1)
            } else if !can_extend && self.repeat_mode == RepeatMode::All {
                start_anew(0)
            } else if can_extend {
                Act::AwaitRecommendations
            } else {
                Act::EndQueue
            },
        }
    }

    /// The state that going on leaves: waiting for recommendations, or at the end of
    /// the last track.
    pub open spec fn after(self, act: Act, duration: Option<nat>) -> PlaybackView {
        match act {
            Act::AwaitRecommendations => PlaybackView {
                playback_started: false,
                queue_waiting_for_recommendation: true,
                ..self
            },
            Act::EndQueue => PlaybackView {
                playback_started: false,
                position: match duration {
                    Some(duration) => duration,
                    None => 0,
                },
                ..self
            },
            _ => self,
        }
    }

    /// The position that a moment of playback leads to.
    pub open spec fn ticked_position(self, audio: Option<AudioStatus>) -> nat {
        if self.seek_preview is None && self.loading_track is None && self.playback_started {
            match audio {
                Some(audio) => audio.position@,
                None => 0,
            }
        } else {
            self.position
        }
    }

    /// The track has ended.
    pub open spec fn ended(self, audio: Option<AudioStatus>) -> bool {
        self.playback_started && self.loading_track is None && audio is Some
            && audio.unwrap().empty
    }

    /// The state after a moment of playback.
    pub open spec fn ticked(self, audio: Option<AudioStatus>) -> PlaybackView {
        PlaybackView {
            position: self.ticked_position(audio),
            playback_started: self.playback_started && !self.ended(audio),
            ..self
        }
    }
}

/// A track other than the current one, chosen by a number: each other track for one
/// of `len - 1` numbers in a row.
pub open spec fn other_track(seed: int, current: int, len: int) -> int {
    let candidate = seed % (len - 1);
    if candidate >= current {
        candidate + 1
    } else {
        candidate
    }
}

pub fn random_track_index(seed: usize, current: usize, len: usize) -> (index: usize)
    requires
        len >= 2,
    ensures
        index == other_track(seed as int, current as int, len as int),
        index < len,
{
    let candidate: usize = seed % (len - 1);
    if candidate >= current {
        candidate + 1
    } else {
        candidate
    }
}

/// A shuffled step never repeats the current track, stays in the queue, and can lead
/// to every other track.
pub proof fn shuffling_reaches_every_other_track(seed: int, current: int, len: int, wanted: int)
    requires
        len >= 2,
        0 <= seed,
        0 <= current < len,
        0 <= wanted < len,
        wanted != current,
    ensures
        0 <= other_track(seed, current, len) < len,
        other_track(seed, current, len) != current,
        exists|s: int| 0 <= s < len - 1 && #[trigger] other_track(s, current, len) == wanted,
{
    let s = if wanted > current {
        wanted - 1
    } else {
        wanted
    };
    assert(s % (len - 1) == s) by (nonlinear_arith)
        requires
            0 <= s < len - 1,
    ;
    assert(other_track(s, current, len) == wanted);
    assert(0 <= seed % (len - 1) < len - 1) by (nonlinear_arith)
        requires
            len >= 2,
            seed >= 0,
    ;
}

impl Playback {
    /// Nothing plays yet.
    pub fn new(quality: Quality) -> (playback: Self)
        ensures
            playback@ == (PlaybackView {
                current_track: None,
                loading_track: None,
                loading_autoplay: false,
                resolving_qualities: false,
                playback_started: false,
                position: 0,
                seek_preview: None,
                active_quality: quality,
                quality_menu_open: false,
                shuffle: false,
                repeat_mode: RepeatMode::Off,
                play_generation: 0,
                queue_generation: 0,
                queue_recommendation_loading: false,
                queue_waiting_for_recommendation: false,
            }),
    {
        Playback {
            current_track: None,
            loading_track: None,
            loading_autoplay: false,
            resolving_qualities: false,
            playback_started: false,
            position: Duration::zero(),
            seek_preview: None,
            active_quality: quality,
            quality_menu_open: false,
            shuffle: false,
            repeat_mode: RepeatMode::Off,
            play_generation: 0,
            queue_generation: 0,
            queue_recommendation_loading: false,
            queue_waiting_for_recommendation: false,
        }
    }

    /// Forgets what plays, as when the listener signs out; shuffling and repeating
    /// stay.
    pub fn reset(&mut self, preferred: Quality)
        ensures
            final(self)@ == old(self)@.forgotten(preferred),
    {
        self.queue_generation = self.queue_generation.wrapping_add(1);
        self.play_generation = self.play_generation.wrapping_add(1);
        self.queue_recommendation_loading = false;
        self.queue_waiting_for_recommendation = false;
        self.current_track = None;
        self.loading_track = None;
        self.loading_autoplay = false;
        self.resolving_qualities = false;
        self.playback_started = false;
        self.active_quality = preferred;
        self.quality_menu_open = false;
        self.position = Duration::zero();
    }

    pub fn playback_is_advancing(&self, audio: Option<AudioStatus>) -> (result: bool)
        ensures
            result == self@.advancing(audio),
    {
        let playing: bool = match audio {
            Some(audio) => audio.playing,
            None => false,
        };
        self.playback_started && self.loading_track.is_none() && playing
    }

    /// How long to wait before the position is read again; nothing changes by itself
    /// while nothing advances.
    pub fn tick_interval(&self, audio: Option<AudioStatus>) -> (interval: Option<Duration>)
        ensures
            nanos_of(interval) == (if self@.advancing(audio) {
                Some((PROGRESS_TICK_MILLIS * NANOS_PER_MILLI) as nat)
            } else {
                None
            }),
    {
        if self.playback_is_advancing(audio) {
            Some(Duration::from_millis(PROGRESS_TICK_MILLIS))
        } else {
            None
        }
    }

    pub fn toggle_playback(&self, audio: Option<AudioStatus>, tracks_shown: bool) -> (action:
        PlaybackAction)
        ensures
            action@ == self@.toggled(audio, tracks_shown),
    {
        if self.loading_track.is_some() {
            return PlaybackAction::Nothing;
        }
        match self.current_track {
            None => if tracks_shown {
                PlaybackAction::SelectFirst
            } else {
                PlaybackAction::Nothing
            },
            Some(index) => match audio {
                None => PlaybackAction::Nothing,
                Some(audio) => if !self.playback_started || audio.empty {
                    PlaybackAction::Start {
                        index,
                        resume_at: Duration::zero(),
                        quality: None,
                        autoplay: true,
                    }
                } else {
                    PlaybackAction::Toggle
                },
            },
        }
    }

    pub fn play(&self, audio: Option<AudioStatus>, tracks_shown: bool) -> (action: PlaybackAction)
        ensures
            action@ == self@.played(audio, tracks_shown),
    {
        let action = self.toggle_playback(audio, tracks_shown);
        let playing: bool = match audio {
            Some(audio) => audio.playing,
            None => false,
        };
        match action {
            PlaybackAction::Toggle => if playing {
                PlaybackAction::Nothing
            } else {
                action
            },
            _ => action,
        }
    }

    pub fn pause_playback(&self, audio: Option<AudioStatus>, tracks_shown: bool) -> (action:
        PlaybackAction)
        ensures
            action@ == self@.paused(audio, tracks_shown),
    {
        let playing: bool = match audio {
            Some(audio) => audio.playing,
            None => false,
        };
        if self.loading_track.is_none() && playing {
            self.toggle_playback(audio, tracks_shown)
        } else {
            PlaybackAction::Nothing
        }
    }

    /// Stops playback, and says whether there was any.
    pub fn stop_playback(&mut self) -> (stopped: bool)
        ensures
            final(self)@ == old(self)@.stopped(),
            stopped == (old(self)@.current_track is Some),
    {
        if self.current_track.is_none() {
            return false;
        }
        self.play_generation = self.play_generation.wrapping_add(1);
        self.loading_track = None;
        self.loading_autoplay = false;
        self.resolving_qualities = false;
        self.playback_started = false;
        self.position = Duration::zero();
        self.seek_preview = None;
        true
    }

    /// The slider of the progress is dragged to `target`; without a track nothing is.
    pub fn preview_seek(&mut self, target: Option<Duration>)
        ensures
            final(self)@ == (PlaybackView { seek_preview: nanos_of(target), ..old(self)@ }),
    {
        self.seek_preview = target;
    }

    /// The slider is let go at `target`: the track goes on from there.
    pub fn release_seek(
        &mut self,
        target: Option<Duration>,
        duration: Option<Duration>,
        audio: Option<AudioStatus>,
    ) -> (action: PlaybackAction)
        ensures
            final(self)@ == (PlaybackView { seek_preview: None, ..old(self)@ }),
            action@ == (match target {
                Some(target) => old(self)@.sought(target@, nanos_of(duration), audio),
                None => Act::Nothing,
            }),
    {
        self.seek_preview = None;
        match target {
            Some(target) => self.seek_to(target, duration, audio),
            None => PlaybackAction::Nothing,
        }
    }

    pub fn seek_to(
        &self,
        target: Duration,
        duration: Option<Duration>,
        audio: Option<AudioStatus>,
    ) -> (action: PlaybackAction)
        ensures
            action@ == self@.sought(target@, nanos_of(duration), audio),
    {
        match self.current_track {
            None => PlaybackAction::Nothing,
            Some(index) => PlaybackAction::Start {
                index,
                resume_at: match duration {
                    Some(duration) => target.shorter(duration),
                    None => target,
                },
                quality: Some(self.active_quality),
                autoplay: match audio {
                    Some(audio) => audio.playing,
                    None => false,
                },
            },
        }
    }

    pub fn play_previous(
        &self,
        queue_len: usize,
        duration: Option<Duration>,
        audio: Option<AudioStatus>,
    ) -> (action: PlaybackAction)
        ensures
            action@ == self@.previous(queue_len as int, nanos_of(duration), audio),
    {
        match self.current_track {
            None => PlaybackAction::Nothing,
            Some(index) => {
                if Duration::from_nanos(RESTART_AFTER_NANOS).is_at_most(self.position) {
                    return self.seek_to(Duration::zero(), duration, audio);
                }
                if index > 0 {
                    PlaybackAction::Start {
                        index: index - 1,
                        resume_at: Duration::zero(),
                        quality: None,
                        autoplay: true,
                    }
                } else if self.repeat_mode == RepeatMode::All && queue_len > 0 {
                    PlaybackAction::Start {
                        index: queue_len - 1,
                        resume_at: Duration::zero(),
                        quality: None,
                        autoplay: true,
                    }
                } else {
                    PlaybackAction::Nothing
                }
            },
        }
    }

    /// Goes on to the next track.
    pub fn play_next(
        &mut self,
        automatic: bool,
        queue_len: usize,
        continuation: Option<PersistedQueueContinuation>,
        seed: usize,
        duration: Option<Duration>,
    ) -> (action: PlaybackAction)
        ensures
            action@ == old(self)@.following(
                automatic,
                queue_len as int,
                continuation,
                other_track(
                    seed as int,
                    old(self).current_track.unwrap() as int,
                    queue_len as int,
                ),
            ),
            final(self)@ == old(self)@.after(action@, nanos_of(duration)),
    {
        let index: usize = match self.current_track {
            None => {
                return PlaybackAction::Nothing;
            },
            Some(index) => index,
        };
        if queue_len == 0 {
            return PlaybackAction::Nothing;
        }
        let can_extend: bool = match continuation {
            Some(continuation) => continuation.can_load_more(),
            None => false,
        };
        let next: Option<usize> = if automatic && self.repeat_mode == RepeatMode::One {
            Some(index)
        } else if continuation.is_none() && self.shuffle && queue_len > 1 {
            Some(random_track_index(seed, index, queue_len))
        } else if index < queue_len && index + 1 < queue_len {
            Some(index + 1)
        } else if !can_extend && self.repeat_mode == RepeatMode::All {
            Some(0)
        } else {
            None
        };
        match next {
            Some(next) => PlaybackAction::Start {
                index: next,
                resume_at: Duration::zero(),
                quality: None,
                autoplay: true,
            },
            None => {
                self.playback_started = false;
                if can_extend {
                    self.queue_waiting_for_recommendation = true;
                    PlaybackAction::AwaitRecommendations
                } else {
                    self.position = match duration {
                        Some(duration) => duration,
                        None => Duration::zero(),
                    };
                    PlaybackAction::EndQueue
                }
            },
        }
    }

    /// Follows the audio output for a moment, and says whether the track has ended.
    pub fn tick(&mut self, audio: Option<AudioStatus>) -> (ended: bool)
        ensures
            final(self)@ == old(self)@.ticked(audio),
            ended == old(self)@.ended(audio),
    {
        if self.seek_preview.is_none() && self.loading_track.is_none() && self.playback_started {
            self.position = match audio {
                Some(audio) => audio.position,
                None => Duration::zero(),
            };
        }
        let empty: bool = match audio {
            Some(audio) => audio.empty,
            None => false,
        };
        let ended = self.playback_started && self.loading_track.is_none() && empty;
        if ended {
            self.playback_started = false;
        }
        ended
    }
}

/// Whatever going on leads to, it stays in the queue.
pub proof fn next_track_is_in_queue(
    playback: PlaybackView,
    automatic: bool,
    queue_len: int,
    continuation: Option<PersistedQueueContinuation>,
    seed: int,
)
    requires
        0 <= seed,
        playback.current_track matches Some(index) ==> index < queue_len,
    ensures
        playback.following(
            automatic,
            queue_len,
            continuation,
            other_track(seed, playback.current_track.unwrap() as int, queue_len),
        ) matches Act::Start { index, .. } ==> 0 <= index < queue_len,
{
    if queue_len >= 2 {
        assert(0 <= seed % (queue_len - 1) < queue_len - 1) by (nonlinear_arith)
            requires
                queue_len >= 2,
                seed >= 0,
        ;
    }
}

/// With all tracks repeating, going on from the last track leads to the first, and
/// going back from the first leads to the last.
pub proof fn repeating_all_is_a_circle(playback: PlaybackView, queue_len: int, random: int)
    requires
        queue_len > 0,
        playback.repeat_mode == RepeatMode::All,
        !playback.shuffle,
        playback.position < RESTART_AFTER_NANOS,
        playback.current_track is Some,
        playback.current_track.unwrap() < queue_len,
    ensures
        ({
            let index = playback.current_track.unwrap() as int;
            &&& playback.following(false, queue_len, None, random) == start_anew(
                if index + 1 == queue_len {
                    0
                } else {
                    index + 1
                },
            )
            &&& playback.previous(queue_len, None, None) == start_anew(
                if index == 0 {
                    queue_len - 1
                } else {
                    index - 1
                },
            )
        }),
{
}

/// What remote control asks for by an offset or a position.
pub enum SeekWish {
    Nothing,
    Next,
    To(Duration),
}

impl Playback {
    /// Where seeking by an offset leads: behind the end to the next track, and never
    /// before the start.
    pub fn seek_by(
        &self,
        offset_micros: i64,
        duration: Option<Duration>,
        audio: Option<AudioStatus>,
    ) -> (wish: SeekWish)
        ensures
            match wish {
                SeekWish::Nothing => self@.loading_track is Some || !self@.playback_started
                    || duration is None,
                SeekWish::Next => self@.loading_track is None && self@.playback_started && duration
                    is Some && seek_target(self@, offset_micros, audio) >= micros(
                    duration.unwrap()@,
                ),
                SeekWish::To(target) => self@.loading_track is None && self@.playback_started
                    && duration is Some && seek_target(self@, offset_micros, audio) < micros(
                    duration.unwrap()@,
                ) && target@ == seek_target(self@, offset_micros, audio) * 1000,
            },
    {
        if self.loading_track.is_some() || !self.playback_started {
            return SeekWish::Nothing;
        }
        match duration {
            None => SeekWish::Nothing,
            Some(duration) => {
                let position = match audio {
                    Some(audio) => audio.position,
                    None => self.position,
                };
                let wished: i128 = duration_micros(position) as i128 + offset_micros as i128;
                let target: i128 = if wished < 0 {
                    0
                } else if wished > i64::MAX as i128 {
                    i64::MAX as i128
                } else {
                    wished
                };
                if target >= duration_micros(duration) as i128 {
                    SeekWish::Next
                } else {
                    SeekWish::To(Duration::from_nanos_capped(target as u128 * 1000))
                }
            },
        }
    }

    /// Where setting the position leads: nowhere unless it names the current track
    /// and lies inside it.
    pub fn set_position(
        &self,
        names_current: bool,
        position_micros: i64,
        duration_seconds: Option<u64>,
    ) -> (target: Option<Duration>)
        ensures
            match target {
                Some(target) => self@.loading_track is None && self@.playback_started
                    && names_current && duration_seconds is Some && 0 <= position_micros
                    < length_micros(duration_seconds.unwrap()) && target@ == position_micros
                    * 1000,
                None => self@.loading_track is Some || !self@.playback_started || !names_current
                    || duration_seconds is None || position_micros < 0 || position_micros
                    >= length_micros(duration_seconds.unwrap()),
            },
    {
        if self.loading_track.is_some() || !self.playback_started {
            return None;
        }
        match duration_seconds {
            None => None,
            Some(seconds) => {
                if !names_current || position_micros < 0 || position_micros >= track_length_micros(
                    seconds,
                ) {
                    None
                } else {
                    Some(Duration::from_nanos_capped(position_micros as u128 * 1000))
                }
            },
        }
    }
}

/// The microsecond that seeking by an offset leads to.
pub open spec fn seek_target(
    playback: PlaybackView,
    offset_micros: i64,
    audio: Option<AudioStatus>,
) -> int {
    let position = match audio {
        Some(audio) => audio.position@,
        None => playback.position,
    };
    let wished = micros(position) + offset_micros;
    if wished < 0 {
        0
    } else if wished > i64::MAX {
        i64::MAX as int
    } else {
        wished
    }
}

/// Unless one track repeats, what the end of a track leads to is what the wish for the
/// next track leads to; where one repeats, its end starts it again.
pub proof fn the_end_of_a_track_is_a_wish_for_the_next(
    playback: PlaybackView,
    queue_len: int,
    continuation: Option<PersistedQueueContinuation>,
    random: int,
)
    ensures
        playback.repeat_mode != RepeatMode::One ==> playback.following(
            true,
            queue_len,
            continuation,
            random,
        ) == playback.following(false, queue_len, continuation, random),
        playback.repeat_mode == RepeatMode::One && playback.current_track is Some && queue_len > 0
            ==> playback.following(true, queue_len, continuation, random) == (Act::Start {
            index: playback.current_track.unwrap() as int,
            resume_at: 0,
            quality: None,
            autoplay: true,
        }),
{
}

/// Without shuffling, and always while recommendations go on, the next track is the one
/// behind, from its start. Behind the last one come further recommendations where there
/// are any, the first track where all repeat, and else the end.
pub proof fn tracks_follow_one_another(
    playback: PlaybackView,
    automatic: bool,
    queue_len: int,
    continuation: Option<PersistedQueueContinuation>,
    random: int,
)
    requires
        playback.current_track is Some,
        queue_len > 0,
        !playback.shuffle || continuation is Some || queue_len == 1,
        !automatic || playback.repeat_mode != RepeatMode::One,
    ensures
        ({
            let act = playback.following(automatic, queue_len, continuation, random);
            let index = playback.current_track.unwrap() as int;
            let more = match continuation {
                None => false,
                Some(PersistedQueueContinuation::Guess) => true,
                Some(PersistedQueueContinuation::Radar { has_more, .. }) => has_more,
            };
            &&& index < queue_len - 1 ==> act == (Act::Start {
                index: index + 1,
                resume_at: 0,
                quality: None,
                autoplay: true,
            })
            &&& index >= queue_len - 1 && more ==> act == Act::AwaitRecommendations
            &&& index >= queue_len - 1 && !more && playback.repeat_mode == RepeatMode::All ==> act
                == (Act::Start { index: 0, resume_at: 0, quality: None, autoplay: true })
            &&& index >= queue_len - 1 && !more && playback.repeat_mode != RepeatMode::All ==> act
                == Act::EndQueue
        }),
{
}

/// With shuffling on and more than one track, a random one of the others comes next.
pub proof fn shuffling_takes_another_track(
    playback: PlaybackView,
    automatic: bool,
    queue_len: int,
    random: int,
)
    requires
        playback.current_track is Some,
        playback.shuffle,
        queue_len > 1,
        !automatic || playback.repeat_mode != RepeatMode::One,
    ensures
        playback.following(automatic, queue_len, None, random) == (Act::Start {
            index: random,
            resume_at: 0,
            quality: None,
            autoplay: true,
        }),
{
}

/// The same track starts again only where one track repeats and has come to its end, or
/// where the queue has a single track and all repeat. Without a current track or with an
/// empty queue nothing follows.
pub proof fn a_track_starts_again_only_where_it_repeats(
    playback: PlaybackView,
    automatic: bool,
    queue_len: int,
    continuation: Option<PersistedQueueContinuation>,
    seed: int,
)
    requires
        0 <= seed,
        playback.current_track matches Some(index) ==> index < queue_len || queue_len == 0,
    ensures
        ({
            let current = playback.current_track;
            let act = playback.following(
                automatic,
                queue_len,
                continuation,
                other_track(seed, current.unwrap() as int, queue_len),
            );
            &&& current is None || queue_len == 0 ==> act == Act::Nothing
            &&& current is Some && queue_len > 0 && act is Start && act->index == current.unwrap()
                ==> (automatic && playback.repeat_mode == RepeatMode::One) || (queue_len == 1
                && playback.repeat_mode == RepeatMode::All)
        }),
{
    if queue_len >= 2 {
        assert(0 <= seed % (queue_len - 1) < queue_len - 1) by (nonlinear_arith)
            requires
                queue_len >= 2,
                seed >= 0,
        ;
    }
}

/// Within the first three seconds going back undoes going on: from the track behind it
/// leads to where the listener came from. Later it starts the track over, in the quality
/// that it has, and only goes on playing where it played.
pub proof fn going_back_undoes_going_on(
    playback: PlaybackView,
    queue_len: int,
    duration: Option<nat>,
    audio: Option<AudioStatus>,
    random: int,
)
    requires
        playback.current_track is Some,
        playback.current_track.unwrap() < queue_len,
        !playback.shuffle,
    ensures
        ({
            let index = playback.current_track.unwrap() as int;
            let back = playback.previous(queue_len, duration, audio);
            &&& playback.position < 3_000_000_000 && index > 0 ==> {
                &&& back is Start && back->index == index - 1 && back->resume_at == 0
                    && back->quality is None && back->autoplay
                &&& (PlaybackView {
                    current_track: Some((index - 1) as usize),
                    ..playback
                }).following(false, queue_len, None, random) is Start
                &&& (PlaybackView {
                    current_track: Some((index - 1) as usize),
                    ..playback
                }).following(false, queue_len, None, random)->index == index
            }
            &&& playback.position < 3_000_000_000 && index == 0 ==> if playback.repeat_mode
                == RepeatMode::All {
                back is Start && back->index == queue_len - 1 && back->resume_at == 0
                    && back->quality is None && back->autoplay
            } else {
                back == Act::Nothing
            }
            &&& playback.position >= 3_000_000_000 ==> {
                &&& back is Start && back->index == index && back->resume_at == 0
                &&& back->quality == Some(playback.active_quality)
                &&& back->autoplay == (match audio {
                    Some(audio) => audio.playing,
                    None => false,
                })
            }
        }),
{
}

/// A seek goes on with the current track: at the target where it lies inside, at the end
/// where it lies behind, in the quality that the track has, and playing where it played.
pub proof fn seeking_stays_in_the_track(
    playback: PlaybackView,
    target: nat,
    duration: Option<nat>,
    audio: Option<AudioStatus>,
)
    ensures
        ({
            let act = playback.sought(target, duration, audio);
            &&& act == Act::Nothing <==> playback.current_track is None
            &&& playback.current_track is Some ==> {
                &&& act is Start && act->index == playback.current_track.unwrap()
                &&& act->quality == Some(playback.active_quality)
                &&& act->autoplay <==> audio is Some && audio.unwrap().playing
                &&& act->resume_at <= target
                &&& duration is None || target <= duration.unwrap() ==> act->resume_at == target
                &&& duration is Some && target > duration.unwrap() ==> act->resume_at
                    == duration.unwrap()
            }
        }),
{
}

/// Pressing play or pause acts on what is there. While a track loads it does nothing; with
/// no track it plays the first that is shown; a track that was not started or is over
/// starts anew; and what plays or waits is toggled. A wish to play never stops what
/// plays, a wish to pause never starts anything that stands still, and of the two one does
/// what the button does.
pub proof fn play_and_pause_share_the_button(
    playback: PlaybackView,
    audio: Option<AudioStatus>,
    tracks_shown: bool,
)
    ensures
        ({
            let pressed = playback.toggled(audio, tracks_shown);
            let play = playback.played(audio, tracks_shown);
            let pause = playback.paused(audio, tracks_shown);
            let playing = audio is Some && audio.unwrap().playing;
            &&& playback.loading_track is Some ==> pressed == Act::Nothing && play
                == Act::Nothing && pause == Act::Nothing
            &&& playback.loading_track is None && playback.current_track is None ==> (pressed
                == Act::SelectFirst <==> tracks_shown) && (pressed == Act::Nothing
                <==> !tracks_shown)
            &&& playback.loading_track is None && playback.current_track is Some ==> match audio {
                None => pressed == Act::Nothing,
                Some(audio) => if playback.playback_started && !audio.empty {
                    pressed == Act::Toggle
                } else {
                    pressed is Start && pressed->index == playback.current_track.unwrap()
                        && pressed->resume_at == 0 && pressed->quality is None
                        && pressed->autoplay
                },
            }
            &&& play == Act::Toggle ==> !playing
            &&& play != pressed ==> playing && play == Act::Nothing && pressed == Act::Toggle
            &&& !playing ==> play == pressed && pause == Act::Nothing
            &&& playing ==> pause == pressed
        }),
{
}

/// A stop puts the current track at its start with nothing loading, makes what was asked
/// for come too late, and leaves the rest; without a track it changes nothing.
pub proof fn stopping_rests_at_the_start(playback: PlaybackView)
    ensures
        playback.current_track is None ==> playback.stopped() == playback,
        playback.current_track is Some ==> {
            let after = playback.stopped();
            &&& after.position == 0 && !after.playback_started && after.loading_track is None
                && !after.loading_autoplay && !after.resolving_qualities && after.seek_preview
                is None
            &&& after.play_generation != playback.play_generation
            &&& playback.play_generation < u64::MAX ==> after.play_generation
                == playback.play_generation + 1
            &&& after.current_track == playback.current_track && after.queue_generation
                == playback.queue_generation && after.shuffle == playback.shuffle
                && after.repeat_mode == playback.repeat_mode && after.active_quality
                == playback.active_quality && after.quality_menu_open
                == playback.quality_menu_open && after.queue_recommendation_loading
                == playback.queue_recommendation_loading
                && after.queue_waiting_for_recommendation
                == playback.queue_waiting_for_recommendation
        },
{
}

/// A moment of playback takes the position from the output while a started track is
/// neither being loaded nor dragged, ends a track exactly when its output has run empty,
/// and changes nothing else. An ended track does not end a second time.
pub proof fn a_track_ends_once(playback: PlaybackView, audio: Option<AudioStatus>, later: Option<
    AudioStatus,
>)
    ensures
        ({
            let after = playback.ticked(audio);
            let runs = playback.playback_started && playback.loading_track is None;
            &&& playback.ended(audio) <==> runs && audio is Some && audio.unwrap().empty
            &&& playback.ended(audio) ==> !after.playback_started && !after.ended(later)
            &&& !playback.ended(audio) ==> after.playback_started == playback.playback_started
            &&& runs && playback.seek_preview is None && audio is Some ==> after.position
                == audio.unwrap().position@
            &&& runs && playback.seek_preview is None && audio is None ==> after.position == 0
            &&& !runs || playback.seek_preview is Some ==> after.position == playback.position
            &&& after == (PlaybackView {
                position: after.position,
                playback_started: after.playback_started,
                ..playback
            })
            &&& playback.advancing(audio) <==> runs && audio is Some && audio.unwrap().playing
        }),
{
}

/// Going on leaves the state as it is where a track starts. Where recommendations are
/// awaited it waits for them; at the end of the queue it rests at the end of the track.
pub proof fn going_on_waits_or_rests(playback: PlaybackView, act: Act, duration: Option<nat>)
    ensures
        ({
            let after = playback.after(act, duration);
            &&& !(act is AwaitRecommendations) && !(act is EndQueue) ==> after == playback
            &&& act is AwaitRecommendations ==> after.queue_waiting_for_recommendation
                && !after.playback_started && after.position == playback.position
            &&& after == (PlaybackView {
                playback_started: after.playback_started,
                queue_waiting_for_recommendation: after.queue_waiting_for_recommendation,
                position: after.position,
                ..playback
            })
            &&& act is EndQueue ==> !after.playback_started && (duration is Some ==> after.position
                == duration.unwrap()) && (duration is None ==> after.position == 0)
                && after.queue_waiting_for_recommendation
                == playback.queue_waiting_for_recommendation
            &&& after.current_track == playback.current_track && after.loading_track
                == playback.loading_track && after.play_generation == playback.play_generation
        }),
{
}

/// A microsecond has a thousand nanoseconds and a second a million microseconds: the
/// span lies in the microsecond that is counted, as long as 63 bits hold the count.
pub proof fn microseconds_are_counted_whole(nanos: nat, seconds: u64)
    ensures
        0 <= micros(nanos) <= i64::MAX,
        micros(nanos) < i64::MAX ==> 1_000 * micros(nanos) <= nanos < 1_000 * micros(nanos)
            + 1_000,
        micros(nanos) == i64::MAX ==> nanos >= 1_000 * i64::MAX,
        seconds <= 9_223_372_036_854 ==> length_micros(seconds) == micros(
            (seconds * 1_000_000_000) as nat,
        ),
        seconds > 9_223_372_036_854 ==> length_micros(seconds) == i64::MAX,
{
}

/// Seeking by an offset leads that far from where the output is, or from the last known
/// position without one, but never before the start.
pub proof fn seeking_by_an_offset_counts_from_here(
    playback: PlaybackView,
    offset_micros: i64,
    audio: Option<AudioStatus>,
)
    ensures
        ({
            let position = match audio {
                Some(audio) => audio.position@,
                None => playback.position,
            };
            let target = seek_target(playback, offset_micros, audio);
            &&& 0 <= target <= i64::MAX
            &&& position < 1_000 * i64::MAX && 0 <= position as int / 1_000 + offset_micros
                <= i64::MAX ==> target == position as int / 1_000 + offset_micros
            &&& position < 1_000 * i64::MAX && position as int / 1_000 + offset_micros < 0 ==> target
                == 0
        }),
{
}

/// A count goes up by one, and begins anew behind the largest; two in a row differ.
pub proof fn counts_go_up_by_one(count: u64)
    ensures
        count < u64::MAX ==> next_count(count) == count + 1,
        next_count(u64::MAX) == 0,
        next_count(count) != count,
{
}

/// Forgetting what plays leaves no track, no position and no request, makes what was asked
/// for come too late, and keeps how tracks are shuffled and repeated.
pub proof fn forgetting_leaves_nothing_to_play(playback: PlaybackView, preferred: Quality)
    ensures
        ({
            let after = playback.forgotten(preferred);
            &&& after.current_track is None && after.loading_track is None && after.position == 0
            &&& !after.playback_started && !after.loading_autoplay && !after.resolving_qualities
                && !after.quality_menu_open
            &&& !after.queue_recommendation_loading && !after.queue_waiting_for_recommendation
            &&& after.play_generation != playback.play_generation
            &&& after.queue_generation != playback.queue_generation
            &&& after.active_quality == preferred
            &&& after.shuffle == playback.shuffle && after.repeat_mode == playback.repeat_mode
        }),
{
}

/// A line is said once playback was paused or went on, while recommendations are awaited,
/// and at the end of the queue.
pub proof fn a_line_is_said_of_what_was_done(action: PlaybackAction, playing: bool)
    ensures
        action.status(playing) is Some <==> action is Toggle || action is AwaitRecommendations
            || action is EndQueue,
        PlaybackAction::Toggle.status(true) == Some("继续播放"@),
        PlaybackAction::Toggle.status(false) == Some("已暂停"@),
        PlaybackAction::EndQueue.status(playing) == Some("当前播放队列已结束"@),
{
}

/// Going back is the same however tracks are shuffled: within the first three seconds it
/// leads to the track before, from the first one to the last where all repeat and else
/// nowhere; later it leads to the start of the track.
pub proof fn going_back_ignores_shuffling(
    playback: PlaybackView,
    queue_len: int,
    duration: Option<nat>,
    audio: Option<AudioStatus>,
)
    ensures
        ({
            let back = playback.previous(queue_len, duration, audio);
            &&& playback.current_track is None ==> back == Act::Nothing
            &&& playback.current_track matches Some(index) ==> {
                &&& playback.position >= 3_000_000_000 ==> back == (Act::Start {
                    index: index as int,
                    resume_at: 0,
                    quality: Some(playback.active_quality),
                    autoplay: audio is Some && audio.unwrap().playing,
                })
                &&& playback.position < 3_000_000_000 && index > 0 ==> back == (Act::Start {
                    index: index - 1,
                    resume_at: 0,
                    quality: None,
                    autoplay: true,
                })
                &&& playback.position < 3_000_000_000 && index == 0 && playback.repeat_mode
                    == RepeatMode::All && queue_len > 0 ==> back == (Act::Start {
                    index: queue_len - 1,
                    resume_at: 0,
                    quality: None,
                    autoplay: true,
                })
                &&& playback.position < 3_000_000_000 && index == 0 && (playback.repeat_mode
                    != RepeatMode::All || queue_len <= 0) ==> back == Act::Nothing
            }
        }),
{
}

} // verus!
