//! Bringing a track to play: what a start leads to, which quality is tried next, and
//! what the reports of the loader change.

use crate::catalog::{share, Quality, Track};
use crate::lyrics::line::text_of;
use crate::playback::{next_count, Playback, PlaybackView};
use crate::queue::{extend_queue, extended, PlaybackQueue};
use crate::settings::PersistedQueueContinuation;
use crate::text::push_text;
use crate::time::Duration;
use std::sync::Arc;
use vstd::prelude::*;

verus! {

/// A line of text for the listener.
#[derive(Debug, PartialEq, Eq)]
pub struct StatusMessage {
    pub text: String,
    pub is_error: bool,
}

impl StatusMessage {
    pub fn info(text: String) -> (message: Self)
        ensures
            message.text == text,
            !message.is_error,
    {
        StatusMessage { text, is_error: false }
    }

    pub fn error(text: String) -> (message: Self)
        ensures
            message.text == text,
            message.is_error,
    {
        StatusMessage { text, is_error: true }
    }

    /// The message says `text`, as an error or not.
    pub open spec fn says(self, text: Seq<char>, is_error: bool) -> bool {
        self.text@ == text && self.is_error == is_error
    }
}

/// `text` between `front` and `back`.
pub fn framed(front: &str, text: &str, back: &str) -> (result: String)
    ensures
        result@ == front@ + text@ + back@,
{
    let mut result = String::new();
    push_text(&mut result, front);
    push_text(&mut result, text);
    push_text(&mut result, back);
    assert(result@ =~= front@ + text@ + back@);
    result
}

/// A text behind a label.
pub fn labelled(label: &str, text: &str) -> (result: String)
    ensures
        result@ == label@ + text@,
{
    let mut result = String::new();
    push_text(&mut result, label);
    push_text(&mut result, text);
    assert(result@ =~= label@ + text@);
    result
}

/// Where a track was loaded from.
#[derive(Debug)]
pub struct PlaybackLocation {
    pub track_mid: String,
    pub quality: Quality,
    pub urls: Vec<String>,
}

/// What playback needs besides a track.
#[derive(Clone, Copy, Debug, PartialEq, Eq, Structural)]
pub struct Facilities {
    pub signed_in: bool,
    pub audio_cache: bool,
    pub audio: bool,
    pub client: bool,
}

/// Which track is to be loaded, and how.
#[derive(Clone, Copy, Debug, PartialEq, Eq, Structural)]
pub struct StartRequest {
    pub index: usize,
    pub resume_at: Duration,
    pub quality: Option<Quality>,
    pub autoplay: bool,
}

/// What a start leads to.
#[derive(Debug)]
pub enum StartDecision {
    /// Something is missing.
    Refused(StatusMessage),
    /// The queue has no such track.
    Ignored,
    Load(LoadPlan),
}

/// What the loader is to do.
#[derive(Debug)]
pub struct LoadPlan {
    pub track: Arc<Track>,
    pub quality: Quality,
    /// The track was loaded or loading already.
    pub same_track: bool,
    /// The known locations are tried again.
    pub reuse_location: bool,
    pub status: StatusMessage,
    /// Remote controls are told of a jump.
    pub seeked: bool,
}

pub open spec fn refusal(facilities: Facilities) -> Option<Seq<char>> {
    if !facilities.audio_cache {
        Some("音频缓存不可用，无法创建播放流"@)
    } else if !facilities.audio {
        Some("没有可用的音频输出设备"@)
    } else if !facilities.client {
        Some("QQ 音乐客户端不可用"@)
    } else {
        None
    }
}

/// The track of a queue at an index.
pub open spec fn track_at(queue: Option<PlaybackQueue>, index: int) -> Option<Arc<Track>> {
    match queue {
        Some(queue) if 0 <= index < queue.tracks@.len() => Some(queue.tracks@[index]),
        _ => None,
    }
}

pub fn queue_track(queue: &Option<PlaybackQueue>, index: usize) -> (track: Option<Arc<Track>>)
    ensures
        track == track_at(*queue, index as int),
{
    match queue {
        Some(queue) => if index < queue.tracks.len() {
            Some(share(&queue.tracks[index]))
        } else {
            None
        },
        None => None,
    }
}

/// The track at `index` is the one that is loading or was loaded last.
pub open spec fn continues(
    playback: PlaybackView,
    location: Option<PlaybackLocation>,
    index: int,
    mid: Seq<char>,
) -> bool {
    ||| (playback.current_track is Some && playback.current_track.unwrap() == index
        && playback.loading_track is Some)
    ||| (location is Some && location.unwrap().track_mid@ == mid)
}

/// The location of the last track serves for this track in this quality.
pub open spec fn reusable(
    location: Option<PlaybackLocation>,
    mid: Seq<char>,
    quality: Quality,
) -> bool {
    location is Some && location.unwrap().track_mid@ == mid && location.unwrap().quality == quality
}

pub open spec fn chosen_quality(request: StartRequest, preferred: Quality) -> Quality {
    match request.quality {
        Some(quality) => quality,
        None => preferred,
    }
}

/// The state once the track is being loaded.
pub open spec fn started(
    playback: PlaybackView,
    request: StartRequest,
    same_track: bool,
    resolving: bool,
) -> PlaybackView {
    PlaybackView {
        play_generation: next_count(playback.play_generation),
        current_track: Some(request.index),
        loading_track: Some(request.index),
        loading_autoplay: request.autoplay,
        resolving_qualities: resolving,
        playback_started: false,
        position: request.resume_at@,
        quality_menu_open: same_track && playback.quality_menu_open,
        queue_waiting_for_recommendation: false,
        ..playback
    }
}

/// Begins to load a track of the queue.
pub fn start_playback(
    playback: &mut Playback,
    available: &mut Vec<Quality>,
    queue: &Option<PlaybackQueue>,
    location: &Option<PlaybackLocation>,
    facilities: Facilities,
    request: StartRequest,
    preferred: Quality,
) -> (decision: StartDecision)
    ensures
        match decision {
            StartDecision::Refused(status) => {
                &&& final(playback)@ == old(playback)@ && final(available)@ == old(available)@
                &&& status.is_error
                &&& !facilities.signed_in ==> status.text@ == "请先登录 QQ 音乐"@
                &&& facilities.signed_in ==> track_at(*queue, request.index as int) is Some
                    && refusal(facilities) == Some(status.text@)
            },
            StartDecision::Ignored => {
                &&& final(playback)@ == old(playback)@ && final(available)@ == old(available)@
                &&& facilities.signed_in && track_at(*queue, request.index as int) is None
            },
            StartDecision::Load(plan) => {
                let quality = chosen_quality(request, preferred);
                let same = continues(
                    old(playback)@,
                    *location,
                    request.index as int,
                    plan.track.mid@,
                );
                let reuse = reusable(*location, plan.track.mid@, quality);
                let known = same && old(available)@.len() > 0;
                &&& facilities.signed_in && refusal(facilities) is None
                &&& track_at(*queue, request.index as int) == Some(plan.track)
                &&& plan.quality == quality
                &&& plan.same_track == same
                &&& plan.reuse_location == reuse
                &&& final(available)@ == (if same {
                    old(available)@
                } else {
                    Seq::empty()
                })
                &&& final(playback)@ == started(old(playback)@, request, same, !reuse && !known)
                &&& plan.status.says(
                    if !reuse && !known {
                        "正在检测“"@ + plan.track.title@ + "”的音质…"@
                    } else {
                        "正在缓冲“"@ + plan.track.title@ + "”…"@
                    },
                    false,
                )
                &&& plan.seeked == (!same && request.resume_at@ > 0)
            },
        },
{
    if !facilities.signed_in {
        return StartDecision::Refused(StatusMessage::error("请先登录 QQ 音乐".to_owned()));
    }
    let track = match queue_track(queue, request.index) {
        None => {
            return StartDecision::Ignored;
        },
        Some(track) => track,
    };
    if !facilities.audio_cache {
        return StartDecision::Refused(
            StatusMessage::error("音频缓存不可用，无法创建播放流".to_owned()),
        );
    }
    if !facilities.audio {
        return StartDecision::Refused(
            StatusMessage::error("没有可用的音频输出设备".to_owned()),
        );
    }
    if !facilities.client {
        return StartDecision::Refused(StatusMessage::error("QQ 音乐客户端不可用".to_owned()));
    }
    let quality = match request.quality {
        Some(quality) => quality,
        None => preferred,
    };
    let loading_it: bool = match playback.current_track {
        Some(current) => current == request.index && playback.loading_track.is_some(),
        None => false,
    };
    let located: bool = match location {
        Some(location) => location.track_mid.eq(&track.mid),
        None => false,
    };
    let same_track = loading_it || located;
    if !same_track {
        available.clear();
        playback.quality_menu_open = false;
        assert(available@ =~= Seq::empty());
    }
    let reuse_location: bool = match location {
        Some(location) => located && location.quality == quality,
        None => false,
    };
    playback.play_generation = playback.play_generation.wrapping_add(1);
    playback.current_track = Some(request.index);
    playback.loading_track = Some(request.index);
    playback.loading_autoplay = request.autoplay;
    playback.resolving_qualities = !reuse_location && available.len() == 0;
    playback.playback_started = false;
    playback.position = request.resume_at;
    playback.queue_waiting_for_recommendation = false;
    let status = StatusMessage::info(
        if playback.resolving_qualities {
            framed("正在检测“", track.title.as_str(), "”的音质…")
        } else {
            framed("正在缓冲“", track.title.as_str(), "”…")
        },
    );
    StartDecision::Load(
        LoadPlan {
            track,
            quality,
            same_track,
            reuse_location,
            status,
            seeked: !same_track && !request.resume_at.is_zero(),
        },
    )
}

/// A start that loads counts as a new one: reports for the track before it are
/// recognized as late.
pub proof fn starts_are_told_apart(
    playback: PlaybackView,
    request: StartRequest,
    same_track: bool,
    resolving: bool,
)
    ensures
        started(playback, request, same_track, resolving).play_generation
            != playback.play_generation,
{
}

impl Playback {
    /// The loader asks for the qualities of the track.
    pub fn on_resolving(&mut self, generation: u64)
        ensures
            final(self)@ == (if generation == old(self)@.play_generation {
                PlaybackView { resolving_qualities: true, ..old(self)@ }
            } else {
                old(self)@
            }),
    {
        if self.play_generation == generation {
            self.resolving_qualities = true;
        }
    }

    /// The loader knows the qualities of the track.
    pub fn on_options(
        &mut self,
        generation: u64,
        available: &mut Vec<Quality>,
        qualities: Vec<Quality>,
        title: &str,
    ) -> (status: Option<StatusMessage>)
        ensures
            generation != old(self)@.play_generation ==> final(self)@ == old(self)@
                && final(available)@ == old(available)@ && status is None,
            generation == old(self)@.play_generation ==> final(self)@ == (PlaybackView {
                resolving_qualities: false,
                ..old(self)@
            }) && final(available)@ == qualities@ && status is Some && status.unwrap().says(
                if qualities@.len() > 0 {
                    "正在缓冲“"@ + title@ + "”…"@
                } else {
                    "正在获取“"@ + title@ + "”的可播放音质…"@
                },
                false,
            ),
    {
        if self.play_generation != generation {
            return None;
        }
        self.resolving_qualities = false;
        let some = qualities.len() > 0;
        *available = qualities;
        Some(
            StatusMessage::info(
                if some {
                    framed("正在缓冲“", title, "”…")
                } else {
                    framed("正在获取“", title, "”的可播放音质…")
                },
            ),
        )
    }

    /// The loader has finished: nothing is loading any more. Says whether that was
    /// the load that is waited for.
    pub fn on_finished(&mut self, generation: u64) -> (current: bool)
        ensures
            current == (generation == old(self)@.play_generation),
            final(self)@ == (if current {
                PlaybackView {
                    loading_track: None,
                    loading_autoplay: false,
                    resolving_qualities: false,
                    ..old(self)@
                }
            } else {
                old(self)@
            }),
    {
        if self.play_generation != generation {
            return false;
        }
        self.loading_track = None;
        self.loading_autoplay = false;
        self.resolving_qualities = false;
        true
    }

    /// The track could not be loaded.
    pub fn on_failed(&mut self, generation: u64, error: &str) -> (status: Option<StatusMessage>)
        ensures
            status is Some <==> generation == old(self)@.play_generation,
            status is Some ==> status.unwrap().says("获取歌曲失败："@ + error@, true),
            final(self)@ == (if status is Some {
                PlaybackView {
                    loading_track: None,
                    loading_autoplay: false,
                    resolving_qualities: false,
                    ..old(self)@
                }
            } else {
                old(self)@
            }),
    {
        if self.on_finished(generation) {
            Some(StatusMessage::error(labelled("获取歌曲失败：", error)))
        } else {
            None
        }
    }

    /// The track was loaded: where from, and which of its qualities remain, is kept. Says
    /// whether that was the load that is waited for.
    pub fn on_loaded(
        &mut self,
        generation: u64,
        location: &mut Option<PlaybackLocation>,
        available: &mut Vec<Quality>,
        loaded: PlaybackLocation,
        qualities: Vec<Quality>,
    ) -> (current: bool)
        ensures
            current == (generation == old(self)@.play_generation),
            !current ==> final(self)@ == old(self)@ && *final(location) == *old(location)
                && final(available)@ == old(available)@,
            current ==> {
                &&& *final(location) == Some(loaded)
                &&& final(available)@ == qualities@
                &&& final(self)@ == (PlaybackView {
                    loading_track: None,
                    loading_autoplay: false,
                    resolving_qualities: false,
                    active_quality: loaded.quality,
                    ..old(self)@
                })
            },
    {
        if !self.on_finished(generation) {
            return false;
        }
        self.active_quality = loaded.quality;
        *location = Some(loaded);
        *available = qualities;
        true
    }

    /// The audio output took the track, or failed to.
    pub fn on_replaced(
        &mut self,
        outcome: Result<(), String>,
        autoplay: bool,
        title: &str,
    ) -> (status: StatusMessage)
        ensures
            final(self)@ == (PlaybackView {
                playback_started: old(self)@.playback_started || outcome is Ok,
                ..old(self)@
            }),
            match outcome {
                Ok(_) => status.says(
                    if autoplay {
                        "正在播放“"@ + title@ + "”"@
                    } else {
                        "已暂停“"@ + title@ + "”"@
                    },
                    false,
                ),
                Err(error) => status.says("播放失败："@ + error@, true),
            },
    {
        match outcome {
            Ok(_) => {
                self.playback_started = true;
                StatusMessage::info(
                    if autoplay {
                        framed("正在播放“", title, "”")
                    } else {
                        framed("已暂停“", title, "”")
                    },
                )
            },
            Err(error) => StatusMessage::error(labelled("播放失败：", error.as_str())),
        }
    }
}

/// A track that was loaded is loaded again from where it came: a jump within it asks for
/// no location, and keeps the qualities that are known.
pub proof fn loaded_track_is_reused(
    playback: PlaybackView,
    loaded: PlaybackLocation,
    index: int,
    request: StartRequest,
    preferred: Quality,
)
    requires
        request.quality == Some(loaded.quality),
    ensures
        reusable(Some(loaded), loaded.track_mid@, chosen_quality(request, preferred)),
        continues(playback, Some(loaded), index, loaded.track_mid@),
{
}

/// Trying the qualities of a track one after the other.
#[derive(Debug)]
pub struct QualitySearch {
    /// The qualities to try, the most wanted first.
    pub candidates: Vec<Quality>,
    /// How many of them have been tried.
    pub tried: usize,
    /// The qualities that have not failed.
    pub available: Vec<Quality>,
    /// Why the last one failed.
    pub last_error: Option<String>,
}

pub open spec fn without_quality(qualities: Seq<Quality>, quality: Quality) -> Seq<Quality> {
    qualities.filter(|q: Quality| q != quality)
}

/// Why a track cannot be played in a quality.
pub open spec fn unavailable_text(title: Seq<char>, label: Seq<char>, error: Seq<char>) -> Seq<char> {
    "“"@ + title + "”的"@ + label + "音源不可用: "@ + error
}

/// Where the next candidate that is on offer stands.
pub open spec fn next_offer(candidates: Seq<Quality>, offered: Seq<Quality>, from: int) -> Option<
    int,
>
    decreases candidates.len() - from,
{
    if from < 0 || from >= candidates.len() {
        None
    } else if offered.contains(candidates[from]) {
        Some(from)
    } else {
        next_offer(candidates, offered, from + 1)
    }
}

/// The next quality to try is on offer, and none that is comes before it; the search
/// ends only when none is left.
pub proof fn next_offer_is_first(candidates: Seq<Quality>, offered: Seq<Quality>, from: int)
    requires
        0 <= from,
    ensures
        match next_offer(candidates, offered, from) {
            Some(i) => from <= i < candidates.len() && offered.contains(candidates[i]) && forall|
                j: int,
            |
                from <= j < i ==> !offered.contains(#[trigger] candidates[j]),
            None => forall|j: int|
                from <= j < candidates.len() ==> !offered.contains(#[trigger] candidates[j]),
        },
    decreases candidates.len() - from,
{
    if from < candidates.len() && !offered.contains(candidates[from]) {
        next_offer_is_first(candidates, offered, from + 1);
    }
}

fn offers(offered: &Vec<Quality>, quality: Quality) -> (result: bool)
    ensures
        result == offered@.contains(quality),
{
    let mut i: usize = 0;
    while i < offered.len()
        invariant
            i <= offered@.len(),
            forall|j: int| 0 <= j < i ==> #[trigger] offered@[j] != quality,
        decreases offered.len() - i,
    {
        if offered[i] == quality {
            return true;
        }
        i += 1;
    }
    false
}

impl QualitySearch {
    pub open spec fn wf(self) -> bool {
        self.tried <= self.candidates@.len()
    }

    pub fn new(candidates: Vec<Quality>, available: Vec<Quality>) -> (search: Self)
        ensures
            search.candidates == candidates,
            search.available == available,
            search.tried == 0,
            search.last_error is None,
            search.wf(),
    {
        QualitySearch { candidates, tried: 0, available, last_error: None }
    }

    /// The next quality to try: the next candidate that is on offer.
    pub fn next_candidate(&mut self, offered: &Vec<Quality>) -> (quality: Option<Quality>)
        requires
            old(self).wf(),
        ensures
            final(self).wf(),
            final(self).candidates == old(self).candidates,
            final(self).available == old(self).available,
            final(self).last_error == old(self).last_error,
            match next_offer(old(self).candidates@, offered@, old(self).tried as int) {
                Some(i) => quality == Some(old(self).candidates@[i]) && final(self).tried == i + 1,
                None => quality is None && final(self).tried == old(self).candidates@.len(),
            },
    {
        while self.tried < self.candidates.len()
            invariant
                self.wf(),
                self.candidates == old(self).candidates,
                self.available == old(self).available,
                self.last_error == old(self).last_error,
                next_offer(old(self).candidates@, offered@, old(self).tried as int) == next_offer(
                    self.candidates@,
                    offered@,
                    self.tried as int,
                ),
            decreases self.candidates.len() - self.tried,
        {
            let quality = self.candidates[self.tried];
            self.tried = self.tried + 1;
            if offers(offered, quality) {
                return Some(quality);
            }
        }
        None
    }

    /// A quality could not be loaded: it is no longer available, and what went wrong is
    /// remembered, with the track and the name of the quality.
    pub fn failed(&mut self, quality: Quality, title: &str, label: &str, error: &str)
        ensures
            final(self).candidates == old(self).candidates,
            final(self).tried == old(self).tried,
            text_of(final(self).last_error) == Some(unavailable_text(title@, label@, error@)),
            final(self).available@ == without_quality(old(self).available@, quality),
    {
        let mut kept: Vec<Quality> = Vec::new();
        let mut i: usize = 0;
        let ghost all = self.available@;
        proof {
            reveal(Seq::filter);
            assert(all.take(0) =~= Seq::empty());
            assert(kept@ =~= Seq::empty());
        }
        while i < self.available.len()
            invariant
                i <= self.available@.len(),
                all == self.available@,
                kept@ == without_quality(all.take(i as int), quality),
            decreases self.available.len() - i,
        {
            proof {
                reveal(Seq::filter);
                assert(all.take(i + 1).drop_last() =~= all.take(i as int));
                assert(all.take(i + 1).last() == all[i as int]);
            }
            if self.available[i] != quality {
                kept.push(self.available[i]);
            }
            i += 1;
        }
        assert(all.take(all.len() as int) =~= all);
        self.available = kept;
        let mut text = String::new();
        push_text(&mut text, "“");
        push_text(&mut text, title);
        push_text(&mut text, "”的");
        push_text(&mut text, label);
        push_text(&mut text, "音源不可用: ");
        push_text(&mut text, error);
        assert(text@ =~= unavailable_text(title@, label@, error@));
        self.last_error = Some(text);
    }

    /// Why the track cannot be played, once all candidates have failed: what went
    /// wrong last.
    pub fn failure(&self) -> (text: String)
        ensures
            text@ == (match self.last_error {
                Some(error) => error@,
                None => "QQ 音乐没有返回当前账号可播放的音质"@,
            }),
    {
        match &self.last_error {
            Some(error) => error.clone(),
            None => "QQ 音乐没有返回当前账号可播放的音质".to_owned(),
        }
    }
}

/// The qualities to offer where a known location serves: those that are known, and at
/// least the one that it has.
pub fn kept_qualities(known: &Vec<Quality>, quality: Quality) -> (qualities: Vec<Quality>)
    ensures
        qualities@ == (if known@.len() == 0 {
            seq![quality]
        } else {
            known@
        }),
{
    let mut qualities: Vec<Quality> = Vec::new();
    if known.len() == 0 {
        qualities.push(quality);
        return qualities;
    }
    let mut i: usize = 0;
    while i < known.len()
        invariant
            i <= known@.len(),
            qualities@ == known@.take(i as int),
        decreases known.len() - i,
    {
        qualities.push(known[i]);
        i += 1;
    }
    qualities
}

/// The recommendations to ask for: none while some are on their way, none for a queue
/// that does not go on, and none while more than two tracks are left, unless forced.
pub open spec fn wanted_recommendations(
    playback: PlaybackView,
    queue: Option<PlaybackQueue>,
    force: bool,
) -> Option<PersistedQueueContinuation> {
    match queue {
        Some(queue) if !playback.queue_recommendation_loading => match queue.continuation {
            Some(continuation) => {
                let current = match playback.current_track {
                    Some(index) => index as int,
                    None => 0,
                };
                let remaining = queue.tracks@.len() - (current + 1);
                if continuation.has_next() && (force || remaining <= 2) {
                    Some(continuation)
                } else {
                    None
                }
            },
            None => None,
        },
        _ => None,
    }
}

/// Decides whether recommendations are asked for, and marks them as being on their
/// way.
pub fn maybe_load_queue_recommendations(
    playback: &mut Playback,
    queue: &Option<PlaybackQueue>,
    force: bool,
    signed_in: bool,
    client: bool,
) -> (wanted: Option<PersistedQueueContinuation>)
    ensures
        wanted == (if signed_in && client {
            wanted_recommendations(old(playback)@, *queue, force)
        } else {
            None
        }),
        final(playback)@ == (PlaybackView {
            queue_recommendation_loading: old(playback)@.queue_recommendation_loading || wanted
                is Some,
            ..old(playback)@
        }),
{
    if playback.queue_recommendation_loading {
        return None;
    }
    match queue {
        None => None,
        Some(queue) => match queue.continuation {
            None => None,
            Some(continuation) => {
                let current: usize = match playback.current_track {
                    Some(index) => index,
                    None => 0,
                };
                let count: usize = queue.tracks.len();
                let remaining: usize = if current < count {
                    count - current - 1
                } else {
                    0
                };
                if !continuation.can_load_more() || (!force && remaining > 2) || !signed_in
                    || !client {
                    return None;
                }
                playback.queue_recommendation_loading = true;
                Some(continuation)
            },
        },
    }
}

/// How a queue goes on after an answer with this many tracks. `page` and `has_more`
/// are what an answer with pages says of the next one; guesses go on until none come.
pub fn next_continuation(
    continuation: PersistedQueueContinuation,
    page: u64,
    has_more: bool,
    track_count: usize,
) -> (next: Option<PersistedQueueContinuation>)
    ensures
        next == (match continuation {
            PersistedQueueContinuation::Radar { .. } => Some(
                PersistedQueueContinuation::Radar { next_page: page, has_more },
            ),
            PersistedQueueContinuation::Guess => if track_count > 0 {
                Some(PersistedQueueContinuation::Guess)
            } else {
                None
            },
        }),
{
    match continuation {
        PersistedQueueContinuation::Radar { .. } => Some(
            PersistedQueueContinuation::Radar { next_page: page, has_more },
        ),
        PersistedQueueContinuation::Guess => if track_count > 0 {
            Some(PersistedQueueContinuation::Guess)
        } else {
            None
        },
    }
}

/// What arriving recommendations lead to.
#[derive(Debug)]
pub enum RecommendationOutcome {
    /// They came for a queue that is gone.
    Late,
    Continue,
    /// Playback waited for them, and goes on with the first.
    Start(usize),
    /// Playback waited for them, and there were none.
    NothingNew(StatusMessage),
    Failed(StatusMessage),
}

impl RecommendationOutcome {
    pub open spec fn is_nothing_new(self) -> bool {
        match self {
            RecommendationOutcome::NothingNew(status) => status.says(
                "当前推荐暂时没有更多歌曲"@,
                false,
            ),
            _ => false,
        }
    }

    pub open spec fn is_failure(self, error: Seq<char>) -> bool {
        match self {
            RecommendationOutcome::Failed(status) => status.says(
                "继续加载推荐歌曲失败："@ + error,
                true,
            ),
            _ => false,
        }
    }
}

/// Adds recommendations that arrived to the queue.
pub fn add_recommendations(
    playback: &mut Playback,
    queue: &mut Option<PlaybackQueue>,
    generation: u64,
    arrived: Result<(Vec<Arc<Track>>, Option<PersistedQueueContinuation>), String>,
) -> (outcome: RecommendationOutcome)
    ensures
        generation != old(playback)@.queue_generation ==> outcome is Late && final(playback)@
            == old(playback)@ && *final(queue) == *old(queue),
        generation == old(playback)@.queue_generation ==> {
            &&& !(outcome is Late)
            &&& final(playback)@ == (PlaybackView {
                queue_recommendation_loading: false,
                queue_waiting_for_recommendation: false,
                ..old(playback)@
            })
            &&& match arrived {
                Err(error) => outcome.is_failure(error@) && *final(queue) == *old(queue),
                Ok((tracks, continuation)) => {
                    &&& (*final(queue) is Some <==> *old(queue) is Some)
                    &&& match (*old(queue), *final(queue)) {
                        (Some(before), Some(after)) => {
                            &&& after.tracks@ == extended(before.tracks@, tracks@)
                            &&& after.continuation == continuation
                            &&& after.playlist_id == before.playlist_id
                            &&& after.modified == before.modified
                            &&& !old(playback)@.queue_waiting_for_recommendation
                                ==> outcome is Continue
                            &&& old(playback)@.queue_waiting_for_recommendation ==> if after.tracks@.len()
                                > before.tracks@.len() {
                                outcome == RecommendationOutcome::Start(
                                    before.tracks@.len() as usize,
                                )
                            } else {
                                outcome.is_nothing_new()
                            }
                        },
                        _ => if old(playback)@.queue_waiting_for_recommendation {
                            outcome.is_nothing_new()
                        } else {
                            outcome is Continue
                        },
                    }
                },
            }
        },
{
    if playback.queue_generation != generation {
        return RecommendationOutcome::Late;
    }
    playback.queue_recommendation_loading = false;
    let waiting = playback.queue_waiting_for_recommendation;
    playback.queue_waiting_for_recommendation = false;
    match arrived {
        Err(error) => RecommendationOutcome::Failed(
            StatusMessage::error(labelled("继续加载推荐歌曲失败：", error.as_str())),
        ),
        Ok((tracks, continuation)) => {
            let mut first_added: Option<usize> = None;
            if let Some(queue) = queue {
                queue.continuation = continuation;
                first_added = extend_queue(&mut queue.tracks, &tracks);
            }
            if !waiting {
                RecommendationOutcome::Continue
            } else {
                match first_added {
                    Some(index) => RecommendationOutcome::Start(index),
                    None => RecommendationOutcome::NothingNew(
                        StatusMessage::info("当前推荐暂时没有更多歌曲".to_owned()),
                    ),
                }
            }
        },
    }
}

/// Loading a track puts it in the place of the current one, at the position that was asked
/// for, and takes it as playing once it is loaded where that was wished; what was loading
/// before comes too late, and nobody waits for recommendations any more. A menu of
/// qualities stays open for the same track alone.
pub proof fn loading_takes_the_place_of_what_played(
    playback: PlaybackView,
    request: StartRequest,
    same_track: bool,
    resolving: bool,
)
    ensures
        ({
            let after = started(playback, request, same_track, resolving);
            &&& after.current_track == Some(request.index)
            &&& after.loading_track == Some(request.index)
            &&& after.loading_autoplay == request.autoplay
            &&& after.position == request.resume_at@
            &&& !after.playback_started && !after.queue_waiting_for_recommendation
            &&& after.resolving_qualities == resolving
            &&& after.quality_menu_open <==> same_track && playback.quality_menu_open
            &&& playback.play_generation < u64::MAX ==> after.play_generation
                == playback.play_generation + 1
            &&& after.play_generation != playback.play_generation
            &&& after.shuffle == playback.shuffle && after.repeat_mode == playback.repeat_mode
                && after.active_quality == playback.active_quality && after.queue_generation
                == playback.queue_generation && after.seek_preview == playback.seek_preview
                && after.queue_recommendation_loading == playback.queue_recommendation_loading
        }),
{
}

/// The quality that was wished counts, and the preferred one where none was; a location
/// serves for its own track in its own quality alone.
pub proof fn a_location_serves_one_track_in_one_quality(
    request: StartRequest,
    preferred: Quality,
    loaded: PlaybackLocation,
    mid: Seq<char>,
    quality: Quality,
)
    ensures
        request.quality is None ==> chosen_quality(request, preferred) == preferred,
        request.quality is Some ==> Some(chosen_quality(request, preferred)) == request.quality,
        reusable(Some(loaded), mid, quality) <==> loaded.track_mid@ == mid && loaded.quality
            == quality,
        !reusable(None, mid, quality),
{
}

/// A track is not played without a store for audio, an output and a client; the first that
/// is missing is named.
pub proof fn a_missing_facility_is_named(facilities: Facilities)
    ensures
        refusal(facilities) is None <==> facilities.audio_cache && facilities.audio
            && facilities.client,
        !facilities.audio_cache ==> refusal(facilities) == Some("音频缓存不可用，无法创建播放流"@),
        facilities.audio_cache && !facilities.audio ==> refusal(facilities) == Some(
            "没有可用的音频输出设备"@,
        ),
        facilities.audio_cache && facilities.audio && !facilities.client ==> refusal(facilities)
            == Some("QQ 音乐客户端不可用"@),
{
}

/// Recommendations are asked for in time: once at most two tracks are left behind the
/// current one, or on demand, but only for a queue that goes on, and not twice at once.
pub proof fn recommendations_are_asked_for_in_time(
    playback: PlaybackView,
    queue: PlaybackQueue,
    force: bool,
)
    ensures
        ({
            let wanted = wanted_recommendations(playback, Some(queue), force);
            let current = match playback.current_track {
                Some(index) => index as int,
                None => 0,
            };
            let goes_on = match queue.continuation {
                None => false,
                Some(PersistedQueueContinuation::Guess) => true,
                Some(PersistedQueueContinuation::Radar { has_more, .. }) => has_more,
            };
            &&& wanted is Some <==> goes_on && !playback.queue_recommendation_loading && (force
                || current + 3 >= queue.tracks@.len())
            &&& wanted is Some ==> wanted == queue.continuation
        }),
        wanted_recommendations(playback, None, force) is None,
{
}

/// A quality that failed is offered no more, and all others are, in their order.
pub proof fn a_failed_quality_is_not_offered_again(qualities: Seq<Quality>, failed: Quality, q: Quality)
    ensures
        without_quality(Seq::empty(), failed) == Seq::<Quality>::empty(),
        without_quality(qualities.push(q), failed) == (if q == failed {
            without_quality(qualities, failed)
        } else {
            without_quality(qualities, failed).push(q)
        }),
{
    reveal(Seq::filter);
    assert(qualities.push(q).drop_last() =~= qualities);
}

/// A track goes on being loaded where it is the current one and loads, or where it was
/// loaded last.
pub proof fn a_track_goes_on_where_it_was_loaded(
    playback: PlaybackView,
    location: Option<PlaybackLocation>,
    index: usize,
    mid: Seq<char>,
)
    ensures
        continues(playback, location, index as int, mid) <==> (playback.current_track == Some(index)
            && playback.loading_track is Some) || (location is Some
            && location.unwrap().track_mid@ == mid),
{
}

} // verus!
