//! What was playing, kept for the next run, and how the listener's choice of a track
//! changes the queue.

use crate::catalog::{
    find_track, same_tracks, share_tracks, track_cards, track_place, PlaylistKey, RecommendationKind,
    Track, TrackCard, UserPlaylist, UserPlaylistId,
};
use crate::loading::{queue_track, track_at};
use crate::playback::{next_count, AudioStatus, Playback, PlaybackView};
use crate::queue::{
    canonical_queue_track_index, extend_queue, extended, insert_external_track_after_current,
    only_the_own_playlist_finds_its_tracks, queued_next, PlaybackQueue,
};
use crate::settings::{PersistedLibraryView, PersistedPlayback, PersistedQueueContinuation};
use crate::time::{Duration, Instant, NANOS_PER_MILLI, NANOS_PER_SECOND};
use std::sync::Arc;
use vstd::prelude::*;

verus! {

/// What a `PersistedPlayback` says.
pub struct PlaybackRecord {
    pub account: u64,
    pub playlist: PlaylistKey,
    pub track: Seq<char>,
    pub position_ms: u64,
    pub tracks: Seq<TrackCard>,
    pub modified: bool,
    pub continuation: Option<PersistedQueueContinuation>,
}

impl View for PersistedPlayback {
    type V = PlaybackRecord;

    open spec fn view(&self) -> PlaybackRecord {
        PlaybackRecord {
            account: self.account_id,
            playlist: self.playlist_id@,
            track: self.track_mid@,
            position_ms: self.position_ms,
            tracks: track_cards(self.queue_tracks@),
            modified: self.queue_modified,
            continuation: self.queue_continuation,
        }
    }
}

fn same_continuation(
    a: Option<PersistedQueueContinuation>,
    b: Option<PersistedQueueContinuation>,
) -> (result: bool)
    ensures
        result == (a == b),
{
    match (a, b) {
        (Some(a), Some(b)) => a == b,
        (None, None) => true,
        _ => false,
    }
}

impl PersistedPlayback {
    /// Whether both say the same.
    pub fn same(&self, other: &Self) -> (result: bool)
        ensures
            result == (self@ == other@),
    {
        self.account_id == other.account_id && self.playlist_id.same(&other.playlist_id)
            && self.track_mid.eq(&other.track_mid) && self.position_ms == other.position_ms
            && same_tracks(&self.queue_tracks, &other.queue_tracks) && self.queue_modified
            == other.queue_modified && same_continuation(
            self.queue_continuation,
            other.queue_continuation,
        )
    }
}

/// The position to keep: that of the audio output once the track plays.
pub open spec fn kept_position(playback: PlaybackView, audio: Option<AudioStatus>) -> nat {
    if playback.loading_track is Some || !playback.playback_started || audio is None {
        playback.position
    } else {
        audio.unwrap().position@
    }
}

/// The whole milliseconds of a span, as far as 64 bits hold them.
pub open spec fn kept_millis(nanos: nat) -> nat {
    let millis = nanos / NANOS_PER_MILLI as nat;
    if millis <= u64::MAX {
        millis
    } else {
        u64::MAX as nat
    }
}

/// What is to be kept of playback: nothing without an account, a queue or a current
/// track.
pub open spec fn record_of(
    playback: PlaybackView,
    queue: Option<PlaybackQueue>,
    account: Option<u64>,
    audio: Option<AudioStatus>,
) -> Option<PlaybackRecord> {
    match (account, queue, playback.current_track) {
        (Some(account), Some(queue), Some(index)) if index < queue.tracks@.len() => Some(
            PlaybackRecord {
                account,
                playlist: queue.playlist_id@,
                track: queue.tracks@[index as int].mid@,
                position_ms: kept_millis(kept_position(playback, audio)) as u64,
                tracks: track_cards(queue.tracks@),
                modified: queue.modified,
                continuation: queue.continuation,
            },
        ),
        _ => None,
    }
}

pub open spec fn record_view(record: Option<PersistedPlayback>) -> Option<PlaybackRecord> {
    match record {
        Some(record) => Some(record@),
        None => None,
    }
}

/// How long what is kept of playback may lag behind it.
pub const PERSIST_INTERVAL_SECS: u64 = 5;

/// Whether what is kept of playback is to be brought up to date, where that was done
/// `last`.
pub fn persist_is_due(playback: &Playback, last: Instant, now: Instant) -> (due: bool)
    ensures
        due == (playback@.current_track is Some && now.nanos - last.nanos
            >= PERSIST_INTERVAL_SECS * NANOS_PER_SECOND),
{
    playback.current_track.is_some() && Duration::from_secs(PERSIST_INTERVAL_SECS).is_at_most(
        now.saturating_duration_since(last),
    )
}

/// Brings what is kept of playback up to date, and says whether it is to be written.
pub fn persist_current_playback(
    playback: &mut Playback,
    queue: &Option<PlaybackQueue>,
    account: Option<u64>,
    audio: Option<AudioStatus>,
    kept: &mut Option<PersistedPlayback>,
) -> (write: bool)
    ensures
        match record_of(old(playback)@, *queue, account, audio) {
            None => final(playback)@ == old(playback)@ && *final(kept) == *old(kept) && !write,
            Some(record) => {
                &&& final(playback)@ == (PlaybackView {
                    position: kept_position(old(playback)@, audio),
                    ..old(playback)@
                })
                &&& record_view(*final(kept)) == Some(record)
                &&& write == (record_view(*old(kept)) != Some(record))
            },
        },
{
    let account_id: u64 = match account {
        Some(account) => account,
        None => {
            return false;
        },
    };
    let index: usize = match playback.current_track {
        Some(index) => index,
        None => {
            return false;
        },
    };
    match queue {
        None => false,
        Some(queue) => {
            if index >= queue.tracks.len() {
                return false;
            }
            let position = if playback.loading_track.is_some() || !playback.playback_started {
                playback.position
            } else {
                match audio {
                    Some(audio) => audio.position,
                    None => playback.position,
                }
            };
            playback.position = position;
            let millis: u128 = position.as_millis();
            let record = PersistedPlayback {
                account_id,
                playlist_id: queue.playlist_id.clone(),
                track_mid: queue.tracks[index].mid.clone(),
                position_ms: if millis <= u64::MAX as u128 {
                    millis as u64
                } else {
                    u64::MAX
                },
                queue_tracks: share_tracks(&queue.tracks),
                queue_modified: queue.modified,
                queue_continuation: queue.continuation,
            };
            let unchanged: bool = match &*kept {
                Some(before) => before.same(&record),
                None => false,
            };
            if unchanged {
                return false;
            }
            *kept = Some(record);
            true
        },
    }
}

/// The state with a queue in the place of the one before: requests for that one come
/// too late.
pub open spec fn queue_replaced(playback: PlaybackView) -> PlaybackView {
    PlaybackView {
        queue_generation: next_count(playback.queue_generation),
        queue_recommendation_loading: false,
        queue_waiting_for_recommendation: false,
        ..playback
    }
}

fn mark_replaced(playback: &mut Playback)
    ensures
        final(playback)@ == queue_replaced(old(playback)@),
{
    playback.queue_generation = playback.queue_generation.wrapping_add(1);
    playback.queue_recommendation_loading = false;
    playback.queue_waiting_for_recommendation = false;
}

/// Takes up the queue of an earlier run. Gives the track to load and the position in
/// it, where the queue holds the track that played; where it does not, nothing is kept
/// any more. Says as well whether the settings are to be written by that.
pub fn restore_playback_queue(
    playback: &mut Playback,
    queue: &mut Option<PlaybackQueue>,
    pending_restore: &mut Option<PersistedPlayback>,
    kept: &mut Option<PersistedPlayback>,
    restore: PersistedPlayback,
) -> (restored: (Option<(usize, Duration)>, bool))
    ensures
        *final(pending_restore) is None,
        match track_place(restore.queue_tracks@, restore.track_mid@) {
            None => {
                &&& restored.0 is None
                &&& final(playback)@ == old(playback)@ && *final(queue) == *old(queue)
                &&& *final(kept) is None
                &&& restored.1 == (*old(kept) is Some)
            },
            Some(index) => {
                &&& restored.0 is Some
                &&& restored.0.unwrap().0 == index
                &&& restored.0.unwrap().1@ == restore.resume_nanos(
                    restore.queue_tracks@[index].duration_seconds,
                )
                &&& final(playback)@ == queue_replaced(old(playback)@)
                &&& *final(queue) == Some(
                    (PlaybackQueue {
                        playlist_id: restore.playlist_id,
                        tracks: restore.queue_tracks,
                        modified: restore.queue_modified,
                        continuation: restore.queue_continuation,
                    }),
                )
                &&& *final(kept) == *old(kept) && !restored.1
            },
        },
{
    *pending_restore = None;
    match find_track(&restore.queue_tracks, &restore.track_mid) {
        None => {
            let write = kept.is_some();
            *kept = None;
            (None, write)
        },
        Some(index) => {
            let resume_at = restore.resume_position(restore.queue_tracks[index].duration_seconds);
            mark_replaced(playback);
            *queue = Some(
                PlaybackQueue {
                    playlist_id: restore.playlist_id,
                    tracks: restore.queue_tracks,
                    modified: restore.queue_modified,
                    continuation: restore.queue_continuation,
                },
            );
            (Some((index, resume_at)), false)
        },
    }
}

/// What was playing is taken up again where it was left: what is kept of a queue
/// restores that queue, the track in it, and the position to the millisecond.
pub proof fn playback_survives_a_restart(
    playback: PlaybackView,
    queue: PlaybackQueue,
    account: u64,
    audio: Option<AudioStatus>,
    kept: PersistedPlayback,
)
    requires
        record_of(playback, Some(queue), Some(account), audio) == Some(kept@),
        kept.queue_tracks@ == queue.tracks@,
        playback.current_track is Some,
        track_place(queue.tracks@, kept.track_mid@) == Some(playback.current_track.unwrap() as int),
        kept_position(playback, audio) < queue.tracks@[playback.current_track.unwrap() as int].duration_seconds
            * crate::time::NANOS_PER_SECOND,
        kept_position(playback, audio) / NANOS_PER_MILLI as nat <= u64::MAX,
    ensures
        ({
            let index = playback.current_track.unwrap() as int;
            let position = kept_position(playback, audio);
            let resumed = kept.resume_nanos(queue.tracks@[index].duration_seconds);
            &&& kept.track_mid@ == queue.tracks@[index].mid@
            &&& kept.playlist_id@ == queue.playlist_id@
            &&& resumed <= position < resumed + NANOS_PER_MILLI
        }),
{
    let position = kept_position(playback, audio);
    let millis = position / NANOS_PER_MILLI as nat;
    assert(millis * NANOS_PER_MILLI as nat <= position);
    assert(position < millis * NANOS_PER_MILLI as nat + NANOS_PER_MILLI as nat);
}

/// The rest of a playlist that is loaded for its queue.
#[derive(Debug)]
pub struct QueueRest {
    /// The number of the queue.
    pub generation: u64,
    /// Where the next page begins.
    pub offset: u64,
    pub has_more: bool,
    /// What has been loaded.
    pub tracks: Vec<Arc<Track>>,
}

impl QueueRest {
    /// Nothing has been loaded yet, and the next page begins at `offset`.
    pub open spec fn begins(self, generation: u64, offset: u64) -> bool {
        self.generation == generation && self.offset == offset && self.has_more
            && self.tracks@.len() == 0
    }

    /// Takes in a page.
    pub fn take_page(&mut self, tracks: &Vec<Arc<Track>>, has_more: bool, next_offset: u64)
        ensures
            final(self).generation == old(self).generation,
            final(self).offset == next_offset,
            final(self).has_more == has_more,
            final(self).tracks@ == old(self).tracks@ + tracks@,
    {
        self.offset = next_offset;
        self.has_more = has_more;
        let mut more = share_tracks(tracks);
        self.tracks.append(&mut more);
    }
}

/// Makes the tracks of a playlist the queue. Recommendations that were asked for no
/// longer take its place. Gives the rest of the playlist that is to be loaded, where
/// there is one: from `page_offset` on, where the pages of the playlist are at hand,
/// and else behind the tracks.
pub fn replace_playback_queue(
    playback: &mut Playback,
    queue: &mut Option<PlaybackQueue>,
    recommendation_loading: &mut Option<RecommendationKind>,
    playlist_id: UserPlaylistId,
    tracks: Vec<Arc<Track>>,
    has_more: bool,
    page_offset: Option<u64>,
    signed_in: bool,
    client: bool,
) -> (rest: Option<QueueRest>)
    ensures
        final(playback)@ == queue_replaced(old(playback)@),
        *final(recommendation_loading) is None,
        *final(queue) == Some(
            (PlaybackQueue { playlist_id, tracks, modified: false, continuation: None }),
        ),
        rest is Some <==> has_more && signed_in && client,
        rest matches Some(rest) ==> rest.begins(
            final(playback)@.queue_generation,
            match page_offset {
                Some(offset) => offset,
                None => tracks@.len() as u64,
            },
        ),
{
    *recommendation_loading = None;
    mark_replaced(playback);
    let offset: u64 = match page_offset {
        Some(offset) => offset,
        None => tracks.len() as u64,
    };
    *queue = Some(PlaybackQueue { playlist_id, tracks, modified: false, continuation: None });
    if has_more && signed_in && client {
        Some(
            QueueRest {
                generation: playback.queue_generation,
                offset,
                has_more: true,
                tracks: Vec::new(),
            },
        )
    } else {
        None
    }
}

/// Adds the rest of a playlist to its queue, where that is still the queue.
pub fn complete_playback_queue(
    playback: &Playback,
    queue: &mut Option<PlaybackQueue>,
    rest: &QueueRest,
) -> (changed: bool)
    ensures
        match (*old(queue), *final(queue)) {
            (Some(before), Some(after)) => if rest.generation == playback@.queue_generation {
                changed && after.tracks@ == extended(before.tracks@, rest.tracks@) && after.playlist_id
                    == before.playlist_id && after.modified == before.modified
                    && after.continuation == before.continuation
            } else {
                !changed && after == before
            },
            (None, None) => !changed,
            _ => false,
        },
{
    if playback.queue_generation != rest.generation {
        return false;
    }
    match queue {
        None => false,
        Some(queue) => {
            let _ = extend_queue(&mut queue.tracks, &rest.tracks);
            true
        },
    }
}

/// What choosing a track of a list leads to.
#[derive(Clone, Copy, Debug, PartialEq, Eq, Structural)]
pub enum Selection {
    Nothing,
    /// It is the current track: pause it or go on with it.
    Toggle,
    /// It is in the queue already.
    Start(usize),
    /// The list becomes the queue.
    Replace,
}

/// What choosing a track of a playlist leads to.
pub open spec fn selected(
    playback: PlaybackView,
    queue: Option<PlaybackQueue>,
    playlist: PlaylistKey,
    mid: Seq<char>,
) -> Selection {
    let place = match queue {
        Some(queue) => queue.canonical_index(playlist, mid),
        None => None,
    };
    match place {
        None => Selection::Replace,
        Some(index) => if playback.current_track is Some && playback.current_track.unwrap()
            == index {
            if playback.loading_track is None {
                Selection::Toggle
            } else {
                Selection::Nothing
            }
        } else {
            Selection::Start(index as usize)
        },
    }
}

pub fn select_track(
    playback: &Playback,
    queue: &Option<PlaybackQueue>,
    playlist_id: &UserPlaylistId,
    mid: &str,
) -> (selection: Selection)
    ensures
        selection == selected(playback@, *queue, playlist_id@, mid@),
{
    let place: Option<usize> = match queue {
        Some(queue) => canonical_queue_track_index(queue, playlist_id, mid),
        None => None,
    };
    match place {
        None => Selection::Replace,
        Some(index) => {
            let current: bool = match playback.current_track {
                Some(current) => current == index,
                None => false,
            };
            if current {
                if playback.loading_track.is_none() {
                    Selection::Toggle
                } else {
                    Selection::Nothing
                }
            } else {
                Selection::Start(index)
            }
        },
    }
}

/// The current track has this id.
pub open spec fn plays(playback: PlaybackView, queue: Option<PlaybackQueue>, mid: Seq<char>) -> bool {
    match playback.current_track {
        Some(index) => match track_at(queue, index as int) {
            Some(track) => track.mid@ == mid,
            None => false,
        },
        None => false,
    }
}

pub fn is_current(playback: &Playback, queue: &Option<PlaybackQueue>, mid: &String) -> (result: bool)
    ensures
        result == plays(playback@, *queue, mid@),
{
    match playback.current_track {
        Some(index) => match queue_track(queue, index) {
            Some(track) => track.mid.eq(mid),
            None => false,
        },
        None => false,
    }
}

/// Chooses the track at `index` of a list: one that is in the queue already plays from
/// there, and for any other the list becomes the queue. In that case neither what an
/// earlier run left nor recommendations that were asked for take its place any more.
/// Gives the rest of the playlist that is to be loaded as well.
pub fn select_from_list(
    playback: &mut Playback,
    queue: &mut Option<PlaybackQueue>,
    pending_restore: &mut Option<PersistedPlayback>,
    recommendation_loading: &mut Option<RecommendationKind>,
    playlist_id: &UserPlaylistId,
    tracks: &Vec<Arc<Track>>,
    index: usize,
    has_more: bool,
    page_offset: Option<u64>,
    signed_in: bool,
    client: bool,
) -> (chosen: (Selection, Option<QueueRest>))
    requires
        index < tracks@.len(),
    ensures
        ({
            let wish = selected(
                old(playback)@,
                *old(queue),
                playlist_id@,
                tracks@[index as int].mid@,
            );
            if wish is Replace {
                &&& chosen.0 == Selection::Start(index)
                &&& final(playback)@ == queue_replaced(old(playback)@)
                &&& *final(pending_restore) is None
                &&& *final(recommendation_loading) is None
                &&& *final(queue) is Some
                &&& (*final(queue)).unwrap().playlist_id@ == playlist_id@
                &&& (*final(queue)).unwrap().tracks@ == tracks@
                &&& !(*final(queue)).unwrap().modified
                &&& (*final(queue)).unwrap().continuation is None
                &&& (chosen.1 is Some <==> has_more && signed_in && client)
                &&& chosen.1 matches Some(rest) ==> rest.begins(
                    final(playback)@.queue_generation,
                    match page_offset {
                        Some(offset) => offset,
                        None => tracks@.len() as u64,
                    },
                )
            } else {
                &&& chosen.0 == wish && chosen.1 is None
                &&& final(playback)@ == old(playback)@ && *final(queue) == *old(queue)
                &&& *final(pending_restore) == *old(pending_restore)
                &&& *final(recommendation_loading) == *old(recommendation_loading)
            }
        }),
        *final(queue) is Some,
        (*final(queue)).unwrap().playlist_id@ == playlist_id@,
        !(*final(queue)).unwrap().modified,
        match chosen.0 {
            Selection::Start(place) => place < (*final(queue)).unwrap().tracks@.len()
                && (*final(queue)).unwrap().tracks@[place as int].mid@
                == tracks@[index as int].mid@,
            Selection::Toggle | Selection::Nothing => final(playback).current_track is Some,
            Selection::Replace => false,
        },
{
    proof {
        a_choice_keeps_to_its_playlist(
            playback@,
            *queue,
            playlist_id@,
            tracks@[index as int].mid@,
        );
    }
    let wish = select_track(playback, queue, playlist_id, tracks[index].mid.as_str());
    match wish {
        Selection::Replace => {
            *pending_restore = None;
            let rest = replace_playback_queue(
                playback,
                queue,
                recommendation_loading,
                playlist_id.clone(),
                share_tracks(tracks),
                has_more,
                page_offset,
                signed_in,
                client,
            );
            (Selection::Start(index), rest)
        },
        _ => (wish, None),
    }
}

/// Chooses a track that was searched for: the current one is paused or goes on, and
/// any other one plays next, behind the current track of the queue. Without a queue
/// it becomes one. Where it plays, neither what an earlier run left nor recommendations
/// that were asked for take its place any more.
pub fn select_search_track(
    playback: &Playback,
    queue: &mut Option<PlaybackQueue>,
    pending_restore: &mut Option<PersistedPlayback>,
    recommendation_loading: &mut Option<RecommendationKind>,
    track: Arc<Track>,
    query: &String,
) -> (selection: Selection)
    requires
        *old(queue) matches Some(queue) ==> queue.tracks@.len() < usize::MAX,
    ensures
        plays(playback@, *old(queue), track.mid@) ==> *final(pending_restore) == *old(
            pending_restore,
        ) && *final(recommendation_loading) == *old(recommendation_loading),
        !plays(playback@, *old(queue), track.mid@) ==> *final(pending_restore) is None,
        !plays(playback@, *old(queue), track.mid@) ==> *final(recommendation_loading) is None,
        plays(playback@, *old(queue), track.mid@) ==> *final(queue) == *old(queue) && selection
            == (if playback@.loading_track is None {
            Selection::Toggle
        } else {
            Selection::Nothing
        }),
        !plays(playback@, *old(queue), track.mid@) ==> match (*old(queue), *final(queue)) {
            (Some(before), Some(after)) => {
                let (tracks, index) = queued_next(before.tracks@, playback@.current_track, track);
                &&& after.tracks@ == tracks && after.modified && after.playlist_id
                    == before.playlist_id && after.continuation == before.continuation
                &&& selection == Selection::Start(index as usize)
            },
            (None, Some(after)) => {
                &&& after.tracks@ == seq![track] && !after.modified && after.playlist_id@
                    == (PlaylistKey::Search { query: query@ }) && after.continuation is None
                &&& selection == Selection::Start(0)
            },
            _ => false,
        },
{
    if is_current(playback, queue, &track.mid) {
        return if playback.loading_track.is_none() {
            Selection::Toggle
        } else {
            Selection::Nothing
        };
    }
    *pending_restore = None;
    *recommendation_loading = None;
    if let Some(queue) = queue {
        return Selection::Start(
            insert_external_track_after_current(queue, playback.current_track, track),
        );
    }
    let mut tracks: Vec<Arc<Track>> = Vec::new();
    tracks.push(track);
    assert(tracks@ =~= seq![track]);
    *queue = Some(
        PlaybackQueue {
            playlist_id: UserPlaylistId::Search { query: query.clone() },
            tracks,
            modified: false,
            continuation: None,
        },
    );
    Selection::Start(0)
}

/// Where the track at `index` stands once another track was queued next at `place`
/// behind it.
pub open spec fn index_after_queueing(
    tracks: Seq<Arc<Track>>,
    index: Option<usize>,
    mid: Seq<char>,
    place: int,
) -> Option<usize> {
    match index {
        Some(i) if i < tracks.len() && tracks[i as int].mid@ != mid => Some((place - 1) as usize),
        _ => index,
    }
}

/// Puts a track next in the queue without playing it, and follows the current track to
/// its new place. Does nothing without a queue.
pub fn enqueue_next(
    playback: &mut Playback,
    queue: &mut Option<PlaybackQueue>,
    track: Arc<Track>,
) -> (place: Option<usize>)
    requires
        *old(queue) matches Some(queue) ==> queue.tracks@.len() < usize::MAX,
        old(playback).loading_track is Some ==> old(playback).loading_track
            == old(playback).current_track,
    ensures
        match (*old(queue), *final(queue)) {
            (Some(before), Some(after)) => {
                let (tracks, index) = queued_next(
                    before.tracks@,
                    old(playback)@.current_track,
                    track,
                );
                let current = index_after_queueing(
                    before.tracks@,
                    old(playback)@.current_track,
                    track.mid@,
                    index,
                );
                &&& after.tracks@ == tracks && after.modified && after.playlist_id
                    == before.playlist_id && after.continuation == before.continuation
                &&& place == Some(index as usize)
                &&& final(playback)@ == (PlaybackView {
                    current_track: current,
                    loading_track: if old(playback)@.loading_track is Some {
                        current
                    } else {
                        None
                    },
                    ..old(playback)@
                })
            },
            (None, None) => place is None && final(playback)@ == old(playback)@,
            _ => false,
        },
{
    match queue {
        None => None,
        Some(queue) => {
            let follow: bool = match playback.current_track {
                Some(index) => index < queue.tracks.len() && !queue.tracks[index].mid.eq(&track.mid),
                None => false,
            };
            proof {
                crate::catalog::track_place_is_first(queue.tracks@, track.mid@);
            }
            let place = insert_external_track_after_current(queue, playback.current_track, track);
            if follow {
                playback.current_track = Some(place - 1);
                if playback.loading_track.is_some() {
                    playback.loading_track = Some(place - 1);
                }
            }
            Some(place)
        },
    }
}

/// Queueing a track next leaves the track that plays the current one, and puts the new
/// one right behind it.
pub proof fn queueing_next_keeps_current_track(
    tracks: Seq<Arc<Track>>,
    index: usize,
    track: Arc<Track>,
)
    requires
        index < tracks.len(),
        crate::queue::distinct_tracks(tracks),
    ensures
        ({
            let (after, place) = queued_next(tracks, Some(index), track);
            let current = index_after_queueing(tracks, Some(index), track.mid@, place);
            &&& current is Some && current.unwrap() < after.len()
            &&& after[current.unwrap() as int] == tracks[index as int]
            &&& tracks[index as int].mid@ != track.mid@ ==> place == current.unwrap() + 1
                && after[place].mid@ == track.mid@
        }),
{
    crate::catalog::track_place_is_first(tracks, track.mid@);
    crate::queue::queueing_next_keeps_tracks_distinct(tracks, Some(index), track);
}

/// What is kept of playback is good for the next run: normalizing the settings does
/// not discard it.
pub proof fn kept_playback_is_restorable(
    playback: PlaybackView,
    queue: PlaybackQueue,
    account: u64,
    audio: Option<AudioStatus>,
    kept: PersistedPlayback,
)
    requires
        record_of(playback, Some(queue), Some(account), audio) == Some(kept@),
        crate::scan::trim(kept.track_mid@).len() > 0,
    ensures
        kept.restorable(),
{
    let index = playback.current_track.unwrap() as int;
    crate::catalog::track_place_is_first(kept.queue_tracks@, kept.track_mid@);
    assert(track_cards(kept.queue_tracks@).len() == kept.queue_tracks@.len());
    assert(track_cards(queue.tracks@).len() == queue.tracks@.len());
    assert(track_cards(kept.queue_tracks@)[index] == track_cards(queue.tracks@)[index]);
    assert((*kept.queue_tracks@[index])@.mid == (*queue.tracks@[index])@.mid);
    if track_place(kept.queue_tracks@, kept.track_mid@) is None {
        assert(kept.queue_tracks@[index].mid@ != kept.track_mid@);
    }
}

/// The rows of a list that play and that load.
pub open spec fn marked_row(
    queue: Option<PlaybackQueue>,
    index: Option<usize>,
    shown: Seq<Arc<Track>>,
) -> Option<int> {
    match index {
        Some(index) => match track_at(queue, index as int) {
            Some(track) => track_place(shown, track.mid@),
            None => None,
        },
        None => None,
    }
}

fn find_row(
    queue: &Option<PlaybackQueue>,
    index: Option<usize>,
    shown: &Vec<Arc<Track>>,
) -> (row: Option<usize>)
    ensures
        match row {
            Some(row) => marked_row(*queue, index, shown@) == Some(row as int),
            None => marked_row(*queue, index, shown@) is None,
        },
{
    match index {
        Some(index) => match queue_track(queue, index) {
            Some(track) => find_track(shown, &track.mid),
            None => None,
        },
        None => None,
    }
}

/// Finds the rows of a list whose tracks play and load.
pub fn sync_table_playback_state(
    playback: &Playback,
    queue: &Option<PlaybackQueue>,
    shown: &Vec<Arc<Track>>,
) -> (rows: (Option<usize>, Option<usize>))
    ensures
        match rows.0 {
            Some(row) => marked_row(*queue, playback@.current_track, shown@) == Some(row as int),
            None => marked_row(*queue, playback@.current_track, shown@) is None,
        },
        match rows.1 {
            Some(row) => marked_row(*queue, playback@.loading_track, shown@) == Some(row as int),
            None => marked_row(*queue, playback@.loading_track, shown@) is None,
        },
{
    (
        find_row(queue, playback.current_track, shown),
        find_row(queue, playback.loading_track, shown),
    )
}

/// Where the playlist that was viewed last stands in the library of an account.
pub open spec fn viewed_place(
    view: Option<PersistedLibraryView>,
    account: u64,
    playlists: Seq<UserPlaylist>,
    from: int,
) -> Option<int>
    decreases playlists.len() - from,
{
    if view is None || view.unwrap().account_id != account || from < 0 || from >= playlists.len() {
        None
    } else if playlists[from].id@ == view.unwrap().playlist_id@ {
        Some(from)
    } else {
        viewed_place(view, account, playlists, from + 1)
    }
}

pub fn viewed_playlist(
    view: &Option<PersistedLibraryView>,
    account: u64,
    playlists: &Vec<UserPlaylist>,
) -> (index: Option<usize>)
    ensures
        match index {
            Some(i) => viewed_place(*view, account, playlists@, 0) == Some(i as int),
            None => viewed_place(*view, account, playlists@, 0) is None,
        },
{
    match view {
        None => None,
        Some(seen) => {
            if seen.account_id != account {
                return None;
            }
            let mut i: usize = 0;
            while i < playlists.len()
                invariant
                    i <= playlists@.len(),
                    *view == Some(*seen),
                    seen.account_id == account,
                    viewed_place(*view, account, playlists@, 0) == viewed_place(
                        *view,
                        account,
                        playlists@,
                        i as int,
                    ),
                decreases playlists.len() - i,
            {
                if playlists[i].id.same(&seen.playlist_id) {
                    return Some(i);
                }
                i += 1;
            }
            None
        },
    }
}

/// Remembers the playlist that is viewed, and says whether that is news.
pub fn remember_view(
    view: &mut Option<PersistedLibraryView>,
    account_id: u64,
    playlist_id: &UserPlaylistId,
) -> (changed: bool)
    ensures
        *final(view) is Some,
        (*final(view)).unwrap().account_id == account_id,
        (*final(view)).unwrap().playlist_id@ == playlist_id@,
        changed == (*old(view) is None || (*old(view)).unwrap().account_id != account_id || (*old(
            view,
        )).unwrap().playlist_id@ != playlist_id@),
{
    let known: bool = match &*view {
        Some(view) => view.account_id == account_id && view.playlist_id.same(playlist_id),
        None => false,
    };
    if known {
        return false;
    }
    *view = Some(PersistedLibraryView { account_id, playlist_id: playlist_id.clone() });
    true
}

/// A choice goes on with the queue only where the queue is the playlist that was chosen
/// from, unchanged, and holds the track; for any other playlist the list becomes the
/// queue. What starts is a track with the chosen id, and only the current track is
/// toggled, unless a track is being loaded.
pub proof fn a_choice_keeps_to_its_playlist(
    playback: PlaybackView,
    queue: Option<PlaybackQueue>,
    playlist: PlaylistKey,
    mid: Seq<char>,
)
    ensures
        ({
            let wish = selected(playback, queue, playlist, mid);
            &&& queue is None ==> wish is Replace
            &&& queue matches Some(queue) ==> {
                let tracks = queue.tracks@;
                &&& queue.playlist_id@ != playlist ==> wish is Replace
                &&& queue.modified ==> wish is Replace
                &&& queue.playlist_id@ == playlist && !queue.modified ==> (wish is Replace
                    <==> forall|i: int| 0 <= i < tracks.len() ==> (#[trigger] tracks[i]).mid@ != mid)
                &&& wish matches Selection::Start(index) ==> index < tracks.len()
                    && tracks[index as int].mid@ == mid && playback.current_track != Some(index)
                    && forall|i: int| 0 <= i < index ==> (#[trigger] tracks[i]).mid@ != mid
                &&& wish is Toggle || wish is Nothing ==> playback.current_track is Some && ({
                    let current = playback.current_track.unwrap() as int;
                    current < tracks.len() && tracks[current].mid@ == mid
                })
                &&& wish is Toggle ==> playback.loading_track is None
                &&& wish is Nothing ==> playback.loading_track is Some
            }
        }),
{
    if let Some(queue) = queue {
        only_the_own_playlist_finds_its_tracks(queue, playlist, mid);
        assert(queue.tracks@.len() <= usize::MAX) by {
            let count = queue.tracks.len();
        }
    }
}

/// A queue in the place of another makes what was asked for the old one come too late,
/// and changes nothing that plays.
pub proof fn replacing_a_queue_outdates_requests(playback: PlaybackView)
    ensures
        ({
            let after = queue_replaced(playback);
            &&& after.queue_generation != playback.queue_generation
            &&& playback.queue_generation < u64::MAX ==> after.queue_generation
                == playback.queue_generation + 1
            &&& !after.queue_recommendation_loading && !after.queue_waiting_for_recommendation
            &&& after.current_track == playback.current_track && after.loading_track
                == playback.loading_track && after.position == playback.position
                && after.playback_started == playback.playback_started
                && after.play_generation == playback.play_generation && after.shuffle
                == playback.shuffle && after.repeat_mode == playback.repeat_mode
        }),
{
}

/// What is kept is the current track of the queue, with the whole milliseconds that it has
/// played: those of the output once it plays, and the last known ones while it loads or
/// rests. Without an account, a queue or a current track nothing is kept.
pub proof fn the_current_track_is_kept(
    playback: PlaybackView,
    queue: Option<PlaybackQueue>,
    account: Option<u64>,
    audio: Option<AudioStatus>,
)
    ensures
        ({
            let kept = record_of(playback, queue, account, audio);
            let known = account is Some && queue is Some && playback.current_track is Some
                && playback.current_track.unwrap() < queue.unwrap().tracks@.len();
            let runs = playback.loading_track is None && playback.playback_started && audio
                is Some;
            let position = if runs {
                audio.unwrap().position@
            } else {
                playback.position
            };
            &&& kept is Some <==> known
            &&& kept matches Some(kept) ==> {
                &&& kept.account == account.unwrap()
                &&& kept.playlist == queue.unwrap().playlist_id@
                &&& kept.track
                    == queue.unwrap().tracks@[playback.current_track.unwrap() as int].mid@
                &&& kept.tracks.len() == queue.unwrap().tracks@.len()
                &&& forall|i: int|
                    0 <= i < kept.tracks.len() ==> #[trigger] kept.tracks[i]
                        == (*queue.unwrap().tracks@[i])@
                &&& kept.modified == queue.unwrap().modified
                &&& kept.continuation == queue.unwrap().continuation
                &&& position < 1_000_000 * u64::MAX ==> 1_000_000 * kept.position_ms <= position
                    < 1_000_000 * kept.position_ms + 1_000_000
                &&& position >= 1_000_000 * u64::MAX ==> kept.position_ms == u64::MAX
            }
        }),
{
}

/// The playlist that was viewed last is the first one with its id, and counts for its own
/// account alone.
pub proof fn the_last_view_is_found_again(
    view: Option<PersistedLibraryView>,
    account: u64,
    playlists: Seq<UserPlaylist>,
)
    ensures
        match viewed_place(view, account, playlists, 0) {
            Some(i) => view is Some && view.unwrap().account_id == account && 0 <= i
                < playlists.len() && playlists[i].id@ == view.unwrap().playlist_id@ && forall|j:
                int|
                0 <= j < i ==> (#[trigger] playlists[j]).id@ != view.unwrap().playlist_id@,
            None => view is None || view.unwrap().account_id != account || forall|j: int|
                0 <= j < playlists.len() ==> (#[trigger] playlists[j]).id@
                    != view.unwrap().playlist_id@,
        },
{
    viewed_place_is_first(view, account, playlists, 0);
}

proof fn viewed_place_is_first(
    view: Option<PersistedLibraryView>,
    account: u64,
    playlists: Seq<UserPlaylist>,
    from: int,
)
    requires
        0 <= from,
    ensures
        match viewed_place(view, account, playlists, from) {
            Some(i) => view is Some && view.unwrap().account_id == account && from <= i
                < playlists.len() && playlists[i].id@ == view.unwrap().playlist_id@ && forall|j:
                int|
                from <= j < i ==> (#[trigger] playlists[j]).id@ != view.unwrap().playlist_id@,
            None => view is None || view.unwrap().account_id != account || forall|j: int|
                from <= j < playlists.len() ==> (#[trigger] playlists[j]).id@
                    != view.unwrap().playlist_id@,
        },
    decreases playlists.len() - from,
{
    if view is Some && view.unwrap().account_id == account && from < playlists.len() {
        viewed_place_is_first(view, account, playlists, from + 1);
    }
}

/// A row is marked for a track of the queue where it has the same id, the first of several.
pub proof fn the_marked_row_has_the_track(
    queue: PlaybackQueue,
    index: usize,
    shown: Seq<Arc<Track>>,
)
    requires
        index < queue.tracks@.len(),
    ensures
        match marked_row(Some(queue), Some(index), shown) {
            Some(row) => 0 <= row < shown.len() && shown[row].mid@
                == queue.tracks@[index as int].mid@ && forall|i: int|
                0 <= i < row ==> (#[trigger] shown[i]).mid@ != queue.tracks@[index as int].mid@,
            None => forall|i: int|
                0 <= i < shown.len() ==> (#[trigger] shown[i]).mid@
                    != queue.tracks@[index as int].mid@,
        },
        marked_row(Some(queue), None, shown) is None,
        marked_row(None, Some(index), shown) is None,
{
    crate::catalog::track_place_is_first(shown, queue.tracks@[index as int].mid@);
}

/// A track is the current one by its id.
pub proof fn a_track_plays_by_its_id(
    playback: PlaybackView,
    queue: Option<PlaybackQueue>,
    mid: Seq<char>,
)
    ensures
        plays(playback, queue, mid) <==> queue is Some && playback.current_track is Some
            && playback.current_track.unwrap() < queue.unwrap().tracks@.len()
            && queue.unwrap().tracks@[playback.current_track.unwrap() as int].mid@ == mid,
{
}

/// The rest of a playlist is loaded from where the list on show ends, for the queue that it
/// belongs to.
pub proof fn the_rest_is_loaded_from_where_the_list_ends(
    rest: QueueRest,
    generation: u64,
    offset: u64,
)
    requires
        rest.begins(generation, offset),
    ensures
        rest.generation == generation,
        rest.offset == offset,
        rest.has_more,
        rest.tracks@.len() == 0,
{
}

} // verus!
