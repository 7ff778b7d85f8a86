//! What a remote control's commands lead to.

use crate::loading::queue_track;
use crate::mpris::{
    current_track, mode_of, mpris_track_id, queue_size, repeat_mode_for, track_id, MprisCommand,
};
use crate::playback::{
    length_micros, micros, nanos_of, other_track, seek_target, Act, AudioStatus, Playback, PlaybackAction, PlaybackView,
    SeekWish,
};
use crate::queue::PlaybackQueue;
use crate::settings::PersistedQueueContinuation;
use crate::time::Duration;
use crate::views::player::{current_duration, length_of};
use crate::volume::Loudness;
use vstd::prelude::*;

verus! {

/// What is to be done.
#[derive(Clone, Copy, Debug, PartialEq, Eq, Structural)]
pub enum RemoteAction {
    Nothing,
    Perform(PlaybackAction),
    /// Playback was stopped.
    Stopped,
    /// The state changed, and the controls are to show it.
    Refresh,
    /// The volume changed, and is to be kept.
    VolumeChanged,
}

pub open spec fn continuation_of(queue: Option<PlaybackQueue>) -> Option<PersistedQueueContinuation> {
    match queue {
        Some(queue) => queue.continuation,
        None => None,
    }
}

/// The action carries out `act`.
pub open spec fn performs(action: RemoteAction, act: Act) -> bool {
    match action {
        RemoteAction::Perform(performed) => performed@ == act,
        _ => false,
    }
}

/// What a command leads to, where the state that goes with it is given as well.
pub open spec fn commanded(
    before: PlaybackView,
    after: PlaybackView,
    loudness: (Loudness, Loudness),
    queue: Option<PlaybackQueue>,
    audio: Option<AudioStatus>,
    tracks_shown: bool,
    seed: int,
    command: MprisCommand,
    action: RemoteAction,
) -> bool {
    let length = length_of(before, queue);
    let size = queue_size(queue);
    let next = before.following(
        false,
        size,
        continuation_of(queue),
        other_track(seed, before.current_track.unwrap() as int, size),
    );
    &&& loudness.1 == (match command {
        MprisCommand::SetVolume(volume) => loudness.0.with_volume(volume),
        _ => loudness.0,
    })
    &&& match command {
        MprisCommand::Raise | MprisCommand::Quit => action == RemoteAction::Nothing && after
            == before,
        MprisCommand::Next => performs(action, next) && after == before.after(next, length),
        MprisCommand::Previous => performs(action, before.previous(size, length, audio)) && after
            == before,
        MprisCommand::Pause => performs(action, before.paused(audio, tracks_shown)) && after
            == before,
        MprisCommand::PlayPause => performs(action, before.toggled(audio, tracks_shown)) && after
            == before,
        MprisCommand::Play => performs(action, before.played(audio, tracks_shown)) && after
            == before,
        MprisCommand::Stop => after == before.stopped() && action == (if before.current_track
            is Some {
            RemoteAction::Stopped
        } else {
            RemoteAction::Nothing
        }),
        MprisCommand::Seek(offset) => {
            let target = seek_target(before, offset, audio);
            if before.loading_track is Some || !before.playback_started || length is None {
                action == RemoteAction::Nothing && after == before
            } else if target >= micros(length.unwrap()) {
                performs(action, next) && after == before.after(next, length)
            } else {
                performs(action, before.sought((target * 1000) as nat, length, audio)) && after
                    == before
            }
        },
        MprisCommand::SetPosition { track_id: named, position } => {
            let track = current_track(before, queue);
            after == before && if before.loading_track is None && before.playback_started && track
                is Some && named@ == track_id(track.unwrap().mid@) && 0 <= position
                < length_micros(track.unwrap().duration_seconds) {
                performs(action, before.sought((position * 1000) as nat, length, audio))
            } else {
                action == RemoteAction::Nothing
            }
        },
        MprisCommand::SetLoopStatus(status) => action == RemoteAction::Refresh && after == (
        PlaybackView { repeat_mode: mode_of(status), ..before }),
        MprisCommand::SetShuffle(shuffle) => action == RemoteAction::Refresh && after == (
        PlaybackView { shuffle, ..before }),
        MprisCommand::SetVolume(volume) => action == RemoteAction::VolumeChanged && after == before,
    }
}

fn go_on(
    playback: &mut Playback,
    queue: &Option<PlaybackQueue>,
    seed: usize,
    duration: Option<Duration>,
) -> (action: PlaybackAction)
    ensures
        action@ == old(playback)@.following(
            false,
            queue_size(*queue),
            continuation_of(*queue),
            other_track(
                seed as int,
                old(playback)@.current_track.unwrap() as int,
                queue_size(*queue),
            ),
        ),
        final(playback)@ == old(playback)@.after(action@, nanos_of(duration)),
{
    let (len, continuation): (usize, Option<PersistedQueueContinuation>) = match queue {
        Some(queue) => (queue.tracks.len(), queue.continuation),
        None => (0, None),
    };
    playback.play_next(false, len, continuation, seed, duration)
}

/// Follows a command of a remote control.
pub fn handle_mpris_command(
    playback: &mut Playback,
    loudness: &mut Loudness,
    queue: &Option<PlaybackQueue>,
    audio: Option<AudioStatus>,
    tracks_shown: bool,
    seed: usize,
    command: MprisCommand,
) -> (action: RemoteAction)
    ensures
        commanded(
            old(playback)@,
            final(playback)@,
            (*old(loudness), *final(loudness)),
            *queue,
            audio,
            tracks_shown,
            seed as int,
            command,
            action,
        ),
{
    let duration = current_duration(playback, queue);
    match command {
        MprisCommand::Raise => RemoteAction::Nothing,
        MprisCommand::Quit => RemoteAction::Nothing,
        MprisCommand::Next => RemoteAction::Perform(go_on(playback, queue, seed, duration)),
        MprisCommand::Previous => {
            let len: usize = match queue {
                Some(queue) => queue.tracks.len(),
                None => 0,
            };
            RemoteAction::Perform(playback.play_previous(len, duration, audio))
        },
        MprisCommand::Pause => RemoteAction::Perform(
            playback.pause_playback(audio, tracks_shown),
        ),
        MprisCommand::PlayPause => RemoteAction::Perform(
            playback.toggle_playback(audio, tracks_shown),
        ),
        MprisCommand::Play => RemoteAction::Perform(playback.play(audio, tracks_shown)),
        MprisCommand::Stop => if playback.stop_playback() {
            RemoteAction::Stopped
        } else {
            RemoteAction::Nothing
        },
        MprisCommand::Seek(offset) => match playback.seek_by(offset, duration, audio) {
            SeekWish::Nothing => RemoteAction::Nothing,
            SeekWish::Next => RemoteAction::Perform(go_on(playback, queue, seed, duration)),
            SeekWish::To(target) => RemoteAction::Perform(
                playback.seek_to(target, duration, audio),
            ),
        },
        MprisCommand::SetPosition { track_id, position } => {
            let (names_current, seconds): (bool, Option<u64>) = match playback.current_track {
                Some(index) => match queue_track(queue, index) {
                    Some(track) => (
                        track_id.eq(&mpris_track_id(track.mid.as_str())),
                        Some(track.duration_seconds),
                    ),
                    None => (false, None),
                },
                None => (false, None),
            };
            match playback.set_position(names_current, position, seconds) {
                Some(target) => RemoteAction::Perform(playback.seek_to(target, duration, audio)),
                None => RemoteAction::Nothing,
            }
        },
        MprisCommand::SetLoopStatus(status) => {
            playback.repeat_mode = repeat_mode_for(status);
            RemoteAction::Refresh
        },
        MprisCommand::SetShuffle(shuffle) => {
            playback.shuffle = shuffle;
            RemoteAction::Refresh
        },
        MprisCommand::SetVolume(volume) => {
            loudness.set_volume(volume);
            RemoteAction::VolumeChanged
        },
    }
}

/// A remote control does what the listener's own controls do: the next track, the one
/// before, play and pause lead to what they lead to; it stops what is current; and it
/// changes nothing but what it is told to.
pub proof fn remote_controls_do_what_the_controls_do(
    before: PlaybackView,
    after: PlaybackView,
    loudness: (Loudness, Loudness),
    queue: Option<PlaybackQueue>,
    audio: Option<AudioStatus>,
    tracks_shown: bool,
    seed: int,
    command: MprisCommand,
    action: RemoteAction,
)
    requires
        commanded(before, after, loudness, queue, audio, tracks_shown, seed, command, action),
    ensures
        command is Raise || command is Quit ==> action is Nothing && after == before,
        command is Next ==> action is Perform && action->Perform_0@
            == before.following(
            false,
            (match queue {
                Some(queue) => queue.tracks@.len() as int,
                None => 0,
            }),
            (match queue {
                Some(queue) => queue.continuation,
                None => None,
            }),
            other_track(
                seed,
                before.current_track.unwrap() as int,
                (match queue {
                    Some(queue) => queue.tracks@.len() as int,
                    None => 0,
                }),
            ),
        ),
        command is PlayPause ==> action is Perform && action->Perform_0@
            == before.toggled(audio, tracks_shown),
        command is Play ==> action is Perform && action->Perform_0@ == before.played(
            audio,
            tracks_shown,
        ),
        command is Pause ==> action is Perform && action->Perform_0@ == before.paused(
            audio,
            tracks_shown,
        ),
        command is Previous ==> action is Perform && action->Perform_0@ == before.previous(
            (match queue {
                Some(queue) => queue.tracks@.len() as int,
                None => 0,
            }),
            length_of(before, queue),
            audio,
        ),
        command is Next ==> action is Perform && after == before.after(
            action->Perform_0@,
            length_of(before, queue),
        ),
        command is Previous || command is PlayPause || command is Play || command is Pause ==> after
            == before,
        command is Stop ==> after == before.stopped() && (action is Stopped <==> before.current_track
            is Some),
        command matches MprisCommand::SetShuffle(shuffle) ==> after == (PlaybackView {
            shuffle,
            ..before
        }) && action is Refresh,
        command matches MprisCommand::SetLoopStatus(status) ==> after.repeat_mode == mode_of(status)
            && after == (PlaybackView { repeat_mode: after.repeat_mode, ..before }) && action
            is Refresh,
        command matches MprisCommand::SetVolume(volume) ==> loudness.1 == loudness.0.with_volume(
            volume,
        ) && after == before && action is VolumeChanged,
        !(command is SetVolume) ==> loudness.1 == loudness.0,
{
}

/// A position that a remote control sets is taken where it names the current track, which
/// has started and is not loading, and lies inside it: from there on the track plays on.
pub proof fn a_position_is_set_inside_the_track_it_names(
    before: PlaybackView,
    after: PlaybackView,
    loudness: (Loudness, Loudness),
    queue: PlaybackQueue,
    audio: Option<AudioStatus>,
    tracks_shown: bool,
    seed: int,
    command: MprisCommand,
    action: RemoteAction,
    index: usize,
)
    requires
        commanded(before, after, loudness, Some(queue), audio, tracks_shown, seed, command, action),
        before.current_track == Some(index),
        index < queue.tracks@.len(),
        queue.tracks@[index as int].duration_seconds <= 9_223_372_036_854,
        command is SetPosition,
    ensures
        after == before,
        ({
            let track = queue.tracks@[index as int];
            let position = command->position;
            let inside = before.loading_track is None && before.playback_started
                && command->track_id@ == track_id(track.mid@) && 0 <= position < 1_000_000
                * track.duration_seconds;
            &&& !inside ==> action is Nothing
            &&& inside ==> action is Perform && action->Perform_0@ == (Act::Start {
                index: index as int,
                resume_at: (1_000 * position) as nat,
                quality: Some(before.active_quality),
                autoplay: audio is Some && audio.unwrap().playing,
            })
        }),
{
}

/// Seeking behind the end of a track leads to the next one, and seeking within it, or
/// before its start, stays in it.
pub proof fn seeking_behind_the_end_leads_on(
    before: PlaybackView,
    after: PlaybackView,
    loudness: (Loudness, Loudness),
    queue: PlaybackQueue,
    audio: AudioStatus,
    tracks_shown: bool,
    seed: int,
    offset: i64,
    action: RemoteAction,
    index: usize,
)
    requires
        commanded(
            before,
            after,
            loudness,
            Some(queue),
            Some(audio),
            tracks_shown,
            seed,
            MprisCommand::Seek(offset),
            action,
        ),
        before.current_track == Some(index),
        index < queue.tracks@.len(),
        queue.tracks@[index as int].duration_seconds <= 9_000_000_000_000,
        audio.position@ < 1_000 * i64::MAX,
        audio.position@ as int / 1_000 + offset <= i64::MAX,
    ensures
        ({
            let length = 1_000_000 * queue.tracks@[index as int].duration_seconds;
            let wished = audio.position@ as int / 1_000 + offset;
            let runs = before.loading_track is None && before.playback_started;
            &&& !runs ==> action is Nothing && after == before
            &&& runs && wished >= length && wished >= 0 ==> action is Perform
                && action->Perform_0@ == before.following(
                false,
                queue.tracks@.len() as int,
                queue.continuation,
                other_track(seed, index as int, queue.tracks@.len() as int),
            )
            &&& runs && 0 <= wished < length ==> after == before
                && action is Perform && action->Perform_0@ is Start && action->Perform_0@->index
                == index && action->Perform_0@->resume_at == 1_000 * wished
            &&& runs && wished < 0 && length > 0 ==> after == before
                && action is Perform && action->Perform_0@ is Start && action->Perform_0@->index
                == index && action->Perform_0@->resume_at == 0
        }),
{
}

} // verus!
