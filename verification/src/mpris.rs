//! Remote control over the desktop's media player interface.

use crate::catalog::Track;
use crate::lyrics::line::text_of;
use crate::number::{
    format_unsigned, numeral, padded_number_reads_back, unsigned, zero_padded,
};
use crate::playback::{
    duration_micros, length_micros, micros, track_length_micros, AudioStatus, Playback,
    PlaybackView, RESTART_AFTER_NANOS,
};
use crate::queue::{PlaybackQueue, RepeatMode};
use crate::scan::{trim, trimmed};
use crate::settings::PersistedQueueContinuation;
use crate::text::{push_chars, push_text, to_chars};
use crate::time::Duration;
use crate::volume::Volume;
use vstd::prelude::*;
use vstd::utf8::encode_utf8;
use xxhash_rust::xxh3::xxh3_128;

verus! {

#[derive(Clone, Copy, Debug, PartialEq, Eq, Structural)]
pub enum MprisLoopStatus {
    Off,
    Track,
    Playlist,
}

#[derive(Clone, Copy, Debug, PartialEq, Eq, Structural)]
pub enum MprisPlaybackStatus {
    Playing,
    Paused,
    Stopped,
}

/// What a remote control asks for. Positions and offsets are in microseconds.
#[derive(Debug, PartialEq, Eq)]
pub enum MprisCommand {
    Raise,
    Quit,
    Next,
    Previous,
    Pause,
    PlayPause,
    Stop,
    Play,
    Seek(i64),
    SetPosition { track_id: String, position: i64 },
    SetLoopStatus(MprisLoopStatus),
    SetShuffle(bool),
    SetVolume(Volume),
}

/// What `xxh3_128` of `xxhash_rust` makes of bytes.
pub uninterp spec fn xxh3(bytes: Seq<u8>) -> u128;

/// `xxhash_rust::xxh3::xxh3_128`: the 128-bit hash of some bytes.
#[verifier::external_body]
fn hash_bytes(bytes: &[u8]) -> (hash: u128)
    ensures
        hash == xxh3(bytes@),
{
    xxh3_128(bytes)
}

/// The object path for a hash.
pub open spec fn track_path(hash: u128) -> Seq<char> {
    "/dev/lyrune/track/id_"@ + zero_padded(numeral(hash as nat, 16), 32)
}

/// The object path of a track, by the hash of its id.
pub open spec fn track_id(mid: Seq<char>) -> Seq<char> {
    track_path(xxh3(encode_utf8(mid)))
}

pub fn hashed_track_path(hash: u128) -> (path: String)
    ensures
        path@ == track_path(hash),
{
    let mut path = String::new();
    push_text(&mut path, "/dev/lyrune/track/id_");
    let digits = format_unsigned(hash, 16, 32);
    push_chars(&mut path, digits.as_slice());
    assert(path@ =~= track_path(hash));
    path
}

pub fn mpris_track_id(track_mid: &str) -> (id: String)
    ensures
        id@ == track_id(track_mid@),
{
    hashed_track_path(hash_bytes(track_mid.as_bytes()))
}

/// What a remote control shows of a track.
#[derive(Debug)]
pub struct MprisTrack {
    pub id: String,
    pub title: String,
    pub artists: Vec<String>,
    pub album: Option<String>,
    pub art_url: Option<String>,
    pub length_micros: i64,
}

/// A text, and none where it is blank.
pub open spec fn unless_blank(text: Seq<char>) -> Option<Seq<char>> {
    if trim(text).len() == 0 {
        None
    } else {
        Some(text)
    }
}

fn copy_unless_blank(text: &String) -> (copy: Option<String>)
    ensures
        text_of(copy) == unless_blank(text@),
{
    let chars = to_chars(text.as_str());
    if trimmed(chars.as_slice()).len() == 0 {
        None
    } else {
        Some(text.clone())
    }
}

impl MprisTrack {
    pub open spec fn shows(self, track: Track) -> bool {
        &&& self.id@ == track_id(track.mid@)
        &&& self.title@ == track.title@
        &&& match unless_blank(track.artists@) {
            Some(artists) => self.artists@.len() == 1 && self.artists@[0]@ == artists,
            None => self.artists@.len() == 0,
        }
        &&& text_of(self.album) == unless_blank(track.album@)
        &&& text_of(self.art_url) == match track.cover_url {
            Some(url) => unless_blank(url@),
            None => None,
        }
        &&& self.length_micros == length_micros(track.duration_seconds)
    }

    pub fn of(track: &Track) -> (shown: Self)
        ensures
            shown.shows(*track),
    {
        let mut artists: Vec<String> = Vec::new();
        if let Some(text) = copy_unless_blank(&track.artists) {
            artists.push(text);
        }
        MprisTrack {
            id: mpris_track_id(track.mid.as_str()),
            title: track.title.clone(),
            artists,
            album: copy_unless_blank(&track.album),
            art_url: match &track.cover_url {
                Some(url) => copy_unless_blank(url),
                None => None,
            },
            length_micros: track_length_micros(track.duration_seconds),
        }
    }
}

/// What a remote control shows.
#[derive(Debug)]
pub struct MprisSnapshot {
    pub playback_status: MprisPlaybackStatus,
    pub loop_status: MprisLoopStatus,
    pub shuffle: bool,
    pub volume: Volume,
    pub position_micros: i64,
    pub track: Option<MprisTrack>,
    pub can_go_next: bool,
    pub can_go_previous: bool,
    pub can_play: bool,
    pub can_pause: bool,
    pub can_seek: bool,
}

pub open spec fn status_of(playback: PlaybackView, audio: Option<AudioStatus>) -> MprisPlaybackStatus {
    if playback.loading_track is Some || !playback.playback_started {
        MprisPlaybackStatus::Stopped
    } else if audio is Some && audio.unwrap().playing {
        MprisPlaybackStatus::Playing
    } else {
        MprisPlaybackStatus::Paused
    }
}

pub open spec fn loop_of(mode: RepeatMode) -> MprisLoopStatus {
    match mode {
        RepeatMode::Off => MprisLoopStatus::Off,
        RepeatMode::All => MprisLoopStatus::Playlist,
        RepeatMode::One => MprisLoopStatus::Track,
    }
}

pub open spec fn mode_of(status: MprisLoopStatus) -> RepeatMode {
    match status {
        MprisLoopStatus::Off => RepeatMode::Off,
        MprisLoopStatus::Track => RepeatMode::One,
        MprisLoopStatus::Playlist => RepeatMode::All,
    }
}

pub fn repeat_mode_for(status: MprisLoopStatus) -> (mode: RepeatMode)
    ensures
        mode == mode_of(status),
{
    match status {
        MprisLoopStatus::Off => RepeatMode::Off,
        MprisLoopStatus::Track => RepeatMode::One,
        MprisLoopStatus::Playlist => RepeatMode::All,
    }
}

/// A remote control that sets the loop it is shown changes nothing.
pub proof fn loop_status_round_trip(mode: RepeatMode, status: MprisLoopStatus)
    ensures
        mode_of(loop_of(mode)) == mode,
        loop_of(mode_of(status)) == status,
{
}

pub open spec fn queue_size(queue: Option<PlaybackQueue>) -> int {
    match queue {
        Some(queue) => queue.tracks@.len() as int,
        None => 0,
    }
}

pub open spec fn queue_goes_on(queue: Option<PlaybackQueue>) -> bool {
    queue is Some && queue.unwrap().continuation is Some
        && queue.unwrap().continuation.unwrap().has_next()
}

/// There is a track to go on to.
pub open spec fn next_possible(
    playback: PlaybackView,
    queue: Option<PlaybackQueue>,
    audio: Option<AudioStatus>,
) -> bool {
    let len = queue_size(queue);
    audio is Some && queue is Some && match playback.current_track {
        Some(index) => queue_goes_on(queue) || (playback.shuffle && len > 1) || index + 1 < len || (
        playback.repeat_mode == RepeatMode::All && len > 0),
        None => false,
    }
}

/// There is a track, or the start of the current one, to go back to.
pub open spec fn previous_possible(
    playback: PlaybackView,
    queue: Option<PlaybackQueue>,
    audio: Option<AudioStatus>,
) -> bool {
    audio is Some && queue is Some && match playback.current_track {
        Some(index) => playback.position >= RESTART_AFTER_NANOS || index > 0 || (
        playback.repeat_mode == RepeatMode::All && queue_size(queue) > 0),
        None => false,
    }
}

/// The track that is current.
pub open spec fn current_track(playback: PlaybackView, queue: Option<PlaybackQueue>) -> Option<
    Track,
> {
    match playback.current_track {
        Some(index) => match crate::loading::track_at(queue, index as int) {
            Some(track) => Some(*track),
            None => None,
        },
        None => None,
    }
}

pub fn mpris_snapshot(
    playback: &Playback,
    queue: &Option<PlaybackQueue>,
    audio: Option<AudioStatus>,
    volume: Volume,
) -> (snapshot: MprisSnapshot)
    ensures
        snapshot.playback_status == status_of(playback@, audio),
        snapshot.loop_status == loop_of(playback@.repeat_mode),
        snapshot.shuffle == playback@.shuffle,
        snapshot.volume == volume,
        snapshot.position_micros == micros(playback@.position),
        snapshot.can_go_next == next_possible(playback@, *queue, audio),
        snapshot.can_go_previous == previous_possible(playback@, *queue, audio),
        match current_track(playback@, *queue) {
            Some(track) => snapshot.track is Some && snapshot.track.unwrap().shows(track),
            None => snapshot.track is None,
        },
        snapshot.can_play == (snapshot.track is Some && audio is Some && playback@.loading_track
            is None),
        snapshot.can_pause == (snapshot.can_play && playback@.playback_started),
        snapshot.can_seek == (snapshot.can_play && playback@.playback_started),
{
    let audio_available = audio.is_some();
    let playing: bool = match audio {
        Some(audio) => audio.playing,
        None => false,
    };
    let loading = playback.loading_track.is_some();
    let playback_status = if loading || !playback.playback_started {
        MprisPlaybackStatus::Stopped
    } else if playing {
        MprisPlaybackStatus::Playing
    } else {
        MprisPlaybackStatus::Paused
    };
    let (queue_len, current_index): (usize, Option<usize>) = match queue {
        Some(queue) => (queue.tracks.len(), playback.current_track),
        None => (0, None),
    };
    let can_extend: bool = match queue {
        Some(queue) => match queue.continuation {
            Some(continuation) => continuation.can_load_more(),
            None => false,
        },
        None => false,
    };
    let all = playback.repeat_mode == RepeatMode::All && queue_len > 0;
    let can_go_next = audio_available && (match current_index {
        Some(index) => can_extend || (playback.shuffle && queue_len > 1) || (index < queue_len
            && index + 1 < queue_len) || all,
        None => false,
    });
    let can_go_previous = audio_available && (match current_index {
        Some(index) => Duration::from_nanos(RESTART_AFTER_NANOS).is_at_most(playback.position)
            || index > 0 || all,
        None => false,
    });
    let track = match playback.current_track {
        Some(index) => match crate::loading::queue_track(queue, index) {
            Some(track) => Some(MprisTrack::of(&track)),
            None => None,
        },
        None => None,
    };
    let has_track = track.is_some();
    MprisSnapshot {
        playback_status,
        loop_status: match playback.repeat_mode {
            RepeatMode::Off => MprisLoopStatus::Off,
            RepeatMode::All => MprisLoopStatus::Playlist,
            RepeatMode::One => MprisLoopStatus::Track,
        },
        shuffle: playback.shuffle,
        volume,
        position_micros: duration_micros(playback.position),
        track,
        can_go_next,
        can_go_previous,
        can_play: has_track && audio_available && !loading,
        can_pause: has_track && audio_available && !loading && playback.playback_started,
        can_seek: has_track && audio_available && !loading && playback.playback_started,
    }
}

/// A remote control is told that nothing plays while a track loads or has not started; else
/// whether the output plays.
pub proof fn remote_controls_are_told_what_plays(playback: PlaybackView, audio: Option<AudioStatus>)
    ensures
        playback.loading_track is Some || !playback.playback_started ==> status_of(playback, audio)
            == MprisPlaybackStatus::Stopped,
        playback.loading_track is None && playback.playback_started ==> status_of(playback, audio)
            == (if audio is Some && audio.unwrap().playing {
            MprisPlaybackStatus::Playing
        } else {
            MprisPlaybackStatus::Paused
        }),
        loop_of(RepeatMode::Off) == MprisLoopStatus::Off,
        loop_of(RepeatMode::All) == MprisLoopStatus::Playlist,
        loop_of(RepeatMode::One) == MprisLoopStatus::Track,
{
}

/// The next track can be asked for exactly where asking for it leads somewhere: a track
/// starts, or more are awaited.
pub proof fn next_is_offered_where_it_leads_somewhere(
    playback: PlaybackView,
    queue: PlaybackQueue,
    audio: AudioStatus,
    random: int,
)
    requires
        playback.current_track is Some,
        playback.current_track.unwrap() < queue.tracks@.len(),
        queue.continuation is None || !playback.shuffle,
    ensures
        next_possible(playback, Some(queue), Some(audio)) <==> ({
            let act = playback.following(
                false,
                queue.tracks@.len() as int,
                queue.continuation,
                random,
            );
            act is Start || act is AwaitRecommendations
        }),
        !next_possible(playback, Some(queue), None),
        !next_possible(playback, None, Some(audio)),
{
}

/// Going back can be asked for exactly where it leads somewhere.
pub proof fn previous_is_offered_where_it_leads_somewhere(
    playback: PlaybackView,
    queue: PlaybackQueue,
    audio: AudioStatus,
    length: Option<nat>,
)
    ensures
        previous_possible(playback, Some(queue), Some(audio)) <==> playback.previous(
            queue.tracks@.len() as int,
            length,
            Some(audio),
        ) is Start,
        !previous_possible(playback, Some(queue), None),
        !previous_possible(playback, None, Some(audio)),
{
}

/// A blank text is not told, and any other as it is.
pub proof fn blank_texts_are_not_told(text: Seq<char>)
    ensures
        unless_blank(text) is None <==> trim(text).len() == 0,
        unless_blank(text) is Some ==> unless_blank(text) == Some(text),
{
}

/// The path of a track has a fixed front and the 32 digits of its hash, so that two hashes
/// have two paths.
pub proof fn paths_tell_hashes_apart(a: u128, b: u128)
    ensures
        track_path(a) == track_path(b) ==> a == b,
        track_path(a).len() == "/dev/lyrune/track/id_"@.len() + 32,
{
    hash_reads_back(a);
    hash_reads_back(b);
    let front = "/dev/lyrune/track/id_"@;
    let n = front.len() as int;
    if track_path(a) == track_path(b) {
        assert(track_path(a).skip(n) =~= zero_padded(numeral(a as nat, 16), 32));
        assert(track_path(b).skip(n) =~= zero_padded(numeral(b as nat, 16), 32));
    }
}

proof fn hash_reads_back(hash: u128)
    ensures
        zero_padded(numeral(hash as nat, 16), 32).len() == 32,
        unsigned(zero_padded(numeral(hash as nat, 16), 32), 16, u128::MAX as nat) == Some(
            hash as nat,
        ),
{
    padded_number_reads_back(hash as nat, 16, u128::MAX as nat, 32);
    assert(power16(32) == 0x1_0000_0000_0000_0000 * 0x1_0000_0000_0000_0000) by {
        reveal_with_fuel(power16, 33);
    }
    numeral_of_digits(hash as nat, 32);
}

spec fn power16(digits: nat) -> nat
    decreases digits,
{
    if digits == 0 {
        1
    } else {
        16 * power16((digits - 1) as nat)
    }
}

proof fn numeral_of_digits(n: nat, digits: nat)
    requires
        digits > 0,
        n < power16(digits),
    ensures
        numeral(n, 16).len() <= digits,
    decreases digits,
{
    if n >= 16 {
        if digits == 1 {
            reveal_with_fuel(power16, 2);
        } else {
            numeral_of_digits(n / 16, (digits - 1) as nat);
        }
    }
}

/// A remote control is told the track as it is, without texts that are blank.
pub proof fn remote_controls_are_told_the_track(shown: MprisTrack, track: Track)
    requires
        shown.shows(track),
    ensures
        shown.title@ == track.title@,
        shown.id@ == track_id(track.mid@),
        trim(track.artists@).len() == 0 <==> shown.artists@.len() == 0,
        trim(track.artists@).len() > 0 ==> shown.artists@.len() == 1 && shown.artists@[0]@
            == track.artists@,
        trim(track.album@).len() == 0 <==> shown.album is None,
        shown.album matches Some(album) ==> album@ == track.album@,
        shown.art_url is Some <==> track.cover_url is Some && trim(track.cover_url.unwrap()@).len()
            > 0,
        shown.art_url matches Some(url) ==> url@ == track.cover_url.unwrap()@,
        track.duration_seconds <= 9_223_372_036_854 ==> shown.length_micros == 1_000_000
            * track.duration_seconds,
{
}

/// The next track can be asked for with an output and a current track where the queue goes
/// on, more than one track is shuffled, a track stands behind, or all repeat.
pub proof fn next_needs_a_track_to_go_to(
    playback: PlaybackView,
    queue: PlaybackQueue,
    audio: AudioStatus,
)
    ensures
        next_possible(playback, Some(queue), Some(audio)) <==> playback.current_track is Some && ((
        match queue.continuation {
            None => false,
            Some(PersistedQueueContinuation::Guess) => true,
            Some(PersistedQueueContinuation::Radar { has_more, .. }) => has_more,
        }) || (playback.shuffle && queue.tracks@.len() > 1) || playback.current_track.unwrap() + 1
            < queue.tracks@.len() || (playback.repeat_mode == RepeatMode::All
            && queue.tracks@.len() > 0)),
{
}

} // verus!
