//! The bar with the track that plays and the buttons for it.

use crate::catalog::{Quality, SearchAlbum, Track};
use crate::format::{format_playback_time, time_text};
use crate::icons::MediaIcon;
use crate::library::{album_link, artist_line, linked_album, ArtistLine};
use crate::loading::queue_track;
use crate::lyrics::line::{copy_text, text_of};
use crate::lyrics::timing::Progress;
use crate::mpris::{current_track, queue_size};
use crate::playback::{Act, AudioStatus, Playback, PlaybackView};
use crate::queue::{PlaybackQueue, RepeatMode};
use crate::time::{at_most, Duration, NANOS_PER_SECOND};
use crate::views::layout::{pick, Layout};
use crate::volume::Volume;
use std::sync::Arc;
use vstd::prelude::*;

verus! {

/// The sizes of the bar, in pixels.
#[derive(Clone, Copy, Debug, PartialEq, Eq, Structural)]
pub struct BarSizes {
    pub cover: u32,
    pub text: u32,
    pub info: u32,
    /// The side with the volume: none in a narrow window.
    pub side: Option<u32>,
    pub volume: u32,
}

pub open spec fn sizes_for(layout: Layout) -> BarSizes {
    BarSizes {
        cover: if layout.narrow {
            44
        } else {
            52
        },
        text: pick(layout, 100, 138, 202),
        info: pick(layout, 190, 236, 300),
        side: if layout.narrow {
            None
        } else if layout.compact {
            Some(220)
        } else {
            Some(300)
        },
        volume: if layout.compact {
            82
        } else {
            118
        },
    }
}

pub fn bar_sizes(layout: Layout) -> (sizes: BarSizes)
    ensures
        sizes == sizes_for(layout),
{
    BarSizes {
        cover: if layout.narrow {
            44
        } else {
            52
        },
        text: layout.pick(100, 138, 202),
        info: layout.pick(190, 236, 300),
        side: if layout.narrow {
            None
        } else if layout.compact {
            Some(220)
        } else {
            Some(300)
        },
        volume: if layout.compact {
            82
        } else {
            118
        },
    }
}

/// The buttons of the bar.
#[derive(Clone, Copy, Debug, PartialEq, Eq, Structural)]
pub struct BarButtons {
    pub has_track: bool,
    /// The track is known to be liked.
    pub liked: bool,
    /// The large button pauses.
    pub shows_pause: bool,
    pub play_disabled: bool,
    pub skip_disabled: bool,
    /// Shuffling and repeating need a queue.
    pub queue_disabled: bool,
    pub shuffle: bool,
    pub repeat: RepeatMode,
    pub muted: bool,
    pub quality_disabled: bool,
    /// The progress can be dragged.
    pub seekable: bool,
}

pub open spec fn buttons_for(
    playback: PlaybackView,
    queue: Option<PlaybackQueue>,
    audio: Option<AudioStatus>,
    liked: Option<bool>,
    tracks_shown: bool,
    volume: Volume,
    qualities: int,
) -> BarButtons {
    let has_track = current_track(playback, queue) is Some;
    let loading = playback.loading_track is Some;
    BarButtons {
        has_track,
        liked: liked == Some(true),
        shows_pause: if loading {
            playback.loading_autoplay
        } else {
            audio is Some && audio.unwrap().playing
        },
        play_disabled: loading || (playback.current_track is None && !tracks_shown),
        skip_disabled: playback.current_track is None,
        queue_disabled: queue_size(queue) == 0,
        shuffle: playback.shuffle,
        repeat: playback.repeat_mode,
        muted: !volume.positive(),
        quality_disabled: !has_track || loading || qualities == 0,
        seekable: has_track && playback.playback_started && !loading,
    }
}

pub fn bar_buttons(
    playback: &Playback,
    queue: &Option<PlaybackQueue>,
    audio: Option<AudioStatus>,
    liked: Option<bool>,
    tracks_shown: bool,
    volume: Volume,
    qualities: &Vec<Quality>,
) -> (buttons: BarButtons)
    ensures
        buttons == buttons_for(
            playback@,
            *queue,
            audio,
            liked,
            tracks_shown,
            volume,
            qualities@.len() as int,
        ),
{
    let has_track: bool = match playback.current_track {
        Some(index) => queue_track(queue, index).is_some(),
        None => false,
    };
    let loading = playback.loading_track.is_some();
    let playing: bool = match audio {
        Some(audio) => audio.playing,
        None => false,
    };
    let queue_disabled: bool = match queue {
        Some(queue) => queue.tracks.len() == 0,
        None => true,
    };
    BarButtons {
        has_track,
        liked: match liked {
            Some(liked) => liked,
            None => false,
        },
        shows_pause: if loading {
            playback.loading_autoplay
        } else {
            playing
        },
        play_disabled: loading || (playback.current_track.is_none() && !tracks_shown),
        skip_disabled: playback.current_track.is_none(),
        queue_disabled,
        shuffle: playback.shuffle,
        repeat: playback.repeat_mode,
        muted: !volume.is_positive(),
        quality_disabled: !has_track || loading || qualities.len() == 0,
        seekable: has_track && playback.playback_started && !loading,
    }
}

impl BarButtons {
    pub open spec fn play_text(self) -> Seq<char> {
        if self.shows_pause {
            "暂停"@
        } else {
            "播放"@
        }
    }

    pub fn play_tooltip(self) -> (text: &'static str)
        ensures
            text@ == self.play_text(),
    {
        if self.shows_pause {
            "暂停"
        } else {
            "播放"
        }
    }

    pub fn play_icon(self) -> (icon: MediaIcon)
        ensures
            icon == (if self.shows_pause {
                MediaIcon::Pause
            } else {
                MediaIcon::Play
            }),
    {
        if self.shows_pause {
            MediaIcon::Pause
        } else {
            MediaIcon::Play
        }
    }

    pub open spec fn like_text(self) -> Seq<char> {
        if self.liked {
            "取消喜欢"@
        } else {
            "喜欢"@
        }
    }

    pub fn like_tooltip(self) -> (text: &'static str)
        ensures
            text@ == self.like_text(),
    {
        if self.liked {
            "取消喜欢"
        } else {
            "喜欢"
        }
    }

    pub fn like_icon(self) -> (icon: MediaIcon)
        ensures
            icon == (if self.liked {
                MediaIcon::HeartFilled
            } else {
                MediaIcon::Heart
            }),
    {
        if self.liked {
            MediaIcon::HeartFilled
        } else {
            MediaIcon::Heart
        }
    }

    pub fn repeat_icon(self) -> (icon: MediaIcon)
        ensures
            icon == (if self.repeat == RepeatMode::One {
                MediaIcon::RepeatOne
            } else {
                MediaIcon::Repeat
            }),
    {
        if self.repeat == RepeatMode::One {
            MediaIcon::RepeatOne
        } else {
            MediaIcon::Repeat
        }
    }

    pub open spec fn mute_text(self) -> Seq<char> {
        if self.muted {
            "取消静音"@
        } else {
            "静音"@
        }
    }

    pub fn mute_tooltip(self) -> (text: &'static str)
        ensures
            text@ == self.mute_text(),
    {
        if self.muted {
            "取消静音"
        } else {
            "静音"
        }
    }

    pub fn mute_icon(self) -> (icon: MediaIcon)
        ensures
            icon == (if self.muted {
                MediaIcon::VolumeMuted
            } else {
                MediaIcon::Volume
            }),
    {
        if self.muted {
            MediaIcon::VolumeMuted
        } else {
            MediaIcon::Volume
        }
    }
}

/// What the bar says of the track.
#[derive(Debug)]
pub struct BarTrack {
    pub title: String,
    pub album: Option<SearchAlbum>,
    pub cover: Option<String>,
    pub artists: ArtistLine,
}

/// The bar says what it should of the track, or that none plays.
pub open spec fn bar_shows(bar: BarTrack, track: Option<Track>) -> bool {
    match track {
        Some(track) => {
            &&& bar.title@ == track.title@
            &&& bar.cover is Some == track.cover_url is Some
            &&& text_of(bar.cover) == text_of(track.cover_url)
            &&& match bar.album {
                Some(album) => linked_album(track) == Some(album@),
                None => linked_album(track) is None,
            }
            &&& bar.artists.names(track)
        },
        None => {
            &&& bar.title@ == "尚未播放"@
            &&& bar.album is None
            &&& bar.cover is None
            &&& bar.artists matches ArtistLine::Plain(text) && text@
                == "从播放列表中双击一首歌曲"@
        },
    }
}

pub fn bar_track(playback: &Playback, queue: &Option<PlaybackQueue>) -> (bar: BarTrack)
    ensures
        bar_shows(bar, current_track(playback@, *queue)),
{
    let track: Option<Arc<Track>> = match playback.current_track {
        Some(index) => queue_track(queue, index),
        None => None,
    };
    match track {
        Some(track) => BarTrack {
            title: track.title.clone(),
            album: album_link(&track),
            cover: copy_text(&track.cover_url),
            artists: artist_line(&track),
        },
        None => BarTrack {
            title: "尚未播放".to_owned(),
            album: None,
            cover: None,
            artists: ArtistLine::Plain("从播放列表中双击一首歌曲".to_owned()),
        },
    }
}

/// The length of the current track, and nothing without one.
pub open spec fn length_of(playback: PlaybackView, queue: Option<PlaybackQueue>) -> Option<nat> {
    match current_track(playback, queue) {
        Some(track) => Some(track.duration_seconds as nat * NANOS_PER_SECOND as nat),
        None => None,
    }
}

pub fn current_duration(playback: &Playback, queue: &Option<PlaybackQueue>) -> (duration: Option<
    Duration,
>)
    ensures
        crate::playback::nanos_of(duration) == length_of(playback@, *queue),
{
    match playback.current_track {
        Some(index) => match queue_track(queue, index) {
            Some(track) => Some(Duration::from_secs(track.duration_seconds)),
            None => None,
        },
        None => None,
    }
}

/// The texts at the two ends of the progress: the position, at most the length, and
/// the length.
pub fn progress_times(position: Duration, duration: Option<Duration>) -> (times: (String, String))
    ensures
        ({
            let length = match duration {
                Some(duration) => duration@,
                None => 0,
            };
            &&& times.0@ == time_text(at_most(position@, length) / NANOS_PER_SECOND as nat)
            &&& times.1@ == time_text(length / NANOS_PER_SECOND as nat)
        }),
{
    let length = match duration {
        Some(duration) => duration,
        None => Duration::zero(),
    };
    (format_playback_time(position.shorter(length)), format_playback_time(length))
}

/// How much of a track was played; nothing of one without a length.
pub open spec fn played_part(position: nat, length: nat) -> (nat, nat) {
    if length == 0 || position == 0 {
        (0, 1)
    } else if position >= length {
        (1, 1)
    } else {
        (position, length)
    }
}

pub fn progress_fraction(position: Duration, duration: Duration) -> (progress: Progress)
    ensures
        progress.fraction() == played_part(position@, duration@),
{
    if duration.is_zero() || position.is_zero() {
        Progress::Nothing
    } else if duration.is_at_most(position) {
        Progress::Everything
    } else {
        Progress::Part { elapsed: position, total: duration }
    }
}

/// Where the slider of the progress is to stand; it is left alone while it is dragged.
pub fn slider_progress(playback: &Playback, queue: &Option<PlaybackQueue>) -> (progress: Option<
    Progress,
>)
    ensures
        progress is Some <==> playback@.seek_preview is None,
        progress is Some ==> progress.unwrap().fraction() == (match length_of(playback@, *queue) {
            Some(length) => played_part(playback@.position, length),
            None => (0, 1),
        }),
{
    if playback.seek_preview.is_some() {
        return None;
    }
    Some(
        match current_duration(playback, queue) {
            Some(duration) => progress_fraction(playback.position, duration),
            None => Progress::Nothing,
        },
    )
}

/// The qualities that the current track can be played in, each with whether it is the
/// one that plays.
pub fn quality_options(available: &Vec<Quality>, active: Quality) -> (options: Vec<(Quality, bool)>)
    ensures
        options@ == available@.map_values(|quality: Quality| (quality, quality == active)),
{
    let mut options: Vec<(Quality, bool)> = Vec::new();
    let mut i: usize = 0;
    while i < available.len()
        invariant
            i <= available@.len(),
            options@ == available@.take(i as int).map_values(
                |quality: Quality| (quality, quality == active),
            ),
        decreases available.len() - i,
    {
        options.push((available[i], available[i] == active));
        i += 1;
    }
    assert(available@.take(available@.len() as int) =~= available@);
    options
}

/// The menus that open over the window, besides that of the qualities, which belongs to
/// what plays.
#[derive(Clone, Copy, Debug, PartialEq, Eq, Structural)]
pub struct Menus {
    pub account_open: bool,
}

impl Menus {
    /// Opens or closes the menu of qualities; the other menu closes.
    pub fn toggle_quality(&mut self, playback: &mut Playback)
        ensures
            final(playback)@ == (PlaybackView {
                quality_menu_open: !old(playback)@.quality_menu_open,
                ..old(playback)@
            }),
            *final(self) == (Menus { account_open: false }),
    {
        playback.quality_menu_open = !playback.quality_menu_open;
        self.account_open = false;
    }

    /// Opens or closes the menu of the account; the other menu closes.
    pub fn toggle_account(&mut self, playback: &mut Playback)
        ensures
            *final(self) == (Menus { account_open: !old(self).account_open }),
            final(playback)@ == (PlaybackView { quality_menu_open: false, ..old(playback)@ }),
    {
        self.account_open = !self.account_open;
        playback.quality_menu_open = false;
    }

    /// Closes all menus, and says whether one was open.
    pub fn dismiss(&mut self, playback: &mut Playback) -> (changed: bool)
        ensures
            changed == (old(self).account_open || old(playback)@.quality_menu_open),
            *final(self) == (Menus { account_open: false }),
            final(playback)@ == (PlaybackView { quality_menu_open: false, ..old(playback)@ }),
    {
        if self.account_open || playback.quality_menu_open {
            self.account_open = false;
            playback.quality_menu_open = false;
            true
        } else {
            false
        }
    }
}

/// What choosing a quality for the current track leads to.
#[derive(Clone, Copy, Debug, PartialEq, Eq, Structural)]
pub enum QualityChoice {
    /// The track has no such quality.
    Unavailable,
    /// It plays in that quality already, or nothing plays.
    Kept,
    /// It is loaded again in that quality.
    Reload { index: usize, resume_at: Duration, autoplay: bool },
}

/// Chooses a quality, and says whether the preferred one changes by that.
pub fn set_playback_quality(
    playback: &mut Playback,
    available: &Vec<Quality>,
    preferred: &mut Quality,
    quality: Quality,
    audio: Option<AudioStatus>,
) -> (choice: (QualityChoice, bool))
    ensures
        !available@.contains(quality) ==> choice.0 == QualityChoice::Unavailable && !choice.1
            && final(playback)@ == old(playback)@ && *final(preferred) == *old(preferred),
        available@.contains(quality) ==> {
            &&& final(playback)@ == (PlaybackView { quality_menu_open: false, ..old(playback)@ })
            &&& *final(preferred) == quality
            &&& choice.1 == (*old(preferred) != quality)
            &&& match choice.0 {
                QualityChoice::Unavailable => false,
                QualityChoice::Kept => old(playback)@.active_quality == quality || old(
                    playback,
                )@.current_track is None,
                QualityChoice::Reload { index, resume_at, autoplay } => {
                    let loading = old(playback)@.loading_track is Some;
                    &&& old(playback)@.active_quality != quality
                    &&& old(playback)@.current_track == Some(index)
                    &&& autoplay == (if loading {
                        old(playback)@.loading_autoplay
                    } else {
                        audio is Some && audio.unwrap().playing
                    })
                    &&& resume_at@ == (if loading || audio is None {
                        old(playback)@.position
                    } else {
                        audio.unwrap().position@
                    })
                },
            }
        },
{
    let mut known: bool = false;
    let mut i: usize = 0;
    while i < available.len() && !known
        invariant
            i <= available@.len(),
            known ==> available@.contains(quality),
            !known ==> forall|j: int| 0 <= j < i ==> #[trigger] available@[j] != quality,
        decreases available.len() - i,
    {
        if available[i] == quality {
            assert(available@[i as int] == quality);
            known = true;
        }
        i += 1;
    }
    if !known {
        return (QualityChoice::Unavailable, false);
    }
    playback.quality_menu_open = false;
    let changed = *preferred != quality;
    *preferred = quality;
    if playback.active_quality == quality {
        return (QualityChoice::Kept, changed);
    }
    match playback.current_track {
        None => (QualityChoice::Kept, changed),
        Some(index) => {
            let loading = playback.loading_track.is_some();
            let choice = match audio {
                Some(audio) => QualityChoice::Reload {
                    index,
                    autoplay: if loading {
                        playback.loading_autoplay
                    } else {
                        audio.playing
                    },
                    resume_at: if loading {
                        playback.position
                    } else {
                        audio.position
                    },
                },
                None => QualityChoice::Reload {
                    index,
                    autoplay: loading && playback.loading_autoplay,
                    resume_at: playback.position,
                },
            };
            (choice, changed)
        },
    }
}

/// How much of a track was played: nothing at its start, all at its end, and in between the
/// position in its length.
pub proof fn the_played_part_is_even(position: nat, length: nat)
    ensures
        ({
            let (part, whole) = played_part(position, length);
            &&& whole > 0 && part <= whole
            &&& length > 0 && position <= length ==> part * length == position * whole
            &&& length > 0 && position >= length ==> part == whole
            &&& length == 0 ==> part == 0
        }),
{
    let (part, whole) = played_part(position, length);
    if length > 0 && position <= length {
        assert(part * length == position * whole) by (nonlinear_arith)
            requires
                (part == position && whole == length) || (position == 0 && part == 0) || (position
                    == length && part == 1 && whole == 1),
        ;
    }
}

/// The length of a track is that of the current one, in nanoseconds.
pub proof fn the_current_track_has_its_length(
    playback: PlaybackView,
    queue: PlaybackQueue,
    index: usize,
)
    requires
        playback.current_track == Some(index),
    ensures
        index < queue.tracks@.len() ==> length_of(playback, Some(queue)) == Some(
            1_000_000_000 * queue.tracks@[index as int].duration_seconds as nat,
        ),
        index >= queue.tracks@.len() ==> length_of(playback, Some(queue)) is None,
        length_of(playback, None) is None,
{
}

/// The buttons follow the player: pause stands where something plays, or will once it is
/// loaded; play cannot be pressed while a track loads, or with nothing to play; and the
/// slider moves only while a started track plays.
pub proof fn buttons_follow_the_player(
    playback: PlaybackView,
    queue: Option<PlaybackQueue>,
    audio: Option<AudioStatus>,
    liked: Option<bool>,
    tracks_shown: bool,
    volume: Volume,
    qualities: int,
)
    ensures
        ({
            let bar = buttons_for(playback, queue, audio, liked, tracks_shown, volume, qualities);
            let loading = playback.loading_track is Some;
            &&& bar.has_track <==> queue is Some && playback.current_track is Some
                && playback.current_track.unwrap() < queue.unwrap().tracks@.len()
            &&& bar.shows_pause <==> if loading {
                playback.loading_autoplay
            } else {
                audio is Some && audio.unwrap().playing
            }
            &&& bar.play_disabled <==> loading || (playback.current_track is None && !tracks_shown)
            &&& audio is Some ==> (bar.play_disabled <==> playback.toggled(audio, tracks_shown)
                == Act::Nothing)
            &&& bar.skip_disabled <==> playback.current_track is None
            &&& bar.queue_disabled <==> queue is None || queue.unwrap().tracks@.len() == 0
            &&& bar.seekable ==> bar.has_track && playback.playback_started && !loading
            &&& bar.has_track && playback.playback_started && !loading ==> bar.seekable
            &&& bar.quality_disabled <==> !bar.has_track || loading || qualities == 0
            &&& bar.liked <==> liked == Some(true)
            &&& bar.muted <==> !volume.positive()
            &&& bar.shuffle == playback.shuffle && bar.repeat == playback.repeat_mode
        }),
{
}

/// The bar says the title of the current track, and that nothing plays without one.
pub proof fn the_bar_says_what_plays(bar: BarTrack, track: Option<Track>)
    requires
        bar_shows(bar, track),
    ensures
        track matches Some(track) ==> bar.title@ == track.title@ && text_of(bar.cover) == text_of(
            track.cover_url,
        ) && (bar.album is Some <==> linked_album(track) is Some),
        track is None ==> bar.title@ == "尚未播放"@ && bar.album is None && bar.cover is None,
        bar.album matches Some(album) ==> album.mid@ == track.unwrap().album_mid@ && album.title@
            == track.unwrap().album@,
{
}

/// The bar grows with the window, and a narrow one has nothing at its side.
pub proof fn the_bar_grows_with_the_window(layout: Layout)
    ensures
        layout.narrow ==> sizes_for(layout).cover == 44 && sizes_for(layout).text == 100
            && sizes_for(layout).info == 190 && sizes_for(layout).side is None,
        !layout.narrow && layout.compact ==> sizes_for(layout).cover == 52 && sizes_for(
            layout,
        ).text == 138 && sizes_for(layout).info == 236 && sizes_for(layout).side == Some(220u32),
        !layout.narrow && !layout.compact ==> sizes_for(layout).cover == 52 && sizes_for(
            layout,
        ).text == 202 && sizes_for(layout).info == 300 && sizes_for(layout).side == Some(300u32),
        layout.compact ==> sizes_for(layout).volume == 82,
        !layout.compact ==> sizes_for(layout).volume == 118,
{
}

} // verus!
