//! What the player remembers between two runs.

use crate::catalog::{
    find_track, track_place, track_place_is_first, Quality, Track, UserPlaylistId,
};
use crate::fonts::{
    clean, clean_stays, default_lyric_font_families, default_monospace_font_families,
    default_ui_font_families, distinct, distinct_is_clean, families_or, monospace_family,
    normalize_font_families, Platform,
};
use crate::number::{numeral, parse_unsigned, unsigned, written_number_reads_back};
use crate::scan::{trim, trimmed};
use crate::text::{to_chars, texts};
use crate::time::{Duration, NANOS_PER_MILLI, NANOS_PER_SECOND};
use crate::volume::{normalized_volume, sound_volume, Volume, HUNDREDTH_BITS, ONE_BITS};
use std::sync::Arc;
use vstd::prelude::*;

verus! {

pub const DEFAULT_AUDIO_CACHE_LIMIT_GB: u64 = 10;

pub const DEFAULT_IMAGE_CACHE_CAPACITY: usize = 36;

pub const DEFAULT_NAVIGATION_HISTORY_LIMIT: usize = 10;

pub const MAX_IMAGE_CACHE_CAPACITY: usize = 512;

pub const MAX_NAVIGATION_HISTORY_LIMIT: usize = 100;

/// How a queue of recommendations goes on.
#[derive(Clone, Copy, Debug, PartialEq, Eq, Structural)]
pub enum PersistedQueueContinuation {
    Radar { next_page: u64, has_more: bool },
    Guess,
}

/// What was playing: enough to go on with it.
#[derive(Debug, PartialEq, Eq)]
pub struct PersistedPlayback {
    pub account_id: u64,
    pub playlist_id: UserPlaylistId,
    pub track_mid: String,
    pub position_ms: u64,
    pub queue_tracks: Vec<Arc<Track>>,
    pub queue_modified: bool,
    pub queue_continuation: Option<PersistedQueueContinuation>,
}

#[derive(Debug, PartialEq, Eq)]
pub struct PersistedLibraryView {
    pub account_id: u64,
    pub playlist_id: UserPlaylistId,
}

#[derive(Clone, Copy, Debug, PartialEq, Eq, Structural)]
pub struct PersistedWindowSize {
    pub width: u32,
    pub height: u32,
}

#[derive(Clone, Copy, Debug, PartialEq, Eq, Structural)]
pub enum LyricFrameRate {
    Fps30,
    Fps60,
    Fps90,
    Fps120,
    Display,
}

#[derive(Clone, Copy, Debug, PartialEq, Eq, Structural)]
pub enum TrayIconStyle {
    Light,
    Dark,
    Color,
}

#[derive(Clone, Copy, Debug, PartialEq, Eq, Structural)]
pub enum ColorTheme {
    EverforestLight,
    EverforestDark,
    CatppuccinMocha,
}

impl Default for ColorTheme {
    fn default() -> (theme: Self)
        ensures
            theme == ColorTheme::EverforestLight,
    {
        ColorTheme::EverforestLight
    }
}

impl Default for TrayIconStyle {
    fn default() -> (style: Self)
        ensures
            style == TrayIconStyle::Color,
    {
        TrayIconStyle::Color
    }
}

impl TrayIconStyle {
    pub const ALL: [TrayIconStyle; 3] = [
        TrayIconStyle::Light,
        TrayIconStyle::Dark,
        TrayIconStyle::Color,
    ];

    pub open spec fn id_text(self) -> Seq<char> {
        match self {
            TrayIconStyle::Light => "tray-icon-light"@,
            TrayIconStyle::Dark => "tray-icon-dark"@,
            TrayIconStyle::Color => "tray-icon-color"@,
        }
    }

    pub open spec fn label_text(self) -> Seq<char> {
        match self {
            TrayIconStyle::Light => "亮色"@,
            TrayIconStyle::Dark => "暗色"@,
            TrayIconStyle::Color => "彩色"@,
        }
    }

    pub fn id(self) -> (id: &'static str)
        ensures
            id@ == self.id_text(),
    {
        match self {
            TrayIconStyle::Light => "tray-icon-light",
            TrayIconStyle::Dark => "tray-icon-dark",
            TrayIconStyle::Color => "tray-icon-color",
        }
    }

    pub fn label(self) -> (label: &'static str)
        ensures
            label@ == self.label_text(),
    {
        match self {
            TrayIconStyle::Light => "亮色",
            TrayIconStyle::Dark => "暗色",
            TrayIconStyle::Color => "彩色",
        }
    }
}

impl LyricFrameRate {
    pub const ALL: [LyricFrameRate; 5] = [
        LyricFrameRate::Fps30,
        LyricFrameRate::Fps60,
        LyricFrameRate::Fps90,
        LyricFrameRate::Fps120,
        LyricFrameRate::Display,
    ];

    pub open spec fn id_text(self) -> Seq<char> {
        match self {
            LyricFrameRate::Fps30 => "lyrics-fps-30"@,
            LyricFrameRate::Fps60 => "lyrics-fps-60"@,
            LyricFrameRate::Fps90 => "lyrics-fps-90"@,
            LyricFrameRate::Fps120 => "lyrics-fps-120"@,
            LyricFrameRate::Display => "lyrics-fps-display"@,
        }
    }

    pub open spec fn label_text(self) -> Seq<char> {
        match self {
            LyricFrameRate::Fps30 => "30"@,
            LyricFrameRate::Fps60 => "60"@,
            LyricFrameRate::Fps90 => "90"@,
            LyricFrameRate::Fps120 => "120"@,
            LyricFrameRate::Display => "默认"@,
        }
    }

    /// How many frames a second has, where the display does not decide.
    pub open spec fn frames_per_second(self) -> Option<nat> {
        match self {
            LyricFrameRate::Fps30 => Some(30),
            LyricFrameRate::Fps60 => Some(60),
            LyricFrameRate::Fps90 => Some(90),
            LyricFrameRate::Fps120 => Some(120),
            LyricFrameRate::Display => None,
        }
    }

    /// The whole nanoseconds between two frames.
    pub open spec fn interval_nanos(self) -> Option<nat> {
        match self.frames_per_second() {
            Some(frames) => Some(NANOS_PER_SECOND as nat / frames),
            None => None,
        }
    }

    pub fn id(self) -> (id: &'static str)
        ensures
            id@ == self.id_text(),
    {
        match self {
            LyricFrameRate::Fps30 => "lyrics-fps-30",
            LyricFrameRate::Fps60 => "lyrics-fps-60",
            LyricFrameRate::Fps90 => "lyrics-fps-90",
            LyricFrameRate::Fps120 => "lyrics-fps-120",
            LyricFrameRate::Display => "lyrics-fps-display",
        }
    }

    pub fn label(self) -> (label: &'static str)
        ensures
            label@ == self.label_text(),
    {
        match self {
            LyricFrameRate::Fps30 => "30",
            LyricFrameRate::Fps60 => "60",
            LyricFrameRate::Fps90 => "90",
            LyricFrameRate::Fps120 => "120",
            LyricFrameRate::Display => "默认",
        }
    }

    pub fn frame_interval(self) -> (interval: Option<Duration>)
        ensures
            match interval {
                Some(span) => self.interval_nanos() == Some(span@) && span@ > 0,
                None => self.interval_nanos() is None,
            },
    {
        match self {
            LyricFrameRate::Fps30 => Some(Duration::from_nanos(1_000_000_000 / 30)),
            LyricFrameRate::Fps60 => Some(Duration::from_nanos(1_000_000_000 / 60)),
            LyricFrameRate::Fps90 => Some(Duration::from_nanos(1_000_000_000 / 90)),
            LyricFrameRate::Fps120 => Some(Duration::from_nanos(1_000_000_000 / 120)),
            LyricFrameRate::Display => None,
        }
    }
}

impl PersistedPlayback {
    /// Where playback of a track of this length goes on: at the start where the
    /// position is not inside it.
    pub open spec fn resume_nanos(self, duration_seconds: u64) -> nat {
        let position = self.position_ms as nat * NANOS_PER_MILLI as nat;
        if position >= duration_seconds as nat * NANOS_PER_SECOND as nat {
            0
        } else {
            position
        }
    }

    pub fn resume_position(&self, duration_seconds: u64) -> (position: Duration)
        ensures
            position@ == self.resume_nanos(duration_seconds),
    {
        let position = Duration::from_millis(self.position_ms);
        let duration = Duration::from_secs(duration_seconds);
        if duration.is_zero() || duration.is_at_most(position) {
            Duration::zero()
        } else {
            position
        }
    }

    /// The queue holds the track that was playing.
    pub open spec fn restorable(self) -> bool {
        trim(self.track_mid@).len() > 0 && track_place(
            self.queue_tracks@,
            self.track_mid@,
        ) is Some
    }

    pub fn is_restorable(&self) -> (result: bool)
        ensures
            result == self.restorable(),
    {
        let chars = to_chars(self.track_mid.as_str());
        trimmed(chars.as_slice()).len() > 0 && find_track(
            &self.queue_tracks,
            &self.track_mid,
        ).is_some()
    }
}

#[derive(Debug)]
pub struct AppSettings {
    pub volume: Volume,
    pub last_nonzero_volume: Volume,
    pub color_theme: ColorTheme,
    pub tray_icon_style: TrayIconStyle,
    pub ui_font_families: Vec<String>,
    pub monospace_font_families: Vec<String>,
    pub lyric_font_families: Vec<String>,
    pub audio_cache_limit_gb: u64,
    pub image_cache_capacity: usize,
    pub navigation_history_limit: usize,
    pub playback_quality: Quality,
    pub lyric_highlight_frame_rate: LyricFrameRate,
    pub lyric_scroll_frame_rate: LyricFrameRate,
    pub last_library_view: Option<PersistedLibraryView>,
    pub current_playback: Option<PersistedPlayback>,
    pub window_size: Option<PersistedWindowSize>,
    pub sidebar_width: Option<u32>,
}

pub open spec fn between(value: int, low: int, high: int) -> int {
    if value < low {
        low
    } else if value > high {
        high
    } else {
        value
    }
}

/// A volume to go back to: sound, and not silent.
pub open spec fn audible_volume(value: Volume) -> Volume {
    let volume = sound_volume(value, Volume { bits: ONE_BITS });
    if volume.order() < HUNDREDTH_BITS {
        Volume { bits: HUNDREDTH_BITS }
    } else {
        volume
    }
}

impl AppSettings {
    /// The settings hold nothing that normalizing would change.
    pub open spec fn normal(self) -> bool {
        &&& self.volume.sound()
        &&& self.last_nonzero_volume.sound()
        &&& self.last_nonzero_volume.order() >= HUNDREDTH_BITS
        &&& texts(self.ui_font_families@).len() > 0 && clean(texts(self.ui_font_families@))
        &&& texts(self.monospace_font_families@).len() > 0 && clean(
            texts(self.monospace_font_families@),
        )
        &&& texts(self.lyric_font_families@).len() > 0 && clean(texts(self.lyric_font_families@))
        &&& self.audio_cache_limit_gb >= 1
        &&& 1 <= self.image_cache_capacity <= MAX_IMAGE_CACHE_CAPACITY
        &&& 1 <= self.navigation_history_limit <= MAX_NAVIGATION_HISTORY_LIMIT
        &&& match self.current_playback {
            Some(playback) => playback.restorable(),
            None => true,
        }
    }

    /// `other` is what normalizing makes of these settings.
    pub open spec fn normalizes_to(self, other: AppSettings, platform: Platform) -> bool {
        &&& other.volume == sound_volume(self.volume, Volume { bits: ONE_BITS })
        &&& other.last_nonzero_volume == audible_volume(self.last_nonzero_volume)
        &&& other.color_theme == self.color_theme
        &&& other.tray_icon_style == self.tray_icon_style
        &&& texts(other.ui_font_families@) == families_or(
            texts(self.ui_font_families@),
            seq![".SystemUIFont"@],
        )
        &&& texts(other.monospace_font_families@) == families_or(
            texts(self.monospace_font_families@),
            seq![monospace_family(platform)],
        )
        &&& texts(other.lyric_font_families@) == families_or(
            texts(self.lyric_font_families@),
            seq![".SystemUIFont"@],
        )
        &&& other.audio_cache_limit_gb == (if self.audio_cache_limit_gb < 1 {
            1
        } else {
            self.audio_cache_limit_gb
        })
        &&& other.image_cache_capacity == between(
            self.image_cache_capacity as int,
            1,
            MAX_IMAGE_CACHE_CAPACITY as int,
        )
        &&& other.navigation_history_limit == between(
            self.navigation_history_limit as int,
            1,
            MAX_NAVIGATION_HISTORY_LIMIT as int,
        )
        &&& other.playback_quality == self.playback_quality
        &&& other.lyric_highlight_frame_rate == self.lyric_highlight_frame_rate
        &&& other.lyric_scroll_frame_rate == self.lyric_scroll_frame_rate
        &&& other.last_library_view == self.last_library_view
        &&& other.current_playback == match self.current_playback {
            Some(playback) if !playback.restorable() => None,
            playback => playback,
        }
        &&& other.window_size == self.window_size
        &&& other.sidebar_width == self.sidebar_width
    }

    /// The settings of a player that never stored any.
    pub open spec fn initial(self, platform: Platform) -> bool {
        &&& self.volume == (Volume { bits: ONE_BITS })
        &&& self.last_nonzero_volume == (Volume { bits: ONE_BITS })
        &&& self.color_theme == ColorTheme::EverforestLight
        &&& self.tray_icon_style == TrayIconStyle::Color
        &&& texts(self.ui_font_families@) == seq![".SystemUIFont"@]
        &&& texts(self.monospace_font_families@) == seq![monospace_family(platform)]
        &&& texts(self.lyric_font_families@) == seq![".SystemUIFont"@]
        &&& self.audio_cache_limit_gb == DEFAULT_AUDIO_CACHE_LIMIT_GB
        &&& self.image_cache_capacity == DEFAULT_IMAGE_CACHE_CAPACITY
        &&& self.navigation_history_limit == DEFAULT_NAVIGATION_HISTORY_LIMIT
        &&& self.playback_quality == Quality::Standard
        &&& self.lyric_highlight_frame_rate == LyricFrameRate::Fps30
        &&& self.lyric_scroll_frame_rate == LyricFrameRate::Display
        &&& self.last_library_view is None
        &&& self.current_playback is None
        &&& self.window_size is None
        &&& self.sidebar_width is None
    }

    /// The settings of a player that runs for the first time.
    pub fn defaults(platform: Platform) -> (settings: Self)
        ensures
            settings.initial(platform),
            settings.normal(),
    {
        proof {
            default_families_clean(platform);
        }
        AppSettings {
            volume: Volume { bits: ONE_BITS },
            last_nonzero_volume: Volume { bits: ONE_BITS },
            color_theme: ColorTheme::EverforestLight,
            tray_icon_style: TrayIconStyle::Color,
            ui_font_families: default_ui_font_families(),
            monospace_font_families: default_monospace_font_families(platform),
            lyric_font_families: default_lyric_font_families(),
            audio_cache_limit_gb: DEFAULT_AUDIO_CACHE_LIMIT_GB,
            image_cache_capacity: DEFAULT_IMAGE_CACHE_CAPACITY,
            navigation_history_limit: DEFAULT_NAVIGATION_HISTORY_LIMIT,
            playback_quality: Quality::Standard,
            lyric_highlight_frame_rate: LyricFrameRate::Fps30,
            lyric_scroll_frame_rate: LyricFrameRate::Display,
            last_library_view: None,
            current_playback: None,
            window_size: None,
            sidebar_width: None,
        }
    }

    /// Brings every setting into its range.
    pub fn normalized(self, platform: Platform) -> (settings: Self)
        ensures
            self.normalizes_to(settings, platform),
            settings.normal(),
    {
        proof {
            default_families_clean(platform);
            distinct_is_clean(texts(self.ui_font_families@));
            distinct_is_clean(texts(self.monospace_font_families@));
            distinct_is_clean(texts(self.lyric_font_families@));
        }
        let one = Volume { bits: ONE_BITS };
        let capacity: usize = if self.image_cache_capacity < 1 {
            1
        } else if self.image_cache_capacity > MAX_IMAGE_CACHE_CAPACITY {
            MAX_IMAGE_CACHE_CAPACITY
        } else {
            self.image_cache_capacity
        };
        let limit: usize = if self.navigation_history_limit < 1 {
            1
        } else if self.navigation_history_limit > MAX_NAVIGATION_HISTORY_LIMIT {
            MAX_NAVIGATION_HISTORY_LIMIT
        } else {
            self.navigation_history_limit
        };
        let keep: bool = match &self.current_playback {
            Some(playback) => playback.is_restorable(),
            None => true,
        };
        AppSettings {
            volume: normalized_volume(self.volume, one),
            last_nonzero_volume: normalized_volume(
                self.last_nonzero_volume,
                one,
            ).at_least_hundredth(),
            color_theme: self.color_theme,
            tray_icon_style: self.tray_icon_style,
            ui_font_families: normalize_font_families(
                self.ui_font_families,
                default_ui_font_families(),
            ),
            monospace_font_families: normalize_font_families(
                self.monospace_font_families,
                default_monospace_font_families(platform),
            ),
            lyric_font_families: normalize_font_families(
                self.lyric_font_families,
                default_lyric_font_families(),
            ),
            audio_cache_limit_gb: if self.audio_cache_limit_gb < 1 {
                1
            } else {
                self.audio_cache_limit_gb
            },
            image_cache_capacity: capacity,
            navigation_history_limit: limit,
            playback_quality: self.playback_quality,
            lyric_highlight_frame_rate: self.lyric_highlight_frame_rate,
            lyric_scroll_frame_rate: self.lyric_scroll_frame_rate,
            last_library_view: self.last_library_view,
            current_playback: if keep {
                self.current_playback
            } else {
                None
            },
            window_size: self.window_size,
            sidebar_width: self.sidebar_width,
        }
    }
}

proof fn one_family_clean(family: Seq<char>)
    requires
        family.len() > 0,
        !crate::text::whitespace(family[0]),
        !crate::text::whitespace(family.last()),
    ensures
        clean(seq![family]),
        texts(Seq::<String>::empty()) =~= Seq::empty(),
{
    let ws = crate::scan::CharClass::Whitespace;
    crate::scan::skip_class_stops(family, ws, 0);
    assert(crate::scan::trim_start(family) =~= family);
    crate::scan::end_without_stops(family, ws);
    assert(trim(family) =~= family);
}

/// The usual families are clean lists.
pub proof fn default_families_clean(platform: Platform)
    ensures
        clean(seq![".SystemUIFont"@]),
        clean(seq![monospace_family(platform)]),
{
    reveal_strlit(".SystemUIFont");
    one_family_clean(".SystemUIFont"@);
    reveal_strlit("Menlo");
    reveal_strlit("Consolas");
    reveal_strlit("DejaVu Sans Mono");
    one_family_clean(monospace_family(platform));
}

/// Normalizing what is normal changes nothing, so normalizing twice is normalizing
/// once.
pub proof fn normalizing_is_idempotent(
    settings: AppSettings,
    again: AppSettings,
    platform: Platform,
)
    requires
        settings.normal(),
        settings.normalizes_to(again, platform),
    ensures
        again.volume == settings.volume,
        again.last_nonzero_volume == settings.last_nonzero_volume,
        texts(again.ui_font_families@) == texts(settings.ui_font_families@),
        texts(again.monospace_font_families@) == texts(settings.monospace_font_families@),
        texts(again.lyric_font_families@) == texts(settings.lyric_font_families@),
        again.audio_cache_limit_gb == settings.audio_cache_limit_gb,
        again.image_cache_capacity == settings.image_cache_capacity,
        again.navigation_history_limit == settings.navigation_history_limit,
        again.current_playback == settings.current_playback,
{
    clean_stays(texts(settings.ui_font_families@));
    clean_stays(texts(settings.monospace_font_families@));
    clean_stays(texts(settings.lyric_font_families@));
}

/// What reading a file of the player came to.
pub enum Stored<T> {
    Missing,
    Unreadable,
    Malformed,
    Found(T),
}

/// Why a file of the player could not be used.
#[derive(Clone, Copy, Debug, PartialEq, Eq, Structural)]
pub enum StoreError {
    Unreadable,
    Malformed,
}

/// The settings file.
pub struct SettingsStore;

impl SettingsStore {
    /// The settings to start with: those that were stored, normalized, and the
    /// defaults where none were.
    pub fn load(stored: Stored<AppSettings>, platform: Platform) -> (settings: Result<
        AppSettings,
        StoreError,
    >)
        ensures
            match (stored, settings) {
                (Stored::Missing, Ok(settings)) => settings.initial(platform),
                (Stored::Found(found), Ok(settings)) => found.normalizes_to(settings, platform),
                (Stored::Unreadable, Err(error)) => error == StoreError::Unreadable,
                (Stored::Malformed, Err(error)) => error == StoreError::Malformed,
                _ => false,
            },
    {
        match stored {
            Stored::Missing => Ok(AppSettings::defaults(platform)),
            Stored::Unreadable => Err(StoreError::Unreadable),
            Stored::Malformed => Err(StoreError::Malformed),
            Stored::Found(settings) => Ok(settings.normalized(platform)),
        }
    }

    /// The settings to write: normalized ones.
    pub fn save(settings: AppSettings, platform: Platform) -> (written: AppSettings)
        ensures
            settings.normalizes_to(written, platform),
            written.normal(),
    {
        settings.normalized(platform)
    }

    pub open spec fn message_text(error: StoreError) -> Seq<char> {
        match error {
            StoreError::Unreadable => "无法读取应用设置"@,
            StoreError::Malformed => "应用设置格式无效"@,
        }
    }

    pub fn message(error: StoreError) -> (text: &'static str)
        ensures
            text@ == Self::message_text(error),
    {
        match error {
            StoreError::Unreadable => "无法读取应用设置",
            StoreError::Malformed => "应用设置格式无效",
        }
    }
}

/// The file with what is known of the servers that deliver music.
pub struct CdnCacheStore;

impl CdnCacheStore {
    /// The cache to start with: what was stored, and an empty one where nothing was.
    pub fn load<T>(stored: Stored<T>, empty: T) -> (cache: Result<T, StoreError>)
        ensures
            cache == (match stored {
                Stored::Missing => Ok(empty),
                Stored::Unreadable => Err(StoreError::Unreadable),
                Stored::Malformed => Err(StoreError::Malformed),
                Stored::Found(found) => Ok(found),
            }),
    {
        match stored {
            Stored::Missing => Ok(empty),
            Stored::Unreadable => Err(StoreError::Unreadable),
            Stored::Malformed => Err(StoreError::Malformed),
            Stored::Found(found) => Ok(found),
        }
    }

    pub open spec fn message_text(error: StoreError) -> Seq<char> {
        match error {
            StoreError::Unreadable => "无法读取 CDN 缓存"@,
            StoreError::Malformed => "CDN 缓存格式无效"@,
        }
    }

    pub fn message(error: StoreError) -> (text: &'static str)
        ensures
            text@ == Self::message_text(error),
    {
        match error {
            StoreError::Unreadable => "无法读取 CDN 缓存",
            StoreError::Malformed => "CDN 缓存格式无效",
        }
    }
}

/// Something fetched less than `ttl` ago, in whole seconds.
pub open spec fn fresh(fetched_at_secs: u64, now_secs: u64, ttl_seconds: nat) -> bool {
    let age = if now_secs >= fetched_at_secs {
        now_secs - fetched_at_secs
    } else {
        0
    };
    age < ttl_seconds
}

pub fn is_fresh(fetched_at_secs: u64, now_secs: u64, ttl: Duration) -> (result: bool)
    ensures
        result == fresh(fetched_at_secs, now_secs, ttl@ / NANOS_PER_SECOND as nat),
{
    now_secs.saturating_sub(fetched_at_secs) < ttl.as_secs()
}

/// The number that a user typed for a limit: what is no positive number leaves the
/// limit as it is, and no limit exceeds `max`.
pub open spec fn typed_limit(text: Seq<char>, current: nat, max: nat) -> nat {
    let value = match unsigned(text, 10, u64::MAX as nat) {
        Some(n) if n > 0 => n,
        _ => current,
    };
    if value <= max {
        value
    } else {
        max
    }
}

pub fn entered_limit(text: &str, current: u64, max: u64) -> (limit: u64)
    ensures
        limit == typed_limit(text@, current as nat, max as nat),
{
    let chars = to_chars(text);
    let value = match parse_unsigned(chars.as_slice(), 10, u64::MAX) {
        Some(n) => if n > 0 {
            n
        } else {
            current
        },
        None => current,
    };
    if value <= max {
        value
    } else {
        max
    }
}

/// Settings that were stored are made good: volumes lie in range and the one to go back to
/// is heard, the limits lie within theirs, the lists of fonts are clean and never empty,
/// and what was playing is kept only where its queue holds it. What is good already stays,
/// and so does all else.
pub proof fn stored_settings_are_made_good(
    settings: AppSettings,
    after: AppSettings,
    platform: Platform,
)
    requires
        settings.normalizes_to(after, platform),
    ensures
        after.volume.sound(),
        settings.volume.sound() ==> after.volume == settings.volume,
        !settings.volume.finite() ==> after.volume.bits == 0x3f80_0000,
        after.last_nonzero_volume.sound() && after.last_nonzero_volume.order() >= 0x3c23_d70a,
        settings.last_nonzero_volume.sound() && settings.last_nonzero_volume.order()
            >= 0x3c23_d70a ==> after.last_nonzero_volume == settings.last_nonzero_volume,
        settings.last_nonzero_volume.sound() && settings.last_nonzero_volume.order() < 0x3c23_d70a
            ==> after.last_nonzero_volume.bits == 0x3c23_d70a,
        settings.volume.finite() && settings.volume.order() > 0x3f80_0000 ==> after.volume.bits
            == 0x3f80_0000,
        settings.volume.finite() && settings.volume.order() < 0 ==> after.volume.bits == 0,
        !settings.last_nonzero_volume.finite() ==> after.last_nonzero_volume.bits == 0x3f80_0000,
        settings.last_nonzero_volume.finite() && settings.last_nonzero_volume.order() > 0x3f80_0000
            ==> after.last_nonzero_volume.bits == 0x3f80_0000,
        settings.last_nonzero_volume.finite() && settings.last_nonzero_volume.order() < 0x3c23_d70a
            ==> after.last_nonzero_volume.bits == 0x3c23_d70a,
        settings.audio_cache_limit_gb == 0 ==> after.audio_cache_limit_gb == 1,
        settings.image_cache_capacity == 0 ==> after.image_cache_capacity == 1,
        settings.navigation_history_limit == 0 ==> after.navigation_history_limit == 1,
        distinct(texts(settings.ui_font_families@)).len() > 0 ==> texts(after.ui_font_families@)
            == distinct(texts(settings.ui_font_families@)),
        distinct(texts(settings.ui_font_families@)).len() == 0 ==> texts(after.ui_font_families@)
            == seq![".SystemUIFont"@],
        distinct(texts(settings.lyric_font_families@)).len() > 0 ==> texts(
            after.lyric_font_families@,
        ) == distinct(texts(settings.lyric_font_families@)),
        distinct(texts(settings.lyric_font_families@)).len() == 0 ==> texts(
            after.lyric_font_families@,
        ) == seq![".SystemUIFont"@],
        distinct(texts(settings.monospace_font_families@)).len() > 0 ==> texts(
            after.monospace_font_families@,
        ) == distinct(texts(settings.monospace_font_families@)),
        distinct(texts(settings.monospace_font_families@)).len() == 0 ==> texts(
            after.monospace_font_families@,
        ) == seq![monospace_family(platform)],
        settings.current_playback matches Some(playback) ==> (playback.restorable()
            ==> after.current_playback == settings.current_playback) && (!playback.restorable()
            ==> after.current_playback is None),
        after.audio_cache_limit_gb >= 1,
        settings.audio_cache_limit_gb >= 1 ==> after.audio_cache_limit_gb
            == settings.audio_cache_limit_gb,
        1 <= after.image_cache_capacity <= 512,
        1 <= settings.image_cache_capacity <= 512 ==> after.image_cache_capacity
            == settings.image_cache_capacity,
        settings.image_cache_capacity > 512 ==> after.image_cache_capacity == 512,
        1 <= after.navigation_history_limit <= 100,
        1 <= settings.navigation_history_limit <= 100 ==> after.navigation_history_limit
            == settings.navigation_history_limit,
        settings.navigation_history_limit > 100 ==> after.navigation_history_limit == 100,
        texts(after.ui_font_families@).len() > 0 && clean(texts(after.ui_font_families@)),
        texts(after.lyric_font_families@).len() > 0 && clean(texts(after.lyric_font_families@)),
        texts(after.monospace_font_families@).len() > 0 && clean(
            texts(after.monospace_font_families@),
        ),
        texts(settings.ui_font_families@).len() > 0 && clean(texts(settings.ui_font_families@))
            ==> texts(after.ui_font_families@) == texts(settings.ui_font_families@),
        after.current_playback is Some ==> after.current_playback == settings.current_playback
            && exists|i: int|
            0 <= i < settings.current_playback.unwrap().queue_tracks@.len() && (
            #[trigger] settings.current_playback.unwrap().queue_tracks@[i]).mid@
                == settings.current_playback.unwrap().track_mid@,
        after.playback_quality == settings.playback_quality && after.color_theme
            == settings.color_theme && after.tray_icon_style == settings.tray_icon_style,
        after.lyric_highlight_frame_rate == settings.lyric_highlight_frame_rate
            && after.lyric_scroll_frame_rate == settings.lyric_scroll_frame_rate,
        after.last_library_view == settings.last_library_view && after.window_size
            == settings.window_size && after.sidebar_width == settings.sidebar_width,
{
    default_families_clean(platform);
    distinct_is_clean(texts(settings.ui_font_families@));
    distinct_is_clean(texts(settings.lyric_font_families@));
    distinct_is_clean(texts(settings.monospace_font_families@));
    if clean(texts(settings.ui_font_families@)) {
        clean_stays(texts(settings.ui_font_families@));
    }
    if let Some(playback) = after.current_playback {
        track_place_is_first(playback.queue_tracks@, playback.track_mid@);
        let i = track_place(playback.queue_tracks@, playback.track_mid@).unwrap();
        assert(settings.current_playback.unwrap().queue_tracks@[i].mid@ == playback.track_mid@);
    }
}

/// Playback goes on at the millisecond where it was left, and at the start where that lies
/// at or behind the end of the track.
pub proof fn playback_goes_on_where_it_was_left(kept: PersistedPlayback, duration_seconds: u64)
    ensures
        kept.position_ms < 1_000 * duration_seconds ==> kept.resume_nanos(duration_seconds)
            == 1_000_000 * kept.position_ms,
        kept.position_ms >= 1_000 * duration_seconds ==> kept.resume_nanos(duration_seconds) == 0,
{
}

/// A typed number becomes the limit, up to the largest one; zero, and what is no number,
/// leaves the limit as it was.
pub proof fn typed_limits_are_taken(n: nat, text: Seq<char>, current: nat, max: nat)
    requires
        0 < n <= u64::MAX,
        current <= max,
    ensures
        n <= max ==> typed_limit(numeral(n, 10), current, max) == n,
        n > max ==> typed_limit(numeral(n, 10), current, max) == max,
        typed_limit(numeral(0, 10), current, max) == current,
        unsigned(text, 10, u64::MAX as nat) is None ==> typed_limit(text, current, max) == current,
{
    written_number_reads_back(n, 10, u64::MAX as nat);
    written_number_reads_back(0, 10, u64::MAX as nat);
}

/// What was fetched is fresh until its time has run out; a clock that was set back does
/// not make it old.
pub proof fn things_stay_fresh_for_their_time(fetched_at_secs: u64, now_secs: u64, ttl_seconds: nat)
    requires
        ttl_seconds > 0,
    ensures
        fresh(fetched_at_secs, now_secs, ttl_seconds) <==> now_secs < fetched_at_secs + ttl_seconds,
{
}

/// Settings that need no mending lie within all their bounds.
pub proof fn good_settings_lie_within_bounds(settings: AppSettings)
    requires
        settings.normal(),
    ensures
        settings.volume.sound() && settings.last_nonzero_volume.sound(),
        settings.last_nonzero_volume.order() >= 0x3c23_d70a,
        settings.ui_font_families@.len() > 0 && settings.monospace_font_families@.len() > 0
            && settings.lyric_font_families@.len() > 0,
        settings.audio_cache_limit_gb >= 1,
        1 <= settings.image_cache_capacity <= 512,
        1 <= settings.navigation_history_limit <= 100,
        settings.current_playback matches Some(playback) ==> playback.restorable(),
{
    assert(texts(settings.ui_font_families@).len() == settings.ui_font_families@.len());
    assert(texts(settings.monospace_font_families@).len()
        == settings.monospace_font_families@.len());
    assert(texts(settings.lyric_font_families@).len() == settings.lyric_font_families@.len());
}

/// A player that never stored anything is at full volume, keeps ten gigabytes of audio, 36
/// pictures and ten pages, draws the lyrics 30 times a second, and has nothing to take up
/// again.
pub proof fn first_settings_are_the_usual_ones(settings: AppSettings, platform: Platform)
    requires
        settings.initial(platform),
    ensures
        settings.volume.bits == 0x3f80_0000 && settings.last_nonzero_volume.bits == 0x3f80_0000,
        settings.audio_cache_limit_gb == 10,
        settings.image_cache_capacity == 36,
        settings.navigation_history_limit == 10,
        settings.color_theme == ColorTheme::EverforestLight && settings.tray_icon_style
            == TrayIconStyle::Color && settings.playback_quality == Quality::Standard,
        settings.lyric_highlight_frame_rate == LyricFrameRate::Fps30
            && settings.lyric_scroll_frame_rate == LyricFrameRate::Display,
        settings.last_library_view is None && settings.current_playback is None,
        settings.window_size is None && settings.sidebar_width is None,
        texts(settings.ui_font_families@) == seq![".SystemUIFont"@],
        texts(settings.lyric_font_families@) == seq![".SystemUIFont"@],
        texts(settings.monospace_font_families@).len() == 1,
        settings.normal(),
{
    default_families_clean(platform);
}

/// What was playing can be taken up again where it has an id that its queue holds.
pub proof fn what_the_queue_holds_can_be_taken_up(kept: PersistedPlayback)
    ensures
        kept.restorable() <==> trim(kept.track_mid@).len() > 0 && exists|i: int|
            0 <= i < kept.queue_tracks@.len() && (#[trigger] kept.queue_tracks@[i]).mid@
                == kept.track_mid@,
{
    track_place_is_first(kept.queue_tracks@, kept.track_mid@);
    if let Some(i) = track_place(kept.queue_tracks@, kept.track_mid@) {
        assert(kept.queue_tracks@[i].mid@ == kept.track_mid@);
    }
}

} // verus!
