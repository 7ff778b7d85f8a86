use lyrune::catalog::{Quality, Track, UserPlaylist, UserPlaylistId, UserProfile};
use lyrune::directory::LibraryCache;
use lyrune::fonts::{
    default_lyric_font_families, default_monospace_font_families, default_ui_font_families,
    join_font_families, normalize_font_families, parse_font_families, Platform,
};
use lyrune::settings::{
    entered_limit, is_fresh, AppSettings, CdnCacheStore, ColorTheme, LyricFrameRate,
    PersistedPlayback, SettingsStore, StoreError, Stored, TrayIconStyle,
    DEFAULT_AUDIO_CACHE_LIMIT_GB, DEFAULT_IMAGE_CACHE_CAPACITY, DEFAULT_NAVIGATION_HISTORY_LIMIT,
    MAX_NAVIGATION_HISTORY_LIMIT,
};
use lyrune::time::Duration;
use lyrune::volume::{Loudness, Volume};
use std::sync::Arc;

fn track(mid: &str) -> Track {
    Track {
        song_id: None,
        song_type: 0,
        mid: mid.to_owned(),
        media_mid: None,
        standard_size_bytes: None,
        high_size_bytes: None,
        lossless_size_bytes: None,
        hi_res_size_bytes: None,
        atmos_stereo_size_bytes: None,
        atmos_surround_size_bytes: None,
        master_size_bytes: None,
        title: mid.to_owned(),
        artists: String::new(),
        artist_details: Vec::new(),
        album: String::new(),
        album_mid: String::new(),
        cover_url: None,
        duration_seconds: 180,
    }
}

fn volume(value: f32) -> Volume {
    Volume {
        bits: value.to_bits(),
    }
}

fn playback(mid: &str, tracks: Vec<Arc<Track>>) -> PersistedPlayback {
    PersistedPlayback {
        account_id: 10001,
        playlist_id: UserPlaylistId::Liked,
        track_mid: mid.to_owned(),
        position_ms: 92_345,
        queue_tracks: tracks,
        queue_modified: false,
        queue_continuation: None,
    }
}

#[test]
fn missing_settings_fields_use_defaults() {
    let settings = AppSettings::defaults(Platform::Other);
    assert_eq!(settings.volume, volume(1.));
    assert_eq!(settings.last_nonzero_volume, volume(1.));
    assert_eq!(settings.color_theme, ColorTheme::EverforestLight);
    assert_eq!(settings.tray_icon_style, TrayIconStyle::Color);
    assert_eq!(settings.ui_font_families, [".SystemUIFont"]);
    assert_eq!(
        settings.monospace_font_families,
        default_monospace_font_families(Platform::Other)
    );
    assert_eq!(settings.lyric_font_families, [".SystemUIFont"]);
    assert_eq!(settings.audio_cache_limit_gb, DEFAULT_AUDIO_CACHE_LIMIT_GB);
    assert_eq!(settings.image_cache_capacity, DEFAULT_IMAGE_CACHE_CAPACITY);
    assert_eq!(
        settings.navigation_history_limit,
        DEFAULT_NAVIGATION_HISTORY_LIMIT
    );
    assert_eq!(settings.playback_quality, Quality::Standard);
    assert_eq!(settings.lyric_highlight_frame_rate, LyricFrameRate::Fps30);
    assert_eq!(settings.lyric_scroll_frame_rate, LyricFrameRate::Display);
    assert_eq!(settings.last_library_view, None);
    assert_eq!(settings.current_playback, None);
    assert_eq!(settings.window_size, None);
    assert_eq!(settings.sidebar_width, None);
}

#[test]
fn font_family_input_is_trimmed_and_deduplicated_in_order() {
    assert_eq!(
        parse_font_families(" Inter, Noto Sans CJK SC，inter, , Noto Color Emoji "),
        ["Inter", "Noto Sans CJK SC", "Noto Color Emoji"]
    );
}

#[test]
fn persisted_volumes_are_clamped() {
    let settings = AppSettings {
        volume: volume(2.),
        last_nonzero_volume: volume(-1.),
        color_theme: ColorTheme::CatppuccinMocha,
        tray_icon_style: TrayIconStyle::Light,
        ui_font_families: default_ui_font_families(),
        monospace_font_families: default_monospace_font_families(Platform::Other),
        lyric_font_families: default_lyric_font_families(),
        audio_cache_limit_gb: 0,
        image_cache_capacity: 0,
        navigation_history_limit: usize::MAX,
        playback_quality: Quality::High,
        lyric_highlight_frame_rate: LyricFrameRate::Fps30,
        lyric_scroll_frame_rate: LyricFrameRate::Display,
        last_library_view: None,
        current_playback: None,
        window_size: None,
        sidebar_width: None,
    }
    .normalized(Platform::Other);
    assert_eq!(settings.volume, volume(1.));
    assert_eq!(settings.last_nonzero_volume, volume(0.01));
    assert_eq!(settings.audio_cache_limit_gb, 1);
    assert_eq!(settings.image_cache_capacity, 1);
    assert_eq!(
        settings.navigation_history_limit,
        MAX_NAVIGATION_HISTORY_LIMIT
    );
}

#[test]
fn lyric_frame_rates_map_to_expected_intervals() {
    assert_eq!(
        LyricFrameRate::Fps30.frame_interval(),
        Some(Duration::from_nanos(1_000_000_000 / 30))
    );
    assert_eq!(
        LyricFrameRate::Fps60.frame_interval(),
        Some(Duration::from_nanos(1_000_000_000 / 60))
    );
    assert_eq!(
        LyricFrameRate::Fps90.frame_interval(),
        Some(Duration::from_nanos(1_000_000_000 / 90))
    );
    assert_eq!(
        LyricFrameRate::Fps120.frame_interval(),
        Some(Duration::from_nanos(1_000_000_000 / 120))
    );
    assert_eq!(LyricFrameRate::Display.frame_interval(), None);
}

#[test]
fn playback_resume_position_preserves_progress_but_not_eof() {
    let mut playback = playback("track-mid", vec![Arc::new(track("track-mid"))]);
    assert_eq!(playback.resume_position(180), Duration::from_millis(92_345));

    playback.position_ms = 180_000;
    assert_eq!(playback.resume_position(180), Duration::zero());
    playback.position_ms = 200_000;
    assert_eq!(playback.resume_position(180), Duration::zero());
}

#[test]
fn playback_from_before_queue_persistence_is_discarded() {
    let mut settings = AppSettings::defaults(Platform::Other);
    let mut old = playback("track-mid", Vec::new());
    old.position_ms = 1234;
    settings.current_playback = Some(old);
    assert_eq!(settings.normalized(Platform::Other).current_playback, None);

    let mut settings = AppSettings::defaults(Platform::Other);
    settings.current_playback = Some(playback("gone", vec![Arc::new(track("other"))]));
    assert_eq!(settings.normalized(Platform::Other).current_playback, None);

    let mut settings = AppSettings::defaults(Platform::Other);
    settings.current_playback = Some(playback("kept", vec![Arc::new(track("kept"))]));
    assert!(settings
        .normalized(Platform::Other)
        .current_playback
        .is_some());
}

#[test]
fn library_directory_uses_ttl_and_tracks_liked_count_changes() {
    let mut cache = LibraryCache::default();
    let profile = UserProfile {
        id: "10001".to_owned(),
        nickname: "tester".to_owned(),
        avatar_url: None,
    };
    let liked = UserPlaylist {
        id: UserPlaylistId::Liked,
        title: "liked".to_owned(),
        cover_url: None,
        description: String::new(),
        owner: String::new(),
        owner_avatar_url: None,
        track_count: 2,
    };
    cache.replace_directory(10001, profile, vec![liked], 100);
    assert!(cache
        .fresh_directory(10001, 399, Duration::from_secs(300))
        .is_some());
    assert!(cache
        .fresh_directory(10001, 400, Duration::from_secs(300))
        .is_none());

    cache.update_liked_track_count(10001, true);
    assert_eq!(cache.directories[0].playlists[0].track_count, 3);
    cache.update_liked_track_count(10001, false);
    assert_eq!(cache.directories[0].playlists[0].track_count, 2);
}

#[test]
fn a_directory_is_replaced_in_place() {
    let profile = |name: &str| UserProfile {
        id: "1".to_owned(),
        nickname: name.to_owned(),
        avatar_url: None,
    };
    let mut cache = LibraryCache::new();
    cache.replace_directory(1, profile("a"), Vec::new(), 10);
    cache.replace_directory(2, profile("b"), Vec::new(), 10);
    cache.replace_directory(1, profile("c"), Vec::new(), 20);
    assert_eq!(cache.directories.len(), 2);
    let ttl = Duration::from_secs(5);
    assert_eq!(cache.fresh_directory(1, 24, ttl).unwrap().0.nickname, "c");
    assert!(cache.fresh_directory(2, 24, ttl).is_none());
    assert!(cache.fresh_directory(3, 24, ttl).is_none());
}

#[test]
fn labels_and_ids_are_fixed() {
    let ids: Vec<&str> = TrayIconStyle::ALL.iter().map(|style| style.id()).collect();
    assert_eq!(ids, ["tray-icon-light", "tray-icon-dark", "tray-icon-color"]);
    let labels: Vec<&str> = TrayIconStyle::ALL.iter().map(|style| style.label()).collect();
    assert_eq!(labels, ["亮色", "暗色", "彩色"]);
    let rates: Vec<&str> = LyricFrameRate::ALL.iter().map(|rate| rate.label()).collect();
    assert_eq!(rates, ["30", "60", "90", "120", "默认"]);
    assert_eq!(LyricFrameRate::Display.id(), "lyrics-fps-display");
}

#[test]
fn a_list_without_names_falls_back() {
    assert_eq!(
        normalize_font_families(vec!["  ".to_owned()], vec!["Usual".to_owned()]),
        ["Usual"]
    );
    assert!(parse_font_families(" ，, ").is_empty());
    assert_eq!(
        default_monospace_font_families(Platform::MacOs),
        ["Menlo"]
    );
    assert_eq!(
        default_monospace_font_families(Platform::Windows),
        ["Consolas"]
    );
    let families = vec!["A B".to_owned(), "C".to_owned()];
    let text = join_font_families(&families);
    assert_eq!(text, "A B, C");
    assert_eq!(parse_font_families(&text), families);
}

#[test]
fn normalizing_twice_is_normalizing_once() {
    let mut settings = AppSettings::defaults(Platform::Windows);
    settings.ui_font_families = vec![" Inter ".to_owned(), "INTER".to_owned()];
    settings.volume = volume(f32::NAN);
    let once = settings.normalized(Platform::Windows);
    assert_eq!(once.ui_font_families, ["Inter"]);
    assert_eq!(once.volume, volume(1.));
    let twice = once.normalized(Platform::Windows);
    assert_eq!(twice.ui_font_families, ["Inter"]);
    assert_eq!(twice.volume, volume(1.));
}

#[test]
fn stored_settings_are_loaded_or_refused() {
    assert!(SettingsStore::load(Stored::Missing, Platform::Other).is_ok());
    let malformed = SettingsStore::load(Stored::Malformed, Platform::Other);
    assert_eq!(malformed.err(), Some(StoreError::Malformed));
    let unreadable = SettingsStore::load(Stored::Unreadable, Platform::Other);
    assert_eq!(unreadable.err(), Some(StoreError::Unreadable));
    assert_eq!(SettingsStore::message(StoreError::Malformed), "应用设置格式无效");
    let mut settings = AppSettings::defaults(Platform::Other);
    settings.image_cache_capacity = 9_999;
    let written = SettingsStore::save(settings, Platform::Other);
    assert_eq!(written.image_cache_capacity, 512);
    let found = SettingsStore::load(Stored::Found(written), Platform::Other).unwrap();
    assert_eq!(found.image_cache_capacity, 512);
    assert_eq!(CdnCacheStore::load(Stored::Missing, 7), Ok(7));
    assert_eq!(CdnCacheStore::load(Stored::Found(8), 7), Ok(8));
    assert_eq!(
        CdnCacheStore::load(Stored::Malformed, 7),
        Err(StoreError::Malformed)
    );
    assert_eq!(CdnCacheStore::message(StoreError::Unreadable), "无法读取 CDN 缓存");
}

#[test]
fn typed_limits_are_kept_in_range() {
    assert_eq!(entered_limit("25", 10, 100), 25);
    assert_eq!(entered_limit("250", 10, 100), 100);
    assert_eq!(entered_limit("0", 10, 100), 10);
    assert_eq!(entered_limit("many", 10, 100), 10);
    assert_eq!(entered_limit("", 10, 100), 10);
}

#[test]
fn volumes_order_as_their_numbers_do() {
    for value in [-3.5f32, -0.0, 0.0, 0.004, 0.5, 1.0, 1.5, f32::INFINITY, f32::NEG_INFINITY] {
        let expected = value.clamp(0., 1.);
        assert_eq!(volume(value).clamped().bits, expected.to_bits());
        assert_eq!(volume(value).is_positive(), value > 0.);
        assert_eq!(volume(value).is_finite(), value.is_finite());
    }
    assert!(!volume(f32::NAN).is_number());
}

#[test]
fn muting_twice_gives_the_volume_back() {
    let mut loudness = Loudness {
        volume: volume(0.3),
        last_nonzero: volume(0.9),
    };
    loudness.set_volume(volume(0.7));
    assert_eq!(loudness.toggle_mute(), volume(0.));
    assert_eq!(loudness.volume, volume(0.));
    assert_eq!(loudness.toggle_mute(), volume(0.7));
    assert_eq!(loudness.volume, volume(0.7));
}

#[test]
fn freshness_is_counted_in_whole_seconds() {
    assert!(is_fresh(100, 50, Duration::from_secs(1)));
    assert!(!is_fresh(100, 101, Duration::from_millis(1_999)));
    assert!(is_fresh(100, 100, Duration::from_millis(1_999)));
}

#[test]
fn typed_families_are_read_again_with_any_comma() {
    let typed = " Inter ,， Noto Sans，inter, LXGW WenKai ";
    let families = parse_font_families(typed);
    assert_eq!(families, ["Inter", "Noto Sans", "LXGW WenKai"]);
    for joiner in [",", "，", ", "] {
        assert_eq!(parse_font_families(&families.join(joiner)), families);
    }
}
