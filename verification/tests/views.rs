use lyrune::account::AccountState;
use lyrune::browser::{Browser, MainContent};
use lyrune::catalog::{Quality, SearchArtist, Track, UserPlaylist, UserPlaylistId, UserProfile};
use lyrune::fonts::Platform;
use lyrune::format::{format_duration, format_playback_time, playlist_title_is_long};
use lyrune::icons::{
    media_icon_svg, parse_icon_color, themed_lyrune_svg, LogoPalette, MediaIcon,
};
use lyrune::library::{
    album_link, liked_cover_svg, playlist_cover, playlist_subtitle, ArtistLine, Cell, ColumnKey,
    NumberCell, PlaylistCover, PlaylistListDelegate, TrackTableDelegate,
};
use lyrune::library_load::{
    apply_library, can_reuse, take_restore, LibraryRequest, LibraryShown, LibraryState,
    PlaylistCachePolicy,
};
use lyrune::loading::StatusMessage;
use lyrune::lyrics::parse::parse_lyrics;
use lyrune::lyrics::store::{MemoryLyrics, TrackLyrics};
use lyrune::lyrics::timing::Progress;
use lyrune::pages::HomeState;
use lyrune::playback::{AudioStatus, Playback};
use lyrune::queue::{PlaybackQueue, RepeatMode};
use lyrune::resources::{
    ArtistResource, PlaylistResource, SearchCategory, SearchPage, SearchResource,
    SearchVisibleCounts, SharedSearchPage, SharedSearchResults,
};
use lyrune::settings::{AppSettings, ColorTheme, LyricFrameRate, TrayIconStyle};
use lyrune::time::{Duration, Instant};
use lyrune::tray::{move_opacity_first, unpremultiply, TrayCommand};
use lyrune::views::artist::{artist_sections, SectionBody};
use lyrune::views::backdrop::{backdrop_sizes, BackdropState, LyricReveal};
use lyrune::views::header::{artist_header, playlist_head, playlist_header, PlaylistHead};
use lyrune::views::home::{home_view, HomeView};
use lyrune::views::layout::{initial_window_size, sidebar_width, Layout};
use lyrune::views::lyrics::{
    estimated_progress, inactive_window_frame_interval, line_end, lyrics_panel, FrameAction,
    LyricFrames, LyricsPanel,
};
use lyrune::views::player::{
    bar_buttons, bar_sizes, bar_track, current_duration, progress_fraction, progress_times,
    quality_options, set_playback_quality, slider_progress, Menus, QualityChoice,
};
use lyrune::views::search::{playlist_card_subtitle, search_view, song_row};
use lyrune::views::settings::{frame_rate_options, quality_rows, theme_rows, tray_options};
use lyrune::views::shell::{
    account_name, follow_lyrics, login_label, shell, sidebar_status, startup_status, StartupErrors,
};
use lyrune::volume::Volume;
use std::sync::Arc;

fn track(mid: &str) -> Track {
    Track {
        song_id: None,
        song_type: 0,
        mid: mid.to_owned(),
        media_mid: None,
        standard_size_bytes: None,
        high_size_bytes: None,
        lossless_size_bytes: None,
        hi_res_size_bytes: None,
        atmos_stereo_size_bytes: None,
        atmos_surround_size_bytes: None,
        master_size_bytes: None,
        title: mid.to_owned(),
        artists: "someone".to_owned(),
        artist_details: Vec::new(),
        album: String::new(),
        album_mid: String::new(),
        cover_url: None,
        duration_seconds: 180,
    }
}

fn card(id: UserPlaylistId) -> UserPlaylist {
    UserPlaylist {
        id,
        title: "list".to_owned(),
        cover_url: None,
        description: String::new(),
        owner: String::new(),
        owner_avatar_url: None,
        track_count: 12,
    }
}

fn wide() -> Layout {
    Layout::for_width(1400)
}

#[test]
fn playback_time_uses_compact_player_formatting() {
    assert_eq!(format_playback_time(Duration::from_secs(137)), "2:17");
    assert_eq!(format_playback_time(Duration::from_secs(3_661)), "1:01:01");
}

#[test]
fn playlist_title_length_accounts_for_wide_characters() {
    assert!(!playlist_title_is_long("123456789012345678901234"));
    assert!(playlist_title_is_long("1234567890123456789012345"));
    assert!(!playlist_title_is_long("一二三四五六七八九十一二"));
    assert!(playlist_title_is_long("一二三四五六七八九十一二三"));
}

#[test]
fn every_theme_generates_a_valid_logo() {
    for background in ["#fdf6e3", "#2d353b", "#1e1e2e"] {
        let palette = LogoPalette {
            background: background.to_owned(),
            foreground: "#5c6a72".to_owned(),
            trail_primary: "#8da101".to_owned(),
            trail_secondary: "#3a94c5".to_owned(),
            trail_tertiary: "#df69ba".to_owned(),
            detail: "#f85552".to_owned(),
        };
        let svg = themed_lyrune_svg(&palette);
        resvg::usvg::Tree::from_data(&svg, &resvg::usvg::Options::default())
            .expect("parse themed Lyrune logo");
        let text = String::from_utf8(svg).unwrap();
        assert!(text.contains(&format!("fill=\"{background}\"")));
        assert!(!text.contains('{'));
    }
}

#[test]
fn lengths_have_two_digits_for_minutes_and_seconds() {
    assert_eq!(format_duration(0), "00:00");
    assert_eq!(format_duration(185), "03:05");
    assert_eq!(format_duration(6_000), "100:00");
}

#[test]
fn icons_are_pictures_in_one_color() {
    assert_eq!(parse_icon_color("#ffffff"), Some(0xffff_ffff));
    assert_eq!(parse_icon_color("#01020304"), Some(0x0102_0304));
    assert_eq!(parse_icon_color("ffffff"), None);
    assert_eq!(parse_icon_color("#12345"), None);
    assert_eq!(parse_icon_color("#gggggg"), None);
    let svg = media_icon_svg(MediaIcon::Back, 0x0a0b_0c0d);
    assert_eq!(
        svg,
        "<svg xmlns=\"http://www.w3.org/2000/svg\" width=\"24\" height=\"24\" viewBox=\"0 0 24 24\" fill=\"none\" color=\"#0a0b0c0d\" stroke=\"#0a0b0c0d\" stroke-width=\"2\" stroke-linecap=\"round\" stroke-linejoin=\"round\"><path d=\"m15 18-6-6 6-6\"/></svg>"
    );
    for icon in [MediaIcon::Radar, MediaIcon::Library, MediaIcon::Close] {
        let svg = media_icon_svg(icon, 0xff);
        resvg::usvg::Tree::from_data(svg.as_bytes(), &resvg::usvg::Options::default())
            .expect("parse icon");
    }
}

#[test]
fn the_cover_of_liked_tracks_is_drawn() {
    let svg = liked_cover_svg("12.5", 1, 2, 3, 4);
    resvg::usvg::Tree::from_data(svg.as_bytes(), &resvg::usvg::Options::default())
        .expect("parse cover");
    assert!(svg.contains("rx=\"12.5\""));
    assert!(svg.contains("stroke=\"#00000004\""));
}

#[test]
fn tray_pixels_are_divided_and_turned() {
    let mut pixels = vec![64, 10, 128, 128, 1, 2, 3, 0, 9, 8, 7, 255, 200, 0, 0, 100, 5];
    unpremultiply(&mut pixels);
    assert_eq!(
        pixels,
        [128, 20, 255, 128, 1, 2, 3, 0, 9, 8, 7, 255, 255, 0, 0, 100, 5]
    );
    let mut pixels = vec![1, 2, 3, 4, 5, 6, 7, 8, 9];
    move_opacity_first(&mut pixels);
    assert_eq!(pixels, [4, 1, 2, 3, 8, 5, 6, 7, 9]);
    assert_ne!(TrayCommand::Show, TrayCommand::Quit);
}

#[test]
fn the_list_of_playlists_keeps_its_rows() {
    let mut list = PlaylistListDelegate::new();
    list.set_playlists(vec![card(UserPlaylistId::Favorite { diss_id: 1 }), card(UserPlaylistId::Liked)]);
    list.set_selected(1);
    list.update_liked_track_count(true);
    let (title, subtitle, selected) = list.item(1).unwrap();
    assert_eq!(title, "list");
    assert_eq!(subtitle, "已点赞的歌曲 · 13 首");
    assert!(selected);
    let mut owned = card(UserPlaylistId::Created { tid: 1, dir_id: 2 });
    owned.owner = "me".to_owned();
    assert_eq!(playlist_subtitle(&owned), "创建的歌单 · me");
    list.update_playlist(0, owned);
    list.update_playlist(9, card(UserPlaylistId::Liked));
    assert_eq!(list.playlist(0).unwrap().owner, "me");
    assert!(list.item(2).is_none());
    list.clear();
    assert!(list.playlist(0).is_none());
}

#[test]
fn covers_are_drawn_fetched_or_replaced() {
    assert!(matches!(playlist_cover(&card(UserPlaylistId::Liked)), PlaylistCover::Liked));
    let mut list = card(UserPlaylistId::Album { mid: "x".to_owned() });
    assert!(matches!(
        playlist_cover(&list),
        PlaylistCover::Placeholder(MediaIcon::Folder)
    ));
    list.cover_url = Some("url".to_owned());
    assert!(matches!(playlist_cover(&list), PlaylistCover::Picture(url) if url == "url"));
}

#[test]
fn cells_show_their_columns() {
    let mut table = TrackTableDelegate::new();
    let mut linked = track("B");
    linked.album = "Album".to_owned();
    linked.album_mid = "m".to_owned();
    linked.artist_details = vec![SearchArtist {
        mid: "a".to_owned(),
        name: "n".to_owned(),
        cover_url: None,
    }];
    table.reset(true);
    assert!(table.shows_loading() && !table.can_load_more());
    table.set_tracks(vec![Arc::new(track("A")), Arc::new(linked)], true, false);
    table.set_playback_state(Some(1), Some(0), true);
    assert_eq!(table.columns.len(), 4);
    assert!(matches!(table.cell(0, 0), Cell::Number(NumberCell::Loading)));
    assert!(matches!(
        table.cell(1, 0),
        Cell::Number(NumberCell::Current { pauses: true })
    ));
    assert!(matches!(
        table.cell(1, 1),
        Cell::Title { highlighted: true, artists: ArtistLine::Links(links), .. } if links.len() == 1
    ));
    assert!(matches!(
        table.cell(0, 1),
        Cell::Title { artists: ArtistLine::Plain(text), .. } if text == "someone"
    ));
    assert!(matches!(
        table.cell(0, 2),
        Cell::Album { text, link: None } if text == "—"
    ));
    assert!(matches!(
        table.cell(1, 2),
        Cell::Album { link: Some(album), .. } if album.title == "Album" && album.artist == "someone"
    ));
    assert!(matches!(
        table.cell(0, 3),
        Cell::Duration { text, can_unlike: true } if text == "03:00"
    ));
    assert!(matches!(table.cell(2, 0), Cell::Empty));
    assert!(table.set_compact(true));
    assert!(!table.set_compact(true));
    assert_eq!(table.columns[2].key, ColumnKey::Duration);
    assert_eq!(table.columns[2].name(), "时长");
    table.set_playback_state(None, None, false);
    assert!(matches!(table.cell(1, 0), Cell::Number(NumberCell::Number(2))));
    table.load_more(false);
    assert!(!table.loading);
    table.load_more(true);
    assert!(table.loading && table.has_more());
    table.clear();
    assert!(table.tracks().is_empty());
    assert!(album_link(&track("A")).is_none());
}

#[test]
fn sizes_follow_the_room() {
    assert_eq!(Layout::for_width(899), Layout { compact: true, narrow: true });
    assert_eq!(Layout::for_width(900), Layout { compact: true, narrow: false });
    assert_eq!(Layout::for_width(1120), Layout { compact: false, narrow: false });
    assert_eq!(sidebar_width(wide(), None).width, 272);
    assert_eq!(sidebar_width(wide(), Some(999)).width, 340);
    assert_eq!(sidebar_width(Layout::for_width(800), Some(1)).width, 196);
    assert_eq!(initial_window_size(None), (1080, 760));
    assert_eq!(initial_window_size(Some((1440, 10))), (1440, 600));
    assert_eq!(bar_sizes(Layout::for_width(800)).side, None);
    assert_eq!(backdrop_sizes(wide()).padding, 96);
}

fn queue() -> Option<PlaybackQueue> {
    Some(PlaybackQueue {
        playlist_id: UserPlaylistId::Liked,
        tracks: vec![Arc::new(track("A"))],
        modified: false,
        continuation: None,
    })
}

fn audio(playing: bool) -> Option<AudioStatus> {
    Some(AudioStatus {
        playing,
        empty: false,
        position: Duration::from_secs(7),
    })
}

#[test]
fn the_player_bar_shows_what_plays() {
    let mut playback = Playback::new(Quality::Standard);
    let loud = Volume { bits: 1f32.to_bits() };
    let idle = bar_buttons(&playback, &None, None, None, false, loud, &Vec::new());
    assert!(idle.play_disabled && idle.skip_disabled && idle.queue_disabled && !idle.muted);
    let bar = bar_track(&playback, &None);
    assert_eq!(bar.title, "尚未播放");
    assert!(matches!(bar.artists, ArtistLine::Plain(text) if text == "从播放列表中双击一首歌曲"));

    playback.current_track = Some(0);
    playback.playback_started = true;
    playback.repeat_mode = RepeatMode::One;
    let silent = Volume { bits: 0 };
    let qualities = vec![Quality::Standard];
    let busy = bar_buttons(&playback, &queue(), audio(true), Some(true), true, silent, &qualities);
    assert!(busy.has_track && busy.liked && busy.shows_pause && busy.seekable && busy.muted);
    assert_eq!(busy.play_tooltip(), "暂停");
    assert_eq!(busy.play_icon(), MediaIcon::Pause);
    assert_eq!(busy.like_tooltip(), "取消喜欢");
    assert_eq!(busy.like_icon(), MediaIcon::HeartFilled);
    assert_eq!(busy.repeat_icon(), MediaIcon::RepeatOne);
    assert_eq!(busy.mute_tooltip(), "取消静音");
    assert_eq!(busy.mute_icon(), MediaIcon::VolumeMuted);
    assert!(!busy.quality_disabled);
    assert_eq!(bar_track(&playback, &queue()).title, "A");
    let length = current_duration(&playback, &queue());
    assert_eq!(length, Some(Duration::from_secs(180)));
    assert_eq!(
        progress_times(Duration::from_secs(500), length),
        ("3:00".to_owned(), "3:00".to_owned())
    );
}

#[test]
fn a_quality_is_chosen_for_the_current_track() {
    let mut playback = Playback::new(Quality::Standard);
    let available = vec![Quality::Standard, Quality::High];
    let mut preferred = Quality::Standard;
    assert_eq!(
        set_playback_quality(&mut playback, &available, &mut preferred, Quality::Master, None),
        (QualityChoice::Unavailable, false)
    );
    assert_eq!(
        set_playback_quality(&mut playback, &available, &mut preferred, Quality::High, None),
        (QualityChoice::Kept, true)
    );
    playback.current_track = Some(3);
    assert_eq!(
        set_playback_quality(&mut playback, &available, &mut preferred, Quality::High, audio(true)),
        (
            QualityChoice::Reload {
                index: 3,
                resume_at: Duration::from_secs(7),
                autoplay: true,
            },
            false
        )
    );
    let mut menus = Menus { account_open: true };
    menus.toggle_quality(&mut playback);
    assert!(playback.quality_menu_open && !menus.account_open);
    menus.toggle_account(&mut playback);
    assert!(!playback.quality_menu_open && menus.account_open);
    assert!(menus.dismiss(&mut playback));
    assert!(!menus.dismiss(&mut playback));
}

#[test]
fn heads_say_whose_a_playlist_is() {
    let profile = Some(UserProfile {
        id: "1".to_owned(),
        nickname: "me".to_owned(),
        avatar_url: Some("face".to_owned()),
    });
    let own = playlist_header(&card(UserPlaylistId::Liked), &profile, true, wide());
    assert_eq!(own.owner, Some(("me".to_owned(), "face".to_owned())));
    assert_eq!(own.count, "· 12 首歌曲");
    assert_eq!(own.badge, "歌单");
    assert_eq!(own.sizes.title, 44);
    let other = playlist_header(
        &card(UserPlaylistId::Album { mid: "m".to_owned() }),
        &profile,
        false,
        Layout::for_width(1000),
    );
    assert_eq!(other.owner, None);
    assert_eq!(other.count, "12 首歌曲");
    assert_eq!(other.badge, "专辑");
    assert!(!other.can_play);
    let head = artist_header(None, wide());
    assert_eq!(head.count, "歌曲与专辑");
    let mut artist = ArtistResource::default();
    artist.track_count = 3;
    assert_eq!(artist_header(Some(&artist), wide()).count, "3 首歌曲");
}

#[test]
fn the_home_page_shows_what_it_has() {
    let mut home = HomeState::new();
    home.loading = true;
    assert!(matches!(home_view(&home, wide()), HomeView::Loading));
    home.loading = false;
    home.error = Some("e".to_owned());
    assert!(matches!(home_view(&home, wide()), HomeView::Failed(error) if error == "e"));
    home.error = None;
    home.loaded = true;
    assert!(matches!(home_view(&home, wide()), HomeView::Empty));
    home.playlists = vec![card(UserPlaylistId::Liked)];
    match home_view(&home, wide()) {
        HomeView::Content { cards, sizes, recommendations_disabled, .. } => {
            assert_eq!(cards[0].subtitle, "为你推荐");
            assert_eq!(sizes.card, 184);
            assert!(!recommendations_disabled);
        }
        _ => panic!("content"),
    }
}

fn page<T>(items: Vec<T>, has_more: bool) -> SharedSearchPage<T> {
    SharedSearchPage::from_page(SearchPage {
        items,
        has_more,
        next_offset: 0,
    })
}

#[test]
fn a_search_shows_its_state() {
    let mut search = SearchResource::default();
    let counts = SearchVisibleCounts::default();
    search.error = Some("e".to_owned());
    let view = search_view("q", SearchCategory::Songs, counts, &search);
    assert_eq!(view.heading, "搜索“q”");
    assert_eq!(view.failure.as_deref(), Some("e"));
    search.error = None;
    search.results = Some(SharedSearchResults {
        songs: page((0..25).map(|i| track(&format!("{i}"))).collect(), false),
        artists: page(Vec::new(), false),
        albums: page(Vec::new(), false),
        playlists: page(Vec::new(), false),
    });
    let view = search_view("q", SearchCategory::Songs, counts, &search);
    assert_eq!(view.visible, Some(20));
    assert!(view.has_more && !view.more_disabled);
    let view = search_view("q", SearchCategory::Artists, counts, &search);
    assert_eq!(view.nothing_found.as_deref(), Some("没有找到相关歌手"));
    assert!(!view.has_more);
    assert_eq!(SearchCategory::Albums.icon(), MediaIcon::Album);
    assert_eq!(playlist_card_subtitle(&String::new()), "QQ 音乐歌单");
    let row = song_row(&"A".to_owned(), &Some("A".to_owned()), &None, true);
    assert!(row.current && row.pauses && !row.loading);
}

#[test]
fn an_artist_page_has_two_sections() {
    let mut artist = ArtistResource::default();
    artist.songs_loading = true;
    artist.album_error = Some("x".to_owned());
    let (songs, albums) = artist_sections(&artist, 5, 5);
    assert!(matches!(songs.body, SectionBody::Loading));
    assert!(matches!(albums.body, SectionBody::Failed(text) if text == "x"));
    artist.songs = Some(page((0..7).map(|i| track(&format!("{i}"))).collect(), false));
    artist.songs_loading_more = true;
    artist.albums = Some(page(Vec::new(), false));
    artist.album_error = None;
    let (songs, albums) = artist_sections(&artist, 5, 5);
    assert!(matches!(songs.body, SectionBody::Items(5)));
    assert!(songs.has_more);
    assert_eq!(songs.more_label(), "正在加载…");
    assert!(matches!(albums.body, SectionBody::Empty));
    assert_eq!(albums.more_label(), "查看更多");
}

#[test]
fn a_new_cover_fades_in_over_the_old_one() {
    let mut backdrop = BackdropState::new();
    backdrop.show(&"one".to_owned());
    backdrop.show(&"one".to_owned());
    assert!(backdrop.crossfade_phase && backdrop.previous_url.is_none());
    backdrop.show(&"two".to_owned());
    assert_eq!(backdrop.previous_url.as_deref(), Some("one"));
    assert!(!backdrop.crossfade_phase);
    backdrop.set_expanded(true);
    backdrop.on_growth(true);
    assert!(backdrop.fully_expanded);
    backdrop.set_expanded(false);
    assert!(!backdrop.fully_expanded);
    let mid = "m".to_owned();
    let mut reveal = LyricReveal { pending_mid: None, frame_pending: false };
    reveal.on_start(&mid, true);
    assert_eq!(reveal.defer(&mid), (true, true));
    assert_eq!(reveal.defer(&mid), (true, false));
    reveal.on_frame(&mid);
    assert_eq!(reveal.defer(&mid), (false, false));
}

#[test]
fn the_lyrics_panel_shows_lines_or_says_why_not() {
    let mut state = TrackLyrics::new();
    let title = |state: &TrackLyrics| match lyrics_panel(state, Duration::zero(), 2) {
        LyricsPanel::Message { title, .. } => title,
        _ => "lines",
    };
    assert_eq!(title(&state), "歌词暂未加载");
    state.error = Some("e".to_owned());
    assert_eq!(title(&state), "歌词加载失败");
    state.loading = true;
    assert_eq!(title(&state), "正在加载歌词…");
    let text = "[00:01.00]a\n[00:02.00]b\n[00:03.00]c\n[00:04.00]d\n[00:05.00]e";
    state.cached = Some(MemoryLyrics {
        parsed: Arc::new(parse_lyrics(text, None, None)),
        fetched_at_secs: 0,
    });
    match lyrics_panel(&state, Duration::from_millis(4_500), 1) {
        LyricsPanel::Lines { anchor, start, end } => assert_eq!((anchor, start, end), (3, 2, 5)),
        _ => panic!("lines"),
    }
    let lyrics = &state.cached.as_ref().unwrap().parsed;
    assert_eq!(line_end(lyrics, 0, None), Duration::from_secs(2));
    assert_eq!(line_end(lyrics, 4, Some(Duration::from_secs(9))), Duration::from_secs(9));
    assert_eq!(line_end(lyrics, 4, None), Duration::from_secs(5));
    assert_eq!(
        estimated_progress(
            &lyrics.lines[0],
            Duration::from_secs(2),
            true,
            Duration::from_millis(1_500)
        ),
        Some(Progress::Part {
            elapsed: Duration::from_millis(500),
            total: Duration::from_secs(1),
        })
    );
    assert_eq!(
        estimated_progress(&lyrics.lines[0], Duration::from_secs(1), true, Duration::zero()),
        None
    );
    let empty = TrackLyrics {
        cached: Some(MemoryLyrics {
            parsed: Arc::new(parse_lyrics("", None, None)),
            fetched_at_secs: 0,
        }),
        pending: None,
        loading: false,
        error: None,
    };
    assert_eq!(title(&empty), "暂无歌词");
}

#[test]
fn frames_are_drawn_while_lyrics_move() {
    let display = LyricFrameRate::Display;
    let slow = LyricFrameRate::Fps30;
    assert_eq!(
        inactive_window_frame_interval(false, display, display),
        Some(Duration::from_millis(40))
    );
    assert_eq!(inactive_window_frame_interval(true, display, slow), None);
    let mut frames = LyricFrames { pending: false, next_highlight: None, next_scroll: None };
    assert!(frames.request());
    assert!(!frames.request());
    let now = Instant { nanos: 0 };
    assert_eq!(
        frames.on_frame(now, true, true, slow, display),
        FrameAction::Continue { draw: true }
    );
    assert_eq!(
        frames.on_frame(now, true, false, slow, display),
        FrameAction::Continue { draw: false }
    );
    assert_eq!(frames.on_frame(now, false, true, slow, display), FrameAction::Stop);
    assert_eq!(frames.next_highlight, None);
}

#[test]
fn the_window_frames_its_pages() {
    let browser = Browser::new(10);
    let frame = shell(&browser, wide());
    assert_eq!(frame.page, MainContent::Home);
    assert!(frame.home_selected && !frame.can_go_back && !frame.can_go_forward);
    assert_eq!(frame.search_width, 480);
    assert_eq!(login_label(AccountState::SigningIn), "正在生成二维码…");
    assert_eq!(account_name(&None), "QQ 音乐用户");
    assert_eq!(sidebar_status(&StatusMessage::info("i".to_owned())), None);
    assert_eq!(
        sidebar_status(&StatusMessage::error("e".to_owned())).as_deref(),
        Some("e")
    );
    let mut playback = Playback::new(Quality::Standard);
    playback.playback_started = true;
    assert!(!follow_lyrics(&mut playback, false, audio(true)));
    assert!(follow_lyrics(&mut playback, true, audio(true)));
    assert_eq!(playback.position, Duration::from_secs(7));
}

#[test]
fn the_first_line_tells_what_went_wrong() {
    let fine = StartupErrors { audio: None, audio_cache: None, cdn_cache: None, client: None };
    assert_eq!(
        startup_status(&fine),
        StatusMessage::info("正在读取已保存的登录状态…".to_owned())
    );
    let broken = StartupErrors {
        audio: Some("a".to_owned()),
        audio_cache: Some("b".to_owned()),
        cdn_cache: Some("c".to_owned()),
        client: Some("d".to_owned()),
    };
    let status = startup_status(&broken);
    assert!(status.is_error);
    assert_eq!(
        status.text,
        "音频设备初始化失败：a；仍可浏览 QQ 音乐歌单；音频缓存初始化失败：b；CDN 缓存读取失败：c；QQ 音乐客户端初始化失败：d"
    );
}

#[test]
fn settings_change_one_at_a_time() {
    let mut settings = AppSettings::defaults(Platform::Other);
    assert!(settings.set_color_theme(ColorTheme::EverforestDark));
    assert!(!settings.set_color_theme(ColorTheme::EverforestDark));
    assert!(settings.set_tray_icon_style(TrayIconStyle::Dark));
    assert!(settings.set_preferred_playback_quality(Quality::High));
    assert!(settings.set_lyric_highlight_frame_rate(LyricFrameRate::Fps90));
    assert!(settings.set_lyric_scroll_frame_rate(LyricFrameRate::Fps60));
    assert_eq!(settings.apply_audio_cache_limit("20"), ("20".to_owned(), true));
    assert_eq!(settings.apply_image_cache_capacity("9999"), ("512".to_owned(), true));
    assert_eq!(settings.apply_navigation_history_limit("x"), ("10".to_owned(), false));
    settings.apply_font_settings("Inter，Noto", " ", "Kai", Platform::Windows);
    assert_eq!(
        settings.font_inputs(),
        ("Inter, Noto".to_owned(), "Consolas".to_owned(), "Kai".to_owned())
    );
    assert!(tray_options(TrayIconStyle::Dark)[1].1);
    assert_eq!(
        frame_rate_options(LyricFrameRate::Fps120)
            .iter()
            .filter(|(_, selected)| *selected)
            .count(),
        1
    );
}

#[test]
fn the_library_is_loaded_or_shown_again() {
    let mut library = LibraryState { loading: false, generation: 0 };
    assert!(matches!(library.load(false, false, true, true), LibraryRequest::Nothing));
    assert!(matches!(library.load(true, false, true, true), LibraryRequest::ShowCached));
    assert!(matches!(library.load(true, true, true, false), LibraryRequest::Refused(_)));
    assert!(matches!(library.load(true, true, true, true), LibraryRequest::Ask(1, _)));
    assert!(!library.finish(0, None).0);
    let (taken, status) = library.finish(1, Some("e".to_owned()));
    assert!(taken);
    assert_eq!(status.unwrap().text, "加载 QQ 音乐资料失败：e");
    let lists = vec![card(UserPlaylistId::Liked)];
    assert!(matches!(
        apply_library(&None, 1, &lists, MainContent::Playlist),
        LibraryShown::Open(0)
    ));
    assert!(matches!(
        apply_library(&None, 1, &lists, MainContent::Home),
        LibraryShown::Keep
    ));
    assert!(matches!(
        apply_library(&None, 1, &Vec::new(), MainContent::Home),
        LibraryShown::Empty(_)
    ));
    assert_eq!(take_restore(None, 1), (None, false));
    let list = PlaylistResource::empty(card(UserPlaylistId::Liked));
    assert!(can_reuse(&list, false, PlaylistCachePolicy::AllowStale, 9_999));
    assert!(!can_reuse(&list, false, PlaylistCachePolicy::Fresh, 9_999));
    assert!(!can_reuse(&list, true, PlaylistCachePolicy::AllowStale, 0));
}

#[test]
fn the_slider_follows_the_position_unless_it_is_dragged() {
    let length = Duration::from_secs(200);
    assert_eq!(progress_fraction(Duration::zero(), length), Progress::Nothing);
    assert_eq!(progress_fraction(length, Duration::zero()), Progress::Nothing);
    assert_eq!(
        progress_fraction(Duration::from_secs(300), length),
        Progress::Everything
    );
    assert_eq!(
        progress_fraction(Duration::from_secs(50), length),
        Progress::Part {
            elapsed: Duration::from_secs(50),
            total: length,
        }
    );
    let mut playback = Playback::new(Quality::Standard);
    playback.position = Duration::from_secs(5);
    assert_eq!(slider_progress(&playback, &None), Some(Progress::Nothing));
    playback.seek_preview = Some(Duration::from_secs(1));
    assert_eq!(slider_progress(&playback, &None), None);
}

#[test]
fn the_quality_that_plays_is_marked() {
    assert_eq!(
        quality_options(&vec![Quality::High, Quality::Standard], Quality::Standard),
        [(Quality::High, false), (Quality::Standard, true)]
    );
}

#[test]
fn pictures_fade_only_where_they_can_be_seen() {
    let mut state = BackdropState::new();
    assert!(state.fade_duration().is_zero());
    state.set_expanded(true);
    assert_eq!(state.fade_duration(), Duration::from_millis(420));
}

#[test]
fn a_window_without_a_size_is_not_remembered() {
    let mut settings = AppSettings::defaults(Platform::Other);
    settings.remember_window_size(1200, 800);
    settings.remember_window_size(0, 900);
    let size = settings.window_size.unwrap();
    assert_eq!((size.width, size.height), (1200, 800));
}

#[test]
fn themes_stand_in_rows_of_two() {
    let themes = vec![
        ColorTheme::EverforestLight,
        ColorTheme::EverforestDark,
        ColorTheme::CatppuccinMocha,
    ];
    let rows = theme_rows(&themes, ColorTheme::EverforestDark);
    assert_eq!(
        rows[0],
        [
            (ColorTheme::EverforestLight, false),
            (ColorTheme::EverforestDark, true)
        ]
    );
    assert_eq!(rows[1], [(ColorTheme::CatppuccinMocha, false)]);
    assert_eq!(rows.len(), 2);
    assert!(theme_rows(&Vec::new(), ColorTheme::EverforestDark).is_empty());
}

#[test]
fn the_cover_of_the_bar_points_where_it_leads() {
    let mut state = BackdropState::new();
    assert_eq!(state.toggle_icon(), MediaIcon::ChevronUp);
    state.set_expanded(true);
    assert_eq!(state.toggle_icon(), MediaIcon::ChevronDown);
}

#[test]
fn a_page_without_a_playlist_says_so() {
    match playlist_head(&None, &None, false, wide()) {
        PlaylistHead::Hint(text) => assert_eq!(text, "从左侧选择一个歌单"),
        other => panic!("{other:?}"),
    }
    match playlist_head(&Some(card(UserPlaylistId::Liked)), &None, true, wide()) {
        PlaylistHead::Playlist(header) => assert!(header.can_play),
        other => panic!("{other:?}"),
    }
}

#[test]
fn qualities_stand_in_rows_of_two() {
    let all = vec![Quality::Standard, Quality::High, Quality::Lossless];
    let rows = quality_rows(&all, Quality::Lossless);
    assert_eq!(
        rows,
        [
            vec![(Quality::Standard, false), (Quality::High, false)],
            vec![(Quality::Lossless, true)]
        ]
    );
}
