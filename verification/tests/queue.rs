use lyrune::account::{ends_login, Account, AccountAction, AccountState, LoginEvent, RestoreResult};
use lyrune::browser::{playlist_page, search_page, Browser, MainContent};
use lyrune::catalog::{
    Quality, RecommendationKind, Track, UserPlaylist, UserPlaylistId, UserProfile,
};
use lyrune::likes::{find_in_list, LikeRequest, LikeState, TrackLikes};
use lyrune::listening::{ListChange, Listening, PageNeeds};
use lyrune::directory::LibraryCache;
use lyrune::fonts::Platform;
use lyrune::library::{PlaylistListDelegate, TrackTableDelegate};
use lyrune::library_load::{LibraryShown, LibraryState};
use lyrune::loading::{
    add_recommendations, kept_qualities, maybe_load_queue_recommendations, next_continuation,
    start_playback, Facilities, PlaybackLocation, QualitySearch, RecommendationOutcome, StartDecision, StartRequest,
    StatusMessage,
};
use lyrune::mpris::{
    mpris_snapshot, mpris_track_id, MprisCommand, MprisLoopStatus, MprisPlaybackStatus,
};
use lyrune::navigation::{NavigationPage, PlaylistScrollPosition, ScrollTarget};
use lyrune::page_cache::{shared_page, LoadedPage, PageKey, PageResourceCache, SharedPage};
use lyrune::pages::{
    finish_recommendation, opened_status, HomeState, PageRequest, PlaylistPageRequest,
    RecommendationStart,
};
use lyrune::playback::{random_track_index, AudioStatus, Playback, PlaybackAction};
use lyrune::queue::{
    canonical_queue_track_index, extend_queue, insert_external_track_after_current,
    insert_track_after_current, PlaybackQueue, RepeatMode,
};
use lyrune::remote::{handle_mpris_command, RemoteAction};
use lyrune::resources::{
    update_liked_playlist_resource, ArtistResource, PlaylistResource, SearchCategory,
    SearchMoreResults, SearchPage, SearchResource, SearchVisibleCounts, SharedSearchPage,
    SharedSearchResults,
};
use lyrune::session::{
    complete_playback_queue, enqueue_next, persist_current_playback, persist_is_due,
    remember_view,
    replace_playback_queue, restore_playback_queue, select_search_track, select_track,
    sync_table_playback_state, viewed_playlist, Selection,
};
use lyrune::settings::{AppSettings, PersistedPlayback, PersistedQueueContinuation};
use lyrune::time::{Duration, Instant};
use lyrune::views::player::Menus;
use lyrune::volume::{Loudness, Volume};
use std::sync::{Arc, Mutex, Weak};

fn track(mid: &str) -> Track {
    Track {
        song_id: None,
        song_type: 0,
        mid: mid.to_owned(),
        media_mid: None,
        standard_size_bytes: None,
        high_size_bytes: None,
        lossless_size_bytes: None,
        hi_res_size_bytes: None,
        atmos_stereo_size_bytes: None,
        atmos_surround_size_bytes: None,
        master_size_bytes: None,
        title: mid.to_owned(),
        artists: String::new(),
        artist_details: Vec::new(),
        album: String::new(),
        album_mid: String::new(),
        cover_url: None,
        duration_seconds: 180,
    }
}

fn mids(tracks: &[Arc<Track>]) -> Vec<&str> {
    tracks.iter().map(|track| track.mid.as_str()).collect()
}

fn queue_of(names: &[&str]) -> PlaybackQueue {
    PlaybackQueue {
        playlist_id: UserPlaylistId::Liked,
        tracks: names.iter().map(|mid| Arc::new(track(mid))).collect(),
        modified: false,
        continuation: None,
    }
}

fn card(id: UserPlaylistId) -> UserPlaylist {
    UserPlaylist {
        id,
        title: "list".to_owned(),
        cover_url: None,
        description: String::new(),
        owner: String::new(),
        owner_avatar_url: None,
        track_count: 2,
    }
}

fn audio(playing: bool, position_ms: u64) -> Option<AudioStatus> {
    Some(AudioStatus {
        playing,
        empty: false,
        position: Duration::from_millis(position_ms),
    })
}

fn playing_at(index: usize) -> Playback {
    let mut playback = Playback::new(Quality::Standard);
    playback.current_track = Some(index);
    playback.playback_started = true;
    playback
}

fn start(index: usize) -> PlaybackAction {
    PlaybackAction::Start {
        index,
        resume_at: Duration::zero(),
        quality: None,
        autoplay: true,
    }
}

#[test]
fn search_track_is_inserted_after_the_current_track() {
    let mut tracks = vec![Arc::new(track("A")), Arc::new(track("B"))];

    let inserted = insert_track_after_current(&mut tracks, Some(0), Arc::new(track("C")));

    assert_eq!(inserted, 1);
    assert_eq!(mids(&tracks), ["A", "C", "B"]);
}

#[test]
fn existing_search_track_is_moved_without_duplication() {
    let mut tracks = vec![
        Arc::new(track("C")),
        Arc::new(track("A")),
        Arc::new(track("B")),
    ];

    let inserted = insert_track_after_current(&mut tracks, Some(1), Arc::new(track("C")));

    assert_eq!(inserted, 1);
    assert_eq!(mids(&tracks), ["A", "C", "B"]);
}

#[test]
fn search_insertion_prevents_reusing_the_source_playlist_queue() {
    let playlist_id = UserPlaylistId::Liked;
    let mut queue = PlaybackQueue {
        playlist_id: playlist_id.clone(),
        tracks: vec![Arc::new(track("A")), Arc::new(track("B"))],
        modified: false,
        continuation: None,
    };

    let inserted =
        insert_external_track_after_current(&mut queue, Some(0), Arc::new(track("search")));

    assert_eq!(inserted, 1);
    assert_eq!(mids(&queue.tracks), ["A", "search", "B"]);
    assert!(queue.modified);
    assert_eq!(canonical_queue_track_index(&queue, &playlist_id, "B"), None);
}

#[test]
fn the_current_track_stays_where_it_is() {
    let mut tracks = queue_of(&["A", "B"]).tracks;
    assert_eq!(
        insert_track_after_current(&mut tracks, Some(1), Arc::new(track("B"))),
        1
    );
    assert_eq!(mids(&tracks), ["A", "B"]);
    assert_eq!(
        insert_track_after_current(&mut tracks, Some(9), Arc::new(track("A"))),
        1
    );
    assert_eq!(mids(&tracks), ["B", "A"]);
}

#[test]
fn extending_a_queue_adds_only_new_tracks() {
    let mut tracks = queue_of(&["A", "B"]).tracks;
    let more = queue_of(&["B", "C", "C", "D"]).tracks;
    assert_eq!(extend_queue(&mut tracks, &more), Some(2));
    assert_eq!(mids(&tracks), ["A", "B", "C", "D"]);
    assert_eq!(extend_queue(&mut tracks, &more), None);
}

#[test]
fn repeat_modes_follow_one_another() {
    assert_eq!(RepeatMode::Off.next(), RepeatMode::All);
    assert_eq!(RepeatMode::One.next(), RepeatMode::Off);
    assert_eq!(RepeatMode::All.label(), "列表循环");
}

#[test]
fn a_shuffled_step_never_stays() {
    for current in 0..5 {
        let mut seen = Vec::new();
        for seed in 0..4 {
            let index = random_track_index(seed, current, 5);
            assert_ne!(index, current);
            seen.push(index);
        }
        seen.sort();
        seen.dedup();
        assert_eq!(seen.len(), 4);
    }
}

#[test]
fn playing_on_follows_mode_and_queue() {
    let mut playback = playing_at(1);
    assert_eq!(playback.play_next(false, 3, None, 0, None), start(2));
    playback.current_track = Some(2);
    playback.repeat_mode = RepeatMode::All;
    assert_eq!(playback.play_next(false, 3, None, 0, None), start(0));
    playback.repeat_mode = RepeatMode::One;
    assert_eq!(playback.play_next(true, 3, None, 0, None), start(2));
    let length = Some(Duration::from_secs(180));
    assert_eq!(
        playback.play_next(false, 3, None, 0, length),
        PlaybackAction::EndQueue
    );
    assert!(!playback.playback_started);
    assert_eq!(playback.position, Duration::from_secs(180));
    let more = Some(PersistedQueueContinuation::Guess);
    assert_eq!(
        playback.play_next(false, 3, more, 0, length),
        PlaybackAction::AwaitRecommendations
    );
    assert!(playback.queue_waiting_for_recommendation);
    playback.shuffle = true;
    assert_eq!(playback.play_next(false, 3, None, 1, None), start(1));
}

#[test]
fn going_back_restarts_or_steps() {
    let mut playback = playing_at(1);
    playback.position = Duration::from_secs(3);
    assert_eq!(
        playback.play_previous(2, Some(Duration::from_secs(9)), audio(true, 0)),
        PlaybackAction::Start {
            index: 1,
            resume_at: Duration::zero(),
            quality: Some(Quality::Standard),
            autoplay: true,
        }
    );
    playback.position = Duration::from_millis(2_999);
    assert_eq!(playback.play_previous(2, None, None), start(0));
    playback.current_track = Some(0);
    assert_eq!(playback.play_previous(2, None, None), PlaybackAction::Nothing);
    playback.repeat_mode = RepeatMode::All;
    assert_eq!(playback.play_previous(2, None, None), start(1));
}

#[test]
fn play_and_pause_do_what_they_say() {
    let mut playback = playing_at(0);
    assert_eq!(playback.toggle_playback(audio(true, 0), true), PlaybackAction::Toggle);
    assert_eq!(playback.play(audio(true, 0), true), PlaybackAction::Nothing);
    assert_eq!(playback.play(audio(false, 0), true), PlaybackAction::Toggle);
    assert_eq!(playback.pause_playback(audio(false, 0), true), PlaybackAction::Nothing);
    assert_eq!(playback.pause_playback(audio(true, 0), true), PlaybackAction::Toggle);
    playback.playback_started = false;
    assert_eq!(playback.toggle_playback(audio(false, 0), true), start(0));
    assert_eq!(playback.toggle_playback(None, true), PlaybackAction::Nothing);
    playback.loading_track = Some(0);
    assert_eq!(playback.toggle_playback(audio(true, 0), true), PlaybackAction::Nothing);
    let idle = Playback::new(Quality::High);
    assert_eq!(idle.toggle_playback(None, true), PlaybackAction::SelectFirst);
    assert_eq!(idle.toggle_playback(None, false), PlaybackAction::Nothing);
}

#[test]
fn a_moment_of_playback_moves_the_position_and_ends_the_track() {
    let mut playback = playing_at(0);
    assert!(!playback.tick(audio(true, 1_500)));
    assert_eq!(playback.position, Duration::from_millis(1_500));
    assert!(playback.tick(Some(AudioStatus {
        playing: false,
        empty: true,
        position: Duration::from_secs(9),
    })));
    assert!(!playback.playback_started);
    assert!(playback.stop_playback());
    assert_eq!(playback.position, Duration::zero());
    assert_eq!(playback.play_generation, 1);
}

fn facilities() -> Facilities {
    Facilities {
        signed_in: true,
        audio_cache: true,
        audio: true,
        client: true,
    }
}

fn request(index: usize) -> StartRequest {
    StartRequest {
        index,
        resume_at: Duration::from_millis(5),
        quality: None,
        autoplay: true,
    }
}

#[test]
fn a_start_is_refused_ignored_or_loads() {
    let queue = Some(queue_of(&["A", "B"]));
    let mut playback = Playback::new(Quality::Standard);
    let mut available = vec![Quality::High];
    let refusals = [
        (Facilities { signed_in: false, ..facilities() }, "请先登录 QQ 音乐"),
        (Facilities { audio_cache: false, ..facilities() }, "音频缓存不可用，无法创建播放流"),
        (Facilities { audio: false, ..facilities() }, "没有可用的音频输出设备"),
        (Facilities { client: false, ..facilities() }, "QQ 音乐客户端不可用"),
    ];
    for (facilities, text) in refusals {
        match start_playback(
            &mut playback,
            &mut available,
            &queue,
            &None,
            facilities,
            request(0),
            Quality::High,
        ) {
            StartDecision::Refused(status) => assert_eq!(status, StatusMessage::error(text.to_owned())),
            _ => panic!("refused"),
        }
    }
    assert!(matches!(
        start_playback(
            &mut playback,
            &mut available,
            &queue,
            &None,
            facilities(),
            request(7),
            Quality::High
        ),
        StartDecision::Ignored
    ));
    let location = Some(PlaybackLocation {
        track_mid: "B".to_owned(),
        quality: Quality::High,
        urls: Vec::new(),
    });
    match start_playback(
        &mut playback,
        &mut available,
        &queue,
        &location,
        facilities(),
        request(0),
        Quality::High,
    ) {
        StartDecision::Load(plan) => {
            assert_eq!(plan.track.mid, "A");
            assert_eq!(plan.quality, Quality::High);
            assert!(!plan.same_track);
            assert!(!plan.reuse_location);
            assert!(plan.seeked);
            assert_eq!(plan.status.text, "正在检测“A”的音质…");
        }
        _ => panic!("loads"),
    }
    assert!(available.is_empty());
    assert!(playback.resolving_qualities);
    assert_eq!(playback.loading_track, Some(0));
    match start_playback(
        &mut playback,
        &mut available,
        &queue,
        &location,
        facilities(),
        request(1),
        Quality::High,
    ) {
        StartDecision::Load(plan) => {
            assert!(plan.same_track && plan.reuse_location && !plan.seeked);
            assert_eq!(plan.status.text, "正在缓冲“B”…");
        }
        _ => panic!("loads"),
    }
    let generation = playback.play_generation;
    assert!(playback
        .on_options(generation.wrapping_sub(1), &mut available, vec![Quality::High], "B")
        .is_none());
    let status = playback
        .on_options(generation, &mut available, Vec::new(), "B")
        .unwrap();
    assert_eq!(status.text, "正在获取“B”的可播放音质…");
    playback.on_resolving(generation);
    assert!(playback.resolving_qualities);
    assert!(!playback.on_finished(generation.wrapping_sub(1)));
    assert!(playback.on_finished(generation));
    assert_eq!(playback.loading_track, None);
    let status = playback.on_replaced(Err("no".to_owned()), true, "B");
    assert_eq!(status, StatusMessage::error("播放失败：no".to_owned()));
    let status = playback.on_replaced(Ok(()), false, "B");
    assert_eq!(status, StatusMessage::info("已暂停“B”".to_owned()));
    assert!(playback.playback_started);
}

#[test]
fn qualities_are_tried_in_order_as_far_as_offered() {
    let offered = vec![Quality::High, Quality::Standard];
    let mut search = QualitySearch::new(
        vec![Quality::Master, Quality::High, Quality::Standard],
        offered.clone(),
    );
    assert_eq!(search.next_candidate(&offered), Some(Quality::High));
    assert_eq!(search.failure(), "QQ 音乐没有返回当前账号可播放的音质");
    search.failed(Quality::High, "A", "HQ", "gone");
    assert_eq!(search.available, [Quality::Standard]);
    assert_eq!(search.next_candidate(&offered), Some(Quality::Standard));
    assert_eq!(search.next_candidate(&offered), None);
    assert_eq!(search.failure(), "“A”的HQ音源不可用: gone");
    assert_eq!(kept_qualities(&offered, Quality::Master), offered);
    assert_eq!(kept_qualities(&Vec::new(), Quality::Master), [Quality::Master]);
}

#[test]
fn a_track_that_fails_to_load_is_reported_once() {
    let mut playback = playing_at(0);
    playback.loading_track = Some(0);
    playback.play_generation = 7;
    assert_eq!(playback.on_failed(6, "e"), None);
    assert_eq!(playback.loading_track, Some(0));
    assert_eq!(
        playback.on_failed(7, "e"),
        Some(StatusMessage::error("获取歌曲失败：e".to_owned()))
    );
    assert_eq!(playback.loading_track, None);
}

#[test]
fn actions_say_what_was_done() {
    assert_eq!(PlaybackAction::Toggle.status_text(true), Some("继续播放"));
    assert_eq!(PlaybackAction::Toggle.status_text(false), Some("已暂停"));
    assert_eq!(
        PlaybackAction::AwaitRecommendations.status_text(false),
        Some("正在获取下一首推荐…")
    );
    assert_eq!(
        PlaybackAction::EndQueue.status_text(false),
        Some("当前播放队列已结束")
    );
    assert_eq!(PlaybackAction::Nothing.status_text(true), None);
}

#[test]
fn the_position_is_read_while_a_track_plays() {
    let mut playback = playing_at(0);
    playback.playback_started = true;
    playback.loading_track = None;
    let audio = AudioStatus {
        playing: true,
        empty: false,
        position: Duration::zero(),
    };
    assert_eq!(
        playback.tick_interval(Some(audio)).map(|wait| wait.as_millis()),
        Some(250)
    );
    assert_eq!(playback.tick_interval(None), None);
    playback.loading_track = Some(0);
    assert_eq!(playback.tick_interval(Some(audio)), None);
}

#[test]
fn recommendations_are_asked_for_near_the_end() {
    let mut queue = queue_of(&["A", "B", "C", "D"]);
    queue.continuation = Some(PersistedQueueContinuation::Guess);
    let mut queue = Some(queue);
    let mut playback = playing_at(0);
    let ask = |playback: &mut Playback, force, client| {
        maybe_load_queue_recommendations(playback, &queue, force, true, client)
    };
    assert_eq!(ask(&mut playback, false, true), None);
    assert_eq!(ask(&mut playback, true, false), None);
    assert!(ask(&mut playback, true, true).is_some());
    assert!(playback.queue_recommendation_loading);
    assert_eq!(ask(&mut playback, true, true), None);
    playback.queue_recommendation_loading = false;
    playback.current_track = Some(1);
    assert!(ask(&mut playback, false, true).is_some());

    assert!(matches!(
        add_recommendations(&mut playback, &mut queue, 9, Err("late".to_owned())),
        RecommendationOutcome::Late
    ));
    playback.queue_waiting_for_recommendation = true;
    let fresh = queue_of(&["D", "E"]).tracks;
    assert!(matches!(
        add_recommendations(&mut playback, &mut queue, 0, Ok((fresh, None))),
        RecommendationOutcome::Start(4)
    ));
    assert_eq!(queue.as_ref().unwrap().continuation, None);
    playback.queue_waiting_for_recommendation = true;
    match add_recommendations(&mut playback, &mut queue, 0, Ok((Vec::new(), None))) {
        RecommendationOutcome::NothingNew(status) => {
            assert_eq!(status.text, "当前推荐暂时没有更多歌曲");
        }
        other => panic!("{other:?}"),
    }
    match add_recommendations(&mut playback, &mut queue, 0, Err("e".to_owned())) {
        RecommendationOutcome::Failed(status) => {
            assert_eq!(status, StatusMessage::error("继续加载推荐歌曲失败：e".to_owned()));
        }
        other => panic!("{other:?}"),
    }
}

#[test]
fn recommendations_go_on_as_the_answers_say() {
    let radar = PersistedQueueContinuation::Radar {
        next_page: 2,
        has_more: true,
    };
    assert_eq!(
        next_continuation(radar, 3, false, 0),
        Some(PersistedQueueContinuation::Radar {
            next_page: 3,
            has_more: false,
        })
    );
    let guess = PersistedQueueContinuation::Guess;
    assert_eq!(next_continuation(guess, 0, false, 5), Some(guess));
    assert_eq!(next_continuation(guess, 0, true, 0), None);
}

#[test]
fn personal_recommendations_become_the_queue() {
    let mut home = HomeState::new();
    let mut playback = Playback::new(Quality::Standard);
    let mut queue = None;
    let mut pending = Some(persisted(&["Z"]));
    let kind = RecommendationKind::Radar;
    assert_eq!(
        home.start_recommendation(kind, false, true).unwrap().text,
        "请先登录 QQ 音乐"
    );
    assert!(home.start_recommendation(kind, true, true).is_none());
    let more = PersistedQueueContinuation::Radar {
        next_page: 2,
        has_more: true,
    };
    assert!(matches!(
        finish_recommendation(
            &mut home,
            &mut playback,
            &mut queue,
            &mut pending,
            RecommendationKind::Guess,
            Ok((vec![track("A")], more))
        ),
        RecommendationStart::Late
    ));
    assert!(matches!(
        finish_recommendation(
            &mut home,
            &mut playback,
            &mut queue,
            &mut pending,
            kind,
            Ok((Vec::new(), more))
        ),
        RecommendationStart::Refused(_)
    ));
    assert!(pending.is_some());
    home.recommendation_loading = Some(kind);
    assert!(matches!(
        finish_recommendation(
            &mut home,
            &mut playback,
            &mut queue,
            &mut pending,
            kind,
            Ok((vec![track("A")], more))
        ),
        RecommendationStart::Play
    ));
    assert_eq!(pending, None);
    let queue = queue.unwrap();
    assert_eq!(queue.playlist_id, UserPlaylistId::Recommendation { kind });
    assert_eq!(queue.continuation, Some(more));
    assert_eq!(playback.queue_generation, 1);
}

#[test]
fn the_home_page_loads_once_at_a_time() {
    let mut home = HomeState::new();
    assert_eq!(home.load(true, false), None);
    assert_eq!(home.error.as_deref(), Some("QQ 音乐客户端不可用"));
    assert_eq!(home.load(true, true), Some(1));
    assert_eq!(home.load(true, true), None);
    assert!(!home.finish(7, Ok(Vec::new())));
    assert!(home.finish(1, Err("offline".to_owned())));
    assert_eq!(home.error.as_deref(), Some("加载主页推荐失败：offline"));
    assert_eq!(home.load(true, true), Some(2));
    assert!(home.finish(2, Ok(vec![card(UserPlaylistId::Liked)])));
    assert!(home.loaded && home.error.is_none());
}

fn page<T>(items: Vec<T>, has_more: bool, next_offset: u64) -> SearchPage<T> {
    SearchPage {
        items,
        has_more,
        next_offset,
    }
}

#[test]
fn a_search_loads_and_grows() {
    let mut search = SearchResource::default();
    assert_eq!(search.start_search(false, true), PageRequest::Show);
    assert_eq!(search.error.as_deref(), Some("请先登录 QQ 音乐"));
    assert_eq!(search.start_search(true, true), PageRequest::Ask(0));
    assert_eq!(search.start_search(true, true), PageRequest::Show);
    search.finish_search(Err("offline".to_owned()));
    assert_eq!(search.error.as_deref(), Some("搜索失败：offline"));
    let songs: Vec<Track> = (0..20).map(|i| track(&format!("{i}"))).collect();
    search.finish_search(Ok(SharedSearchResults {
        songs: SharedSearchPage::from_page(page(songs, true, 20)),
        artists: SharedSearchPage::from_page(page(Vec::new(), false, 0)),
        albums: SharedSearchPage::from_page(page(Vec::new(), false, 0)),
        playlists: SharedSearchPage::from_page(page(Vec::new(), false, 0)),
    }));
    let mut counts = SearchVisibleCounts::default();
    let songs = SearchCategory::Songs;
    assert_eq!(
        search.load_more(&mut counts, songs, false, true),
        PageRequest::Nothing
    );
    assert_eq!(
        search.load_more(&mut counts, songs, true, false),
        PageRequest::Show
    );
    assert_eq!(search.load_more(&mut counts, songs, true, true), PageRequest::Ask(20));
    assert_eq!(counts.get(songs), 40);
    assert_eq!(search.load_more(&mut counts, songs, true, true), PageRequest::Nothing);
    assert_eq!(
        search.load_more(&mut counts, SearchCategory::Artists, true, true),
        PageRequest::Show
    );
    search.finish_more(songs, Ok(SearchMoreResults::Songs(page(vec![track("last")], false, 21))));
    let results = search.results.as_ref().unwrap();
    assert_eq!(results.songs.items.len(), 21);
    assert_eq!(results.songs.items[20].mid, "last");
    assert!(!results.songs.has_more);
    search.finish_more(songs, Err("x".to_owned()));
    assert_eq!(search.error.as_deref(), Some("继续加载搜索结果失败：x"));
}

#[test]
fn an_artist_loads_songs_and_albums_apart() {
    let mut artist = ArtistResource::default();
    assert_eq!(artist.missing(), (true, true));
    let mut visible = 5;
    assert_eq!(artist.load_songs(&mut visible, false, true, true), PageRequest::Ask(0));
    assert_eq!(artist.load_songs(&mut visible, false, true, true), PageRequest::Nothing);
    artist.finish_songs(0, Ok((page((0..5).map(|i| track(&format!("{i}"))).collect(), true, 5), 9)));
    assert_eq!(artist.track_count, 9);
    assert_eq!(artist.load_songs(&mut visible, true, true, true), PageRequest::Ask(5));
    assert_eq!(visible, 10);
    artist.finish_songs(5, Ok((page(vec![track("x")], false, 6), 9)));
    assert_eq!(artist.songs.as_ref().unwrap().items.len(), 6);
    assert_eq!(artist.load_songs(&mut visible, true, true, true), PageRequest::Show);
    artist.finish_songs(6, Err("y".to_owned()));
    assert_eq!(artist.song_error.as_deref(), Some("加载歌手歌曲失败：y"));
    assert_eq!(artist.load_albums(&mut visible, true, true, true), PageRequest::Nothing);
    assert_eq!(artist.load_albums(&mut visible, false, true, true), PageRequest::Ask(0));
    artist.finish_albums(0, Err("z".to_owned()));
    assert_eq!(artist.album_error.as_deref(), Some("加载歌手专辑失败：z"));
    visible = 5;
    assert_eq!(
        artist.load_songs(&mut visible, true, false, true),
        PageRequest::Nothing
    );
    assert_eq!(artist.song_error.as_deref(), Some("加载歌手歌曲失败：y"));
    assert_eq!(
        artist.load_songs(&mut visible, true, true, false),
        PageRequest::Show
    );
    assert_eq!(artist.song_error.as_deref(), Some("QQ 音乐客户端不可用"));
    assert_eq!(
        artist.load_albums(&mut visible, true, true, false),
        PageRequest::Show
    );
    assert_eq!(artist.album_error.as_deref(), Some("QQ 音乐客户端不可用"));
    assert_eq!(visible, 5);
}

#[test]
fn a_playlist_loads_page_by_page() {
    let mut list = PlaylistResource::empty(card(UserPlaylistId::Liked));
    let mut force = true;
    let start = |list: &mut PlaylistResource, force: &mut bool| {
        match list.start_page(force, true, true) {
            PlaylistPageRequest::Ask { offset, force } => Some((offset, force)),
            _ => None,
        }
    };
    assert!(matches!(
        list.start_page(&mut force, false, true),
        PlaylistPageRequest::Nothing
    ));
    match list.start_page(&mut force, true, false) {
        PlaylistPageRequest::Refused(status) => {
            assert_eq!(status, StatusMessage::error("QQ 音乐客户端不可用".to_owned()));
        }
        other => panic!("{other:?}"),
    }
    assert!(force);
    assert_eq!(start(&mut list, &mut force), Some((0, true)));
    assert!(!force);
    assert_eq!(start(&mut list, &mut force), None);
    let error = list.finish_page(Err("q".to_owned()), 0, 5);
    assert_eq!(error.as_deref(), Some("加载歌单失败：q"));
    assert_eq!(start(&mut list, &mut force), Some((0, false)));
    let first = (card(UserPlaylistId::Liked), vec![track("A")], true, 1);
    assert_eq!(list.finish_page(Ok(first), 0, 5), None);
    assert!(!list.loading);
    assert_eq!(mids(&list.tracks), ["A"]);
    force = true;
    assert_eq!(start(&mut list, &mut force), Some((1, false)));
    assert!(!force);
    assert_eq!(opened_status("L", false, true).text, "正在加载歌单“L”…");
    assert_eq!(opened_status("L", true, true).text, "歌单“L”中暂时没有歌曲");
    assert_eq!(opened_status("L", true, false).text, "已打开歌单“L”");
    assert!(list.is_fresh(1_804));
    assert!(!list.is_fresh(1_805));
    let search = PlaylistResource::empty(card(UserPlaylistId::Search { query: "q".to_owned() }));
    assert!(search.is_fresh(1_000_000));
}

#[test]
fn liking_and_unliking_a_track_restores_the_list() {
    let mut list = PlaylistResource::empty(card(UserPlaylistId::Liked));
    let new = Arc::new(track("N"));
    assert!(update_liked_playlist_resource(&mut list, &new, true).is_none());
    list.apply_page(card(UserPlaylistId::Liked), queue_of(&["A", "B"]).tracks, true, 2, 0, 9);
    let (shown, tracks, _) = update_liked_playlist_resource(&mut list, &new, true).unwrap();
    assert_eq!(mids(&tracks), ["N", "A", "B"]);
    assert_eq!(shown.track_count, 3);
    assert_eq!(list.next_offset, 3);
    assert!(update_liked_playlist_resource(&mut list, &new, true).is_none());
    let (shown, tracks, has_more) = update_liked_playlist_resource(&mut list, &new, false).unwrap();
    assert_eq!(mids(&tracks), ["A", "B"]);
    assert_eq!(shown.track_count, 2);
    assert!(has_more);
}

#[test]
fn a_failed_like_is_taken_back() {
    let mut numbered = track("A");
    numbered.song_id = Some(7);
    let mut state = LikeState::new();
    assert!(state.ensure_track_like_state(true, true, None));
    assert!(!state.ensure_track_like_state(true, true, None));
    assert!(state.on_state(true, true, Ok(false)).is_none());
    assert!(matches!(
        state.toggle(&numbered, true, true, None),
        LikeRequest::AskChange { liked: true, previous: Some(false) }
    ));
    assert_eq!(state.liked, Some(true));
    assert!(matches!(state.toggle(&numbered, true, true, None), LikeRequest::Nothing));
    let (changed, status) = state.on_changed(true, true, Some(false), "A", Err("no".to_owned()));
    assert!(!changed);
    assert_eq!(status.unwrap().text, "喜欢歌曲失败：no");
    assert_eq!(state.liked, Some(false));
    match state.set_track_liked(&track("B"), true, true, true) {
        LikeRequest::Refused(status) => {
            assert_eq!(status.text, "歌曲“B”缺少数字 ID，暂时无法修改喜欢状态")
        }
        _ => panic!("refused"),
    }
    match state.toggle(&track("B"), true, true, None) {
        LikeRequest::Refused(status) => {
            assert_eq!(status.text, "歌曲“B”缺少数字 ID，暂时无法修改喜欢状态")
        }
        other => panic!("{other:?}"),
    }
    match LikeState::new().unlike(&numbered, true, false) {
        LikeRequest::Refused(status) => assert_eq!(status.text, "QQ 音乐客户端不可用"),
        other => panic!("{other:?}"),
    }
    assert!(matches!(
        state.unlike(&numbered, true, true),
        LikeRequest::AskChange { liked: false, previous: Some(true) }
    ));
    let (changed, status) = state.on_changed(true, false, Some(true), "A", Ok(()));
    assert!(changed);
    assert_eq!(status.unwrap().text, "已取消喜欢“A”");
    let status = LikeState::new().on_state(true, true, Err("e".to_owned()));
    assert_eq!(status.unwrap().text, "读取当前歌曲的喜欢状态失败：e");
}

#[test]
fn the_list_of_liked_tracks_tells_what_it_can() {
    let mut list = PlaylistResource::empty(card(UserPlaylistId::Liked));
    let (a, z) = ("A".to_owned(), "Z".to_owned());
    assert_eq!(find_in_list(&list, &a, 9), None);
    list.apply_page(card(UserPlaylistId::Liked), queue_of(&["A"]).tracks, true, 1, 0, 9);
    assert_eq!(find_in_list(&list, &a, 9), Some(true));
    assert_eq!(find_in_list(&list, &z, 9), None);
    list.has_more = false;
    assert_eq!(find_in_list(&list, &z, 9), Some(false));
    assert_eq!(find_in_list(&list, &a, 9_999), None);
}

#[test]
fn playback_is_kept_and_taken_up_again() {
    let queue = Some(queue_of(&["A", "B"]));
    let mut playback = playing_at(1);
    let mut kept = None;
    assert!(!persist_current_playback(&mut playback, &queue, None, None, &mut kept));
    assert!(persist_current_playback(&mut playback, &queue, Some(1), audio(true, 42_500), &mut kept));
    assert!(!persist_current_playback(&mut playback, &queue, Some(1), audio(true, 42_500), &mut kept));
    assert_eq!(playback.position, Duration::from_millis(42_500));
    let record = kept.unwrap();
    assert_eq!(record.track_mid, "B");
    let mut next_run = Playback::new(Quality::Standard);
    let mut restored = None;
    let mut pending = Some(persisted(&["A"]));
    let mut kept = Some(persisted(&["A"]));
    assert_eq!(
        restore_playback_queue(
            &mut next_run,
            &mut restored,
            &mut pending,
            &mut kept,
            record
        ),
        (Some((1, Duration::from_millis(42_500))), false)
    );
    assert_eq!(mids(&restored.as_ref().unwrap().tracks), ["A", "B"]);
    assert_eq!(next_run.queue_generation, 1);
    assert_eq!(pending, None);
    assert!(kept.is_some());
    let mut lost = persisted(&["A"]);
    lost.track_mid = "gone".to_owned();
    pending = Some(persisted(&["A"]));
    assert_eq!(
        restore_playback_queue(&mut next_run, &mut restored, &mut pending, &mut kept, lost),
        (None, true)
    );
    assert_eq!((pending, kept), (None, None));
}

#[test]
fn choosing_a_track_reuses_or_replaces_the_queue() {
    let mut queue = Some(queue_of(&["A", "B"]));
    let mut playback = playing_at(0);
    let liked = UserPlaylistId::Liked;
    assert_eq!(select_track(&playback, &queue, &liked, "A"), Selection::Toggle);
    assert_eq!(select_track(&playback, &queue, &liked, "B"), Selection::Start(1));
    assert_eq!(select_track(&playback, &queue, &liked, "Z"), Selection::Replace);
    playback.loading_track = Some(0);
    assert_eq!(select_track(&playback, &queue, &liked, "A"), Selection::Nothing);
    let query = "q".to_owned();
    let mut pending = Some(persisted(&["Z"]));
    let mut awaited = Some(RecommendationKind::Radar);
    assert_eq!(
        select_search_track(
            &playback,
            &mut queue,
            &mut pending,
            &mut awaited,
            Arc::new(track("A")),
            &query
        ),
        Selection::Nothing
    );
    assert!(pending.is_some() && awaited.is_some());
    assert_eq!(
        select_search_track(
            &playback,
            &mut queue,
            &mut pending,
            &mut awaited,
            Arc::new(track("S")),
            &query
        ),
        Selection::Start(1)
    );
    assert!(pending.is_none() && awaited.is_none());
    assert_eq!(
        enqueue_next(&mut playback, &mut queue, Arc::new(track("T"))),
        Some(1)
    );
    assert_eq!(mids(&queue.as_ref().unwrap().tracks), ["A", "T", "S", "B"]);
    playback.current_track = Some(2);
    playback.loading_track = Some(2);
    assert_eq!(
        enqueue_next(&mut playback, &mut queue, Arc::new(track("A"))),
        Some(2)
    );
    assert_eq!(mids(&queue.as_ref().unwrap().tracks), ["T", "S", "A", "B"]);
    assert_eq!(playback.current_track, Some(1));
    assert_eq!(playback.loading_track, Some(1));
    assert_eq!(enqueue_next(&mut playback, &mut None, Arc::new(track("A"))), None);
    playback.current_track = Some(2);
    playback.loading_track = Some(2);
    let mut none = None;
    assert_eq!(
        select_search_track(
            &playback,
            &mut none,
            &mut pending,
            &mut awaited,
            Arc::new(track("S")),
            &query
        ),
        Selection::Start(0)
    );
    assert_eq!(
        none.unwrap().playlist_id,
        UserPlaylistId::Search { query: "q".to_owned() }
    );
    let shown = queue_of(&["B", "A"]).tracks;
    assert_eq!(
        sync_table_playback_state(&playback, &queue, &shown),
        (Some(1), Some(1))
    );
    let mut loading = Some(RecommendationKind::Guess);
    let mut rest = replace_playback_queue(
        &mut playback,
        &mut queue,
        &mut loading,
        liked,
        shown,
        true,
        None,
        true,
        true,
    )
    .unwrap();
    assert_eq!(loading, None);
    assert_eq!(rest.offset, 2);
    rest.take_page(&queue_of(&["A", "C"]).tracks, true, 30);
    rest.take_page(&queue_of(&["D"]).tracks, false, 60);
    assert!(!rest.has_more);
    assert_eq!(rest.offset, 60);
    rest.generation += 1;
    assert!(!complete_playback_queue(&playback, &mut queue, &rest));
    rest.generation -= 1;
    assert!(complete_playback_queue(&playback, &mut queue, &rest));
    assert_eq!(mids(&queue.as_ref().unwrap().tracks), ["B", "A", "C", "D"]);
    let tracks = queue_of(&["A"]).tracks;
    let id = UserPlaylistId::Liked;
    assert!(replace_playback_queue(
        &mut playback,
        &mut queue,
        &mut loading,
        id,
        tracks,
        true,
        Some(9),
        true,
        false,
    )
    .is_none());
}

#[test]
fn the_playlist_viewed_last_is_found_again() {
    let mut view = None;
    let second = UserPlaylistId::Favorite { diss_id: 2 };
    assert!(remember_view(&mut view, 5, &second));
    assert!(!remember_view(&mut view, 5, &second));
    let lists = vec![card(UserPlaylistId::Liked), card(second)];
    assert_eq!(viewed_playlist(&view, 5, &lists), Some(1));
    assert_eq!(viewed_playlist(&view, 6, &lists), None);
}

#[test]
fn a_remote_control_sees_and_steers() {
    let queue = Some(queue_of(&["A", "B"]));
    let mut playback = playing_at(1);
    let mut loudness = Loudness {
        volume: Volume { bits: 0 },
        last_nonzero: Volume { bits: 0 },
    };
    let volume = Volume {
        bits: 0.5f32.to_bits(),
    };
    let snapshot = mpris_snapshot(&playback, &queue, audio(true, 0), volume);
    assert_eq!(snapshot.playback_status, MprisPlaybackStatus::Playing);
    assert_eq!(snapshot.loop_status, MprisLoopStatus::Off);
    assert!(!snapshot.can_go_next && snapshot.can_go_previous);
    let shown = snapshot.track.unwrap();
    assert_eq!(shown.id, mpris_track_id("B"));
    assert!(shown.artists.is_empty() && shown.album.is_none());
    assert_eq!(shown.length_micros, 180_000_000);

    let mut send = |playback: &mut Playback, command: MprisCommand| {
        handle_mpris_command(playback, &mut loudness, &queue, audio(true, 1_000), true, 0, command)
    };
    assert_eq!(
        send(&mut playback, MprisCommand::SetLoopStatus(MprisLoopStatus::Playlist)),
        RemoteAction::Refresh
    );
    assert_eq!(playback.repeat_mode, RepeatMode::All);
    assert_eq!(
        send(&mut playback, MprisCommand::Next),
        RemoteAction::Perform(start(0))
    );
    let seek = |millis: u64| {
        RemoteAction::Perform(PlaybackAction::Start {
            index: 1,
            resume_at: Duration::from_millis(millis),
            quality: Some(Quality::Standard),
            autoplay: true,
        })
    };
    assert_eq!(send(&mut playback, MprisCommand::Seek(500_000)), seek(1_500));
    assert_eq!(send(&mut playback, MprisCommand::Seek(-9_000_000)), seek(0));
    assert_eq!(
        send(&mut playback, MprisCommand::Seek(i64::MAX)),
        RemoteAction::Perform(start(0))
    );
    let position = |id: &str, position: i64| MprisCommand::SetPosition {
        track_id: id.to_owned(),
        position,
    };
    let id = mpris_track_id("B");
    assert_eq!(send(&mut playback, position(&id, 7_000_000)), seek(7_000));
    assert_eq!(send(&mut playback, position(&id, -1)), RemoteAction::Nothing);
    assert_eq!(
        send(&mut playback, position(&id, 180_000_000)),
        RemoteAction::Nothing
    );
    assert_eq!(send(&mut playback, position("other", 1)), RemoteAction::Nothing);
    assert_eq!(
        send(&mut playback, MprisCommand::SetVolume(volume)),
        RemoteAction::VolumeChanged
    );
    assert_eq!(send(&mut playback, MprisCommand::Stop), RemoteAction::Stopped);
    assert_eq!(loudness.last_nonzero, volume);
}

#[test]
fn track_paths_come_from_the_hash_of_the_id() {
    let id = mpris_track_id("");
    assert_eq!(id, "/dev/lyrune/track/id_99aa06d3014798d86001c324468d497f");
    assert_eq!(id.len(), "/dev/lyrune/track/id_".len() + 32);
    assert_ne!(mpris_track_id("A"), mpris_track_id("B"));
}

#[test]
fn signing_in_leads_somewhere_from_everywhere() {
    let mut account = Account::new();
    assert!(account.begin_login().is_none());
    let (action, status) = account.on_restored(RestoreResult::Failed("e".to_owned()));
    assert_eq!(action, AccountAction::BeginLogin);
    assert_eq!(status.unwrap().text, "无法恢复登录：e；正在加载登录二维码…");
    let (generation, status) = account.begin_login().unwrap();
    assert_eq!(generation, 1);
    assert_eq!(status.text, "正在向 QQ 音乐申请二维码…");
    assert!(account.begin_login().is_none());
    let (action, _) = account.handle_login_event(9, LoginEvent::Succeeded);
    assert_eq!(action, AccountAction::Nothing);
    assert!(ends_login(&LoginEvent::Succeeded));
    assert!(!ends_login(&LoginEvent::QrReady));
    let (action, _) = account.handle_login_event(1, LoginEvent::QrReady);
    assert_eq!(action, AccountAction::ShowCode);
    assert!(account.code_shown);
    let (action, status) = account.handle_login_event(1, LoginEvent::Failed("x".to_owned()));
    assert_eq!(action, AccountAction::Nothing);
    assert_eq!(status.unwrap().text, "扫码登录失败：x；点击二维码区域重试");
    assert_eq!(account.begin_login().unwrap().0, 2);
    let (action, _) = account.handle_login_event(2, LoginEvent::Expired);
    assert_eq!(action, AccountAction::BeginLogin);
    account.begin_login();
    let (action, _) = account.handle_login_event(3, LoginEvent::Succeeded);
    assert_eq!(action, AccountAction::Enter);
    assert_eq!(account.state, AccountState::SignedIn);
    account.logout();
    assert_eq!(account.state, AccountState::SignedOut);
}

#[test]
fn signing_out_leaves_nothing_behind() {
    let mut home = HomeState::new();
    let asked = home.load(true, true).unwrap();
    let mut playback = playing_at(1);
    playback.shuffle = true;
    let mut listening = listening_to(playback, queue_of(&["A", "B"]));
    listening.home = home;
    listening.library = LibraryState {
        loading: true,
        generation: 3,
    };
    listening.account.code_shown = true;
    listening.playlists.set_selected(2);
    listening.table.show_liked_actions = true;
    listening.kept = Some(persisted(&["A"]));
    let liked = LikeState {
        liked: Some(true),
        state_loading: false,
        toggle_loading: false,
    };
    listening.likes.set(&"A".to_owned(), liked);
    assert_eq!(listening.likes.get(&"A".to_owned()), liked);
    assert_eq!(listening.likes.get(&"B".to_owned()), LikeState::new());
    listening.pages.insert(key("q"), 1);
    let (write, status) = listening.logout(Quality::Lossless);
    assert!(write);
    assert_eq!(status, StatusMessage::info("已退出登录".to_owned()));
    assert!(!listening.account.code_shown);
    assert_eq!(listening.playlists.selected_index, None);
    assert!(!listening.table.show_liked_actions);
    assert_eq!(listening.kept, None);
    assert_eq!(listening.likes.get(&"A".to_owned()), LikeState::new());
    assert_eq!(listening.pages.get(&key("q")), None);
    assert!(listening.queue.is_none());
    assert!(listening.available_qualities.is_empty());
    assert_eq!(listening.playback.current_track, None);
    assert!(listening.playback.shuffle);
    assert_eq!(listening.playback.active_quality, Quality::Lossless);
    assert!(!listening.menus.account_open);
    assert!(!listening.library.loading);
    assert!(!listening.home.finish(asked, Ok(Vec::new())));
    assert_eq!(listening.account.begin_login().unwrap().0, 2);
}

fn key(query: &str) -> PageKey {
    PageKey::Search {
        account: 1,
        query: query.to_owned(),
    }
}

fn persisted(mids: &[&str]) -> PersistedPlayback {
    PersistedPlayback {
        account_id: 1,
        playlist_id: UserPlaylistId::Liked,
        track_mid: mids[0].to_owned(),
        position_ms: 0,
        queue_tracks: queue_of(mids).tracks,
        queue_modified: false,
        queue_continuation: None,
    }
}

fn listening_to(playback: Playback, queue: PlaybackQueue) -> Listening<u8> {
    listening_of(playback, queue)
}

fn listening_of<H>(playback: Playback, queue: PlaybackQueue) -> Listening<H> {
    Listening {
        account: Account::new(),
        profile: None,
        library: LibraryState {
            loading: false,
            generation: 0,
        },
        home: HomeState::new(),
        browser: Browser::new(10),
        pages: PageResourceCache::new(),
        playlists: PlaylistListDelegate::new(),
        table: TrackTableDelegate::new(),
        likes: TrackLikes::new(),
        playback,
        queue: Some(queue),
        location: None,
        available_qualities: vec![Quality::High],
        menus: Menus { account_open: true },
        pending_restore: None,
        kept: None,
    }
}

#[test]
fn the_list_on_show_becomes_the_queue() {
    let mut listening = listening_to(playing_at(0), queue_of(&["A", "B"]));
    listening.table.set_tracks(queue_of(&["C", "B"]).tracks, true, false);
    let (chosen, rest) = listening.select_track(0, None, true, true);
    assert_eq!(chosen, Selection::Nothing);
    assert!(rest.is_none());
    listening.browser.selected_playlist = Some(card(UserPlaylistId::Liked));
    listening.pending_restore = Some(persisted(&["A"]));
    listening.home.recommendation_loading = Some(RecommendationKind::Guess);
    let (chosen, _) = listening.select_track(1, None, true, true);
    assert_eq!(chosen, Selection::Start(1));
    assert!(listening.pending_restore.is_some());
    assert_eq!(listening.select_track(9, None, true, true).0, Selection::Nothing);
    let (chosen, rest) = listening.select_track(0, Some(30), true, true);
    assert_eq!(chosen, Selection::Start(0));
    assert_eq!(rest.unwrap().offset, 30);
    assert_eq!(mids(&listening.queue.unwrap().tracks), ["C", "B"]);
    assert_eq!(listening.pending_restore, None);
    assert_eq!(listening.home.recommendation_loading, None);
}

#[test]
fn pages_are_found_until_they_are_gone() {
    let mut pages = PageResourceCache::new();
    pages.insert(key("a"), 1);
    pages.insert(key("b"), 2);
    pages.insert(key("a"), 3);
    assert_eq!(pages.get(&key("a")), Some(&3));
    assert_eq!(pages.get(&key("b")), Some(&2));
    assert_eq!(
        pages.get(&PageKey::Artist {
            account: 1,
            mid: "a".to_owned()
        }),
        None
    );
    pages.prune(|page: &i32| *page > 2);
    assert_eq!(pages.get(&key("a")), Some(&3));
    assert_eq!(pages.get(&key("b")), None);
    pages.clear();
    assert_eq!(pages.get(&key("a")), None);
}

#[test]
fn dragging_the_slider_seeks_when_it_is_let_go() {
    let mut playback = playing_at(0);
    let length = Some(Duration::from_secs(180));
    playback.preview_seek(Some(Duration::from_secs(30)));
    assert_eq!(playback.seek_preview, Some(Duration::from_secs(30)));
    assert!(!playback.tick(audio(true, 1_000)));
    assert_eq!(playback.position, Duration::zero());
    let action = playback.release_seek(Some(Duration::from_secs(200)), length, audio(true, 0));
    assert_eq!(
        action,
        PlaybackAction::Start {
            index: 0,
            resume_at: Duration::from_secs(180),
            quality: Some(playback.active_quality),
            autoplay: true,
        }
    );
    assert_eq!(playback.seek_preview, None);
    assert_eq!(
        playback.release_seek(None, length, audio(true, 0)),
        PlaybackAction::Nothing
    );
}

#[test]
fn playback_is_kept_every_five_seconds() {
    let start = Instant { nanos: 1_000 };
    let early = start.plus(Duration::from_millis(4_999));
    let late = start.plus(Duration::from_secs(5));
    assert!(!persist_is_due(&playing_at(0), start, early));
    assert!(persist_is_due(&playing_at(0), start, late));
    assert!(!persist_is_due(&Playback::new(Quality::High), start, late));
}

#[test]
fn a_library_brings_back_what_its_account_played() {
    let profile = || UserProfile {
        id: "1".to_owned(),
        nickname: "n".to_owned(),
        avatar_url: None,
    };
    let mut listening = listening_to(playing_at(0), queue_of(&["A"]));
    listening.pending_restore = Some(persisted(&["C", "D"]));
    listening.kept = Some(persisted(&["C", "D"]));
    let lists = vec![card(UserPlaylistId::Liked)];
    let (shown, start, write) = listening.apply_library(1, profile(), lists, &None);
    assert!(matches!(shown, LibraryShown::Keep));
    assert_eq!(start, Some((0, Duration::zero())));
    assert!(!write && listening.kept.is_some());
    assert_eq!(mids(&listening.queue.as_ref().unwrap().tracks), ["C", "D"]);
    assert!(listening.profile.is_some());
    assert_eq!(listening.playlists.playlists.len(), 1);

    listening.pending_restore = Some(persisted(&["Z"]));
    let (shown, start, write) = listening.apply_library(2, profile(), Vec::new(), &None);
    assert!(matches!(shown, LibraryShown::Empty(_)));
    assert_eq!(start, None);
    assert!(write);
    assert_eq!((listening.pending_restore, listening.kept), (None, None));
    assert_eq!(mids(&listening.queue.unwrap().tracks), ["C", "D"]);
}

#[test]
fn a_playlist_is_opened_and_then_filled() {
    let mut listening = listening_to(playing_at(0), queue_of(&["A", "B"]));
    listening.playlists.set_playlists(vec![
        card(UserPlaylistId::Liked),
        card(UserPlaylistId::Favorite { diss_id: 1 }),
    ]);
    let position = PlaylistScrollPosition {
        row: 2,
        offset_y: 7,
    };
    listening.open_playlist(card(UserPlaylistId::Liked), Some(0), true, position, None);
    assert_eq!(listening.browser.main_content, MainContent::Playlist);
    assert!(listening.browser.playlist_force_refresh);
    assert_eq!(listening.playlists.selected_index, Some(0));
    assert!(listening.table.loading && listening.table.show_liked_actions);

    let mut named = card(UserPlaylistId::Liked);
    named.title = "new".to_owned();
    let tracks = queue_of(&["B", "A"]).tracks;
    assert_eq!(listening.show_playlist(named, tracks, true, false), None);
    assert!(listening.browser.pending_playlist_scroll_position.is_some());
    assert_eq!(listening.playlists.playlists[0].title, "new");
    listening.mark_rows(audio(true, 0));
    assert_eq!(listening.table.playing_index, Some(1));
    assert_eq!(listening.table.loading_index, None);
    assert!(listening.table.playback_active);
    let tracks = queue_of(&["B", "A", "C"]).tracks;
    assert_eq!(
        listening.show_playlist(card(UserPlaylistId::Liked), tracks, true, false),
        Some(ScrollTarget::Offset(7))
    );
    assert_eq!(listening.browser.pending_playlist_scroll_position, None);
}

enum Handle {
    Search(Weak<Mutex<SearchResource>>),
    Artist(Weak<Mutex<ArtistResource>>),
    Playlist(Weak<Mutex<PlaylistResource>>),
}

fn alive(handle: &Handle) -> Option<SharedPage> {
    match handle {
        Handle::Search(page) => page.upgrade().map(SharedPage::Search),
        Handle::Artist(page) => page.upgrade().map(SharedPage::Artist),
        Handle::Playlist(page) => page.upgrade().map(SharedPage::Playlist),
    }
}

fn shared(page: LoadedPage) -> (SharedPage, Handle) {
    match page {
        LoadedPage::Search(page) => {
            let page = Arc::new(Mutex::new(page));
            let handle = Handle::Search(Arc::downgrade(&page));
            (SharedPage::Search(page), handle)
        }
        LoadedPage::Artist(page) => {
            let page = Arc::new(Mutex::new(page));
            let handle = Handle::Artist(Arc::downgrade(&page));
            (SharedPage::Artist(page), handle)
        }
        LoadedPage::Playlist(page) => {
            let page = Arc::new(Mutex::new(page));
            let handle = Handle::Playlist(Arc::downgrade(&page));
            (SharedPage::Playlist(page), handle)
        }
    }
}

#[test]
fn a_page_on_show_says_what_it_needs() {
    let mut listening: Listening<Handle> = listening_of(playing_at(0), queue_of(&["A"]));
    let show = |listening: &mut Listening<Handle>, page| {
        listening.show_page(page, Some(1), &alive, shared)
    };
    listening.playlists.set_selected(3);
    assert_eq!(show(&mut listening, NavigationPage::Home), PageNeeds::Home);
    assert_eq!(listening.playlists.selected_index, None);
    listening.home.loaded = true;
    assert_eq!(show(&mut listening, NavigationPage::Home), PageNeeds::Nothing);
    assert_eq!(
        show(&mut listening, NavigationPage::Settings),
        PageNeeds::Nothing
    );
    let search = || search_page("x", None).unwrap();
    assert_eq!(show(&mut listening, search()), PageNeeds::Search);
    let first = listening.browser.search_resource.clone().unwrap();
    assert!(first.lock().unwrap().results.is_none());
    let list = playlist_page(card(UserPlaylistId::Liked), Some(1), None);
    assert_eq!(show(&mut listening, list), PageNeeds::Playlist);
    assert_eq!(listening.playlists.selected_index, Some(1));
    assert!(listening.table.show_liked_actions);
    let list = listening.browser.selected_playlist_resource.clone().unwrap();
    assert_eq!(list.lock().unwrap().fetched_at_secs, 0);

    assert_eq!(show(&mut listening, search()), PageNeeds::Search);
    let again = listening.browser.search_resource.clone().unwrap();
    assert!(Arc::ptr_eq(&first, &again));
    show(&mut listening, NavigationPage::Home);
    let gone = Arc::downgrade(&first);
    drop((first, again));
    assert!(gone.upgrade().is_none());
    show(&mut listening, search());
    assert!(listening.browser.search_resource.is_some());
    let own = Arc::new(Mutex::new(SearchResource::default()));
    show(&mut listening, search_page("x", Some(own.clone())).unwrap());
    let shown = listening.browser.search_resource.clone().unwrap();
    assert!(Arc::ptr_eq(&own, &shown));
}

#[test]
fn pages_are_visited_and_left_with_their_handles() {
    let mut listening: Listening<Handle> = listening_of(playing_at(0), queue_of(&["A"]));
    let top = PlaylistScrollPosition::top();
    let search = search_page("x", None).unwrap();
    let needs = listening.visit(search, top, None, &alive, shared);
    assert_eq!(needs, PageNeeds::Search);
    let known = listening.browser.search_resource.clone().unwrap();
    listening.visit(NavigationPage::Settings, top, None, &alive, shared);
    assert!(listening.browser.search_resource.is_none());
    assert_eq!(
        listening.navigate_back(top, None, &alive, shared),
        Some(PageNeeds::Search)
    );
    let back = listening.browser.search_resource.clone().unwrap();
    assert!(Arc::ptr_eq(&known, &back));
    assert_eq!(
        listening.navigate_forward(top, None, &alive, shared),
        Some(PageNeeds::Nothing)
    );
    assert_eq!(listening.browser.main_content, MainContent::Settings);
    assert_eq!(listening.navigate_forward(top, None, &alive, shared), None);
}

#[test]
fn a_stale_page_is_shared_anew() {
    let mut pages = PageResourceCache::new();
    let key = || PageKey::Playlist {
        account: 1,
        id: UserPlaylistId::Liked,
    };
    let empty = || LoadedPage::Playlist(PlaylistResource::empty(card(UserPlaylistId::Liked)));
    let handle = |page: SharedPage| match page {
        SharedPage::Playlist(page) => page,
        other => panic!("{other:?}"),
    };
    let fresh = |_: &SharedPage| true;
    let stale = |_: &SharedPage| false;
    let one = handle(shared_page(&mut pages, key(), empty(), true, &alive, &fresh, shared));
    let two = handle(shared_page(&mut pages, key(), empty(), true, &alive, &fresh, shared));
    assert!(Arc::ptr_eq(&one, &two));
    let new = handle(shared_page(&mut pages, key(), empty(), true, &alive, &stale, shared));
    assert!(!Arc::ptr_eq(&one, &new));
    let forced = handle(shared_page(&mut pages, key(), empty(), false, &alive, &fresh, shared));
    assert!(!Arc::ptr_eq(&new, &forced));
    let last = handle(shared_page(&mut pages, key(), empty(), true, &alive, &fresh, shared));
    assert!(Arc::ptr_eq(&forced, &last));
}

#[test]
fn coming_in_shows_the_home_page() {
    let mut listening = listening_to(playing_at(0), queue_of(&["A"]));
    listening.browser.main_content = MainContent::Settings;
    assert!(!listening.follow_account(AccountAction::ShowCode));
    assert_eq!(listening.browser.main_content, MainContent::Settings);
    assert!(listening.follow_account(AccountAction::Enter));
    assert_eq!(listening.browser.main_content, MainContent::Home);
}

#[test]
fn a_lower_limit_cuts_the_trail_at_once() {
    let mut settings = AppSettings::defaults(Platform::Other);
    let mut listening = listening_to(playing_at(0), queue_of(&["A"]));
    let top = PlaylistScrollPosition::top();
    listening.browser.leave_for(&NavigationPage::Settings, top);
    listening.browser.apply_navigation_page(NavigationPage::Settings);
    listening.browser.leave_for(&NavigationPage::Home, top);
    assert_eq!(listening.browser.navigation_history.back.len(), 2);
    assert_eq!(
        listening.limit_history(&mut settings, "2"),
        ("2".to_owned(), true)
    );
    assert_eq!(settings.navigation_history_limit, 2);
    assert_eq!(listening.browser.navigation_history.back.len(), 1);
    assert_eq!(
        listening.limit_history(&mut settings, "x"),
        ("2".to_owned(), false)
    );
}

#[test]
fn a_loaded_track_is_kept_with_its_location_and_qualities() {
    let mut playback = playing_at(1);
    playback.play_generation = 4;
    playback.loading_track = Some(1);
    let mut location = None;
    let mut available = vec![Quality::Standard];
    let loaded = || PlaybackLocation {
        track_mid: "B".to_owned(),
        quality: Quality::Lossless,
        urls: vec!["u".to_owned()],
    };
    let qualities = vec![Quality::High, Quality::Lossless];
    assert!(!playback.on_loaded(3, &mut location, &mut available, loaded(), qualities.clone()));
    assert!(location.is_none());
    assert_eq!(available, [Quality::Standard]);
    assert_eq!(playback.loading_track, Some(1));
    assert!(playback.on_loaded(4, &mut location, &mut available, loaded(), qualities.clone()));
    assert_eq!(location.as_ref().unwrap().track_mid, "B");
    assert_eq!(location.as_ref().unwrap().urls, ["u"]);
    assert_eq!(available, qualities);
    assert_eq!(playback.active_quality, Quality::Lossless);
    assert_eq!(playback.loading_track, None);
    let decision = start_playback(
        &mut playback,
        &mut available,
        &Some(queue_of(&["A", "B"])),
        &location,
        Facilities {
            signed_in: true,
            audio_cache: true,
            audio: true,
            client: true,
        },
        StartRequest {
            index: 1,
            resume_at: Duration::from_secs(9),
            quality: Some(Quality::Lossless),
            autoplay: true,
        },
        Quality::Standard,
    );
    match decision {
        StartDecision::Load(plan) => assert!(plan.reuse_location && plan.same_track),
        other => panic!("{other:?}"),
    }
    assert_eq!(available, qualities);
}

#[test]
fn the_liked_list_on_show_follows_a_like() {
    let mut cache = LibraryCache::new();
    let mut listening = listening_to(playing_at(0), queue_of(&["A"]));
    listening.playlists.set_playlists(vec![card(UserPlaylistId::Liked)]);
    let before = listening.playlists.playlists[0].track_count;
    let hidden = ListChange {
        shown: false,
        change: Some((card(UserPlaylistId::Liked), queue_of(&["X"]).tracks, false)),
    };
    listening.apply_track_liked(&mut cache, 1, true, vec![hidden], None);
    assert_eq!(listening.playlists.playlists[0].track_count, before + 1);
    assert!(listening.table.tracks().is_empty());
    let mut list = card(UserPlaylistId::Liked);
    list.title = "mine".to_owned();
    let changes = vec![
        ListChange {
            shown: true,
            change: Some((list, queue_of(&["B", "A"]).tracks, true)),
        },
        ListChange {
            shown: false,
            change: None,
        },
    ];
    listening.apply_track_liked(&mut cache, 1, true, changes, audio(true, 0));
    assert_eq!(mids(listening.table.tracks()), ["B", "A"]);
    assert!(listening.table.has_more() && !listening.table.loading);
    assert_eq!(listening.table.playing_index, Some(1));
    assert_eq!(
        listening.browser.selected_playlist.unwrap().title,
        "mine"
    );
}
