use lyrune::browser::{artist_page, playlist_page, search_page, Browser, MainContent};
use lyrune::catalog::{SearchArtist, Track, UserPlaylist, UserPlaylistId};
use lyrune::navigation::{
    add_unless, gather_once, gather_onto, mark_same, mark_shown, resources_to_change, restore_scroll_position, NavigationHistory, NavigationPage,
    PlaylistScrollPosition, ScrollTarget,
};
use lyrune::resources::{
    resolved_playlist_scroll_row, PlaylistResource, SearchCategory, SearchResource,
    SearchVisibleCounts, SEARCH_PAGE_SIZE,
};
use lyrune::settings::DEFAULT_NAVIGATION_HISTORY_LIMIT;
use std::sync::Arc;

fn track(mid: &str) -> Track {
    Track {
        song_id: None,
        song_type: 0,
        mid: mid.to_owned(),
        media_mid: None,
        standard_size_bytes: None,
        high_size_bytes: None,
        lossless_size_bytes: None,
        hi_res_size_bytes: None,
        atmos_stereo_size_bytes: None,
        atmos_surround_size_bytes: None,
        master_size_bytes: None,
        title: mid.to_owned(),
        artists: String::new(),
        artist_details: Vec::new(),
        album: String::new(),
        album_mid: String::new(),
        cover_url: None,
        duration_seconds: 180,
    }
}

fn mids(tracks: &[Arc<Track>]) -> Vec<&str> {
    tracks.iter().map(|track| track.mid.as_str()).collect()
}

fn playlist(diss_id: u64) -> NavigationPage {
    playlist_at_scroll_row(diss_id, 0)
}

fn playlist_at_scroll_row(diss_id: u64, scroll_row: usize) -> NavigationPage {
    playlist_at_scroll_position(diss_id, scroll_row, 0.)
}

fn playlist_at_scroll_position(
    diss_id: u64,
    scroll_row: usize,
    offset_y: f32,
) -> NavigationPage {
    NavigationPage::Playlist {
        playlist: UserPlaylist {
            id: UserPlaylistId::Favorite { diss_id },
            title: format!("playlist-{diss_id}"),
            cover_url: None,
            description: String::new(),
            owner: String::new(),
            owner_avatar_url: None,
            track_count: 0,
        },
        selected_index: None,
        scroll_position: PlaylistScrollPosition {
            row: scroll_row,
            offset_y: offset_y.to_bits(),
        },
        resource: None,
    }
}

#[test]
fn new_navigation_after_back_clears_the_forward_branch() {
    let first = playlist(1);
    let second = playlist(2);
    let home = NavigationPage::Home;
    let mut history = NavigationHistory::default();

    history.record(Some(first.clone()), &home);
    let back = history.go_back(Some(home.clone())).unwrap();
    assert!(back.same_destination(&first));

    let forward = history.go_forward(Some(first.clone())).unwrap();
    assert!(forward.same_destination(&home));

    let back = history.go_back(Some(home)).unwrap();
    assert!(back.same_destination(&first));
    history.record(Some(first), &second);

    assert!(history.forward.is_empty());
    let back = history.go_back(Some(second)).unwrap();
    assert!(back.same_destination(&playlist(1)));
}

#[test]
fn new_navigation_can_claim_a_forward_resource_before_clearing_it() {
    let NavigationPage::Playlist { playlist, .. } = playlist(1) else {
        unreachable!();
    };
    let resource = Arc::new(std::sync::Mutex::new(PlaylistResource::empty(
        playlist.clone(),
    )));
    let weak = Arc::downgrade(&resource);
    let mut history = NavigationHistory {
        limit: DEFAULT_NAVIGATION_HISTORY_LIMIT,
        back: Vec::new(),
        forward: vec![NavigationPage::Playlist {
            playlist: playlist.clone(),
            selected_index: None,
            scroll_position: PlaylistScrollPosition::top(),
            resource: Some(resource),
        }],
    };

    let claimed = weak.upgrade().expect("forward resource remains available");
    let target = NavigationPage::Playlist {
        playlist,
        selected_index: None,
        scroll_position: PlaylistScrollPosition::top(),
        resource: Some(claimed),
    };
    history.record(Some(NavigationPage::Home), &target);

    assert!(history.forward.is_empty());
    assert!(weak.upgrade().is_some());
}

#[test]
fn navigation_history_keeps_at_most_ten_pages_including_the_current_page() {
    let mut history = NavigationHistory::default();
    let mut current = NavigationPage::Home;
    for diss_id in 1..=DEFAULT_NAVIGATION_HISTORY_LIMIT as u64 + 2 {
        let target = playlist(diss_id);
        history.record(Some(current), &target);
        current = target;
    }

    assert_eq!(history.back.len() + 1, DEFAULT_NAVIGATION_HISTORY_LIMIT);
    assert!(history.back[0].same_destination(&playlist(3)));
}

#[test]
fn shrinking_navigation_history_limit_evicts_the_oldest_pages_immediately() {
    let mut history = NavigationHistory::new(4);
    let mut current = NavigationPage::Home;
    for diss_id in 1..=3 {
        let target = playlist(diss_id);
        history.record(Some(current), &target);
        current = target;
    }

    history.set_limit(2);

    assert_eq!(history.back.len() + history.forward.len() + 1, 2);
    assert!(history.back[0].same_destination(&playlist(2)));
}

#[test]
fn evicting_history_releases_its_shared_page_resource() {
    let resource = Arc::new(std::sync::Mutex::new(SearchResource::default()));
    let weak = Arc::downgrade(&resource);
    let mut current = NavigationPage::Search {
        query: "resource lifetime".to_owned(),
        category: SearchCategory::Songs,
        visible_counts: SearchVisibleCounts::default(),
        resource: Some(resource.clone()),
    };
    drop(resource);

    let mut history = NavigationHistory::default();
    for diss_id in 1..=DEFAULT_NAVIGATION_HISTORY_LIMIT as u64 {
        let target = playlist(diss_id);
        history.record(Some(current), &target);
        current = target;
    }

    assert!(weak.upgrade().is_none());
}

#[test]
fn playlist_history_keeps_its_exact_scroll_position() {
    let playlist = playlist_at_scroll_position(1, 37, -18.);
    let mut history = NavigationHistory::default();

    history.record(Some(playlist), &NavigationPage::Home);
    let restored = history
        .go_back(Some(NavigationPage::Home))
        .expect("playlist history entry");

    let NavigationPage::Playlist {
        scroll_position, ..
    } = restored
    else {
        panic!("restored playlist history entry");
    };
    assert_eq!(scroll_position.row, 37);
    assert_eq!(f32::from_bits(scroll_position.offset_y), -18.);
}

#[test]
fn playlist_scroll_waits_until_the_requested_row_is_loaded() {
    assert_eq!(resolved_playlist_scroll_row(120, 100, true), None);
    assert_eq!(resolved_playlist_scroll_row(120, 200, true), Some(120));
    assert_eq!(resolved_playlist_scroll_row(250, 200, false), Some(199));
}

#[test]
fn shared_playlist_ignores_a_late_duplicate_page() {
    let NavigationPage::Playlist { playlist, .. } = playlist(1) else {
        unreachable!();
    };
    let mut resource = PlaylistResource::empty(playlist.clone());
    resource.apply_page(
        playlist.clone(),
        vec![Arc::new(track("first"))],
        true,
        20,
        0,
        1_000,
    );
    resource.apply_page(
        playlist.clone(),
        vec![Arc::new(track("second"))],
        true,
        40,
        20,
        1_001,
    );
    resource.apply_page(
        playlist,
        vec![Arc::new(track("duplicate"))],
        false,
        40,
        20,
        1_002,
    );

    assert_eq!(mids(&resource.tracks), ["first", "second"]);
    assert!(resource.has_more);
    assert_eq!(resource.next_offset, 40);
    assert_eq!(resource.fetched_at_secs, 1_001);
}

#[test]
fn search_history_keeps_the_active_category_without_splitting_one_query() {
    let mut visible_counts = SearchVisibleCounts::default();
    visible_counts.albums = 60;
    let songs = NavigationPage::Search {
        query: "周杰伦".to_owned(),
        category: SearchCategory::Songs,
        visible_counts: SearchVisibleCounts::default(),
        resource: None,
    };
    let albums = NavigationPage::Search {
        query: "周杰伦".to_owned(),
        category: SearchCategory::Albums,
        visible_counts,
        resource: None,
    };
    assert!(songs.same_destination(&albums));

    let target = playlist(42);
    let mut history = NavigationHistory::default();
    history.record(Some(albums.clone()), &target);
    let restored = history.go_back(Some(target)).expect("search history entry");
    assert!(matches!(
        restored,
        NavigationPage::Search {
            query,
            category: SearchCategory::Albums,
            visible_counts,
            ..
        } if query == "周杰伦" && visible_counts.albums == 60
    ));
}

#[test]
fn search_categories_follow_the_product_order() {
    assert_eq!(
        SearchCategory::ALL.map(SearchCategory::label),
        ["单曲", "歌单", "专辑", "歌手"]
    );
}

#[test]
fn the_history_never_outgrows_its_limit() {
    let mut history = NavigationHistory::new(0);
    assert_eq!(history.limit, 1);
    history.record(Some(NavigationPage::Home), &playlist(1));
    assert!(history.back.is_empty());
    assert!(history.go_back(None).is_none());
    assert!(history.go_forward(None).is_none());
}

#[test]
fn loaded_parts_of_a_playlist_are_found_once_each() {
    let id = UserPlaylistId::Favorite { diss_id: 1 };
    let NavigationPage::Playlist { playlist: card, .. } = playlist(1) else {
        unreachable!();
    };
    let shared = Arc::new(std::sync::Mutex::new(PlaylistResource::empty(card.clone())));
    let other = Arc::new(std::sync::Mutex::new(PlaylistResource::empty(card.clone())));
    let page = |resource: &Arc<std::sync::Mutex<PlaylistResource>>| NavigationPage::Playlist {
        playlist: card.clone(),
        selected_index: None,
        scroll_position: PlaylistScrollPosition::top(),
        resource: Some(resource.clone()),
    };
    let history = NavigationHistory {
        limit: 10,
        back: vec![page(&shared), NavigationPage::Home, playlist(1), page(&other)],
        forward: vec![page(&shared), playlist(2)],
    };
    let found = history.playlist_resources(&id);
    assert_eq!(found.len(), 2);
    assert!(Arc::ptr_eq(&found[0], &shared));
    assert!(Arc::ptr_eq(&found[1], &other));
    assert!(history
        .playlist_resources(&UserPlaylistId::Favorite { diss_id: 9 })
        .is_empty());

    let third = Arc::new(std::sync::Mutex::new(PlaylistResource::empty(card.clone())));
    let all = resources_to_change(found, &Some(other.clone()), &Some(third.clone()));
    assert_eq!(all.len(), 3);
    assert!(Arc::ptr_eq(&all[0], &shared));
    assert!(Arc::ptr_eq(&all[2], &third));
    assert_eq!(mark_shown(&all, &Some(other)), [false, true, false]);
    assert_eq!(mark_shown(&all, &None), [false; 3]);
    assert_eq!(resources_to_change(all, &None, &None).len(), 3);
}

#[test]
fn going_back_shows_a_page_as_it_was_left() {
    let top = PlaylistScrollPosition::top();
    let left = PlaylistScrollPosition {
        row: 12,
        offset_y: (-3f32).to_bits(),
    };
    let go = |browser: &mut Browser, page: NavigationPage, scroll| {
        browser.leave_for(&page, scroll);
        browser.apply_navigation_page(page);
    };
    let back = |browser: &mut Browser, scroll| match browser.step_back(scroll) {
        Some(page) => {
            browser.apply_navigation_page(page);
            true
        }
        None => false,
    };
    let mut browser = Browser::new(10);
    let search = search_page("  周杰伦 ", None).unwrap();
    go(&mut browser, search, top);
    assert_eq!(browser.main_content, MainContent::Search);
    assert_eq!(browser.search_query, "周杰伦");
    browser.search_category = SearchCategory::Albums;
    let NavigationPage::Playlist { playlist: card, .. } = playlist(7) else {
        unreachable!();
    };
    go(&mut browser, playlist_page(card, Some(3), None), top);
    assert_eq!(browser.selected_playlist_index, Some(3));
    let artist = SearchArtist {
        mid: "a".to_owned(),
        name: "artist".to_owned(),
        cover_url: None,
    };
    go(&mut browser, artist_page(artist, None), left);
    assert_eq!(browser.main_content, MainContent::Artist);
    assert_eq!(browser.artist_visible_song_count, 5);

    assert!(back(&mut browser, top));
    assert_eq!(browser.main_content, MainContent::Playlist);
    assert_eq!(browser.pending_playlist_scroll_position, Some(left));
    assert!(back(&mut browser, left));
    assert_eq!(browser.main_content, MainContent::Search);
    assert_eq!(browser.search_category, SearchCategory::Albums);
    assert!(back(&mut browser, top));
    assert_eq!(browser.main_content, MainContent::Home);
    assert!(!back(&mut browser, top));
    let forward = browser.step_forward(top).unwrap();
    browser.apply_navigation_page(forward);
    assert_eq!(browser.main_content, MainContent::Search);
    browser.reset();
    assert_eq!(browser.main_content, MainContent::Home);
    assert!(browser.step_forward(top).is_none());
}

#[test]
fn a_blank_search_leads_nowhere() {
    assert!(search_page(" \u{3000}", None).is_none());
}

#[test]
fn a_remembered_position_waits_for_its_row() {
    let position = PlaylistScrollPosition {
        row: 40,
        offset_y: 7,
    };
    let mut pending = Some(position);
    assert_eq!(restore_scroll_position(&mut pending, 30, true), None);
    assert_eq!(pending, Some(position));
    assert_eq!(
        restore_scroll_position(&mut pending, 60, true),
        Some(ScrollTarget::Offset(7))
    );
    assert_eq!(pending, None);
    assert_eq!(restore_scroll_position(&mut pending, 60, true), None);
    pending = Some(position);
    assert_eq!(
        restore_scroll_position(&mut pending, 10, false),
        Some(ScrollTarget::Row(9))
    );
}

#[test]
fn a_browser_starts_with_the_first_page_of_each_category() {
    let browser = Browser::new(10);
    assert_eq!(browser.main_content, MainContent::Home);
    assert_eq!(browser.search_category, SearchCategory::Songs);
    for category in [
        SearchCategory::Songs,
        SearchCategory::Artists,
        SearchCategory::Albums,
        SearchCategory::Playlists,
    ] {
        assert_eq!(browser.search_visible_counts.get(category), SEARCH_PAGE_SIZE);
    }
}

#[test]
fn handles_are_gathered_by_what_the_test_answers() {
    let handles: Vec<Arc<u8>> = [1, 2, 1, 3, 2].into_iter().map(Arc::new).collect();
    let by_value = |a: &Arc<u8>, b: &Arc<u8>| **a == **b;
    let values = |kept: Vec<Arc<u8>>| kept.iter().map(|handle| **handle).collect::<Vec<_>>();
    assert_eq!(values(gather_once(handles.clone(), &by_value)), [1, 2, 3]);
    assert_eq!(
        values(gather_once(handles.clone(), &|_: &Arc<u8>, _: &Arc<u8>| false)),
        [1, 2, 1, 3, 2]
    );
    assert_eq!(
        values(gather_onto(vec![Arc::new(3)], handles.clone(), &by_value)),
        [3, 1, 2]
    );
    let mut list = vec![Arc::new(5)];
    add_unless(&mut list, Arc::new(5), &by_value);
    add_unless(&mut list, Arc::new(6), &by_value);
    assert_eq!(values(list), [5, 6]);
    assert_eq!(
        mark_same(&handles, &Some(Arc::new(1)), &by_value),
        [true, false, true, false, false]
    );
    assert_eq!(mark_same(&handles, &None, &by_value), [false; 5]);
}
