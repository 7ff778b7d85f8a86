//! Which page is shown, and how pages follow one another.

use crate::catalog::{ArtistCard, PlaylistCard, SearchArtist, UserPlaylist};
use crate::navigation::{
    share_option, NavigationHistory, NavigationPage, Page, PlaylistScrollPosition, Trail,
};
use crate::pages::ARTIST_PAGE_SIZE;
use crate::resources::{
    ArtistResource, PlaylistResource, SearchCategory, SearchResource, SearchVisibleCounts, SEARCH_PAGE_SIZE};
use crate::scan::{trim, trimmed};
use crate::text::{from_chars, to_chars};
use std::sync::{Arc, Mutex};
use vstd::prelude::*;

verus! {

#[derive(Clone, Copy, Debug, PartialEq, Eq, Structural)]
pub enum MainContent {
    Home,
    Search,
    Artist,
    Playlist,
    Settings,
}

/// The state of the pages.
#[derive(Debug)]
pub struct Browser {
    pub main_content: MainContent,
    pub search_query: String,
    pub search_category: SearchCategory,
    pub search_visible_counts: SearchVisibleCounts,
    pub search_resource: Option<Arc<Mutex<SearchResource>>>,
    pub selected_artist: Option<SearchArtist>,
    pub artist_resource: Option<Arc<Mutex<ArtistResource>>>,
    pub artist_visible_song_count: usize,
    pub artist_visible_album_count: usize,
    pub selected_playlist: Option<UserPlaylist>,
    pub selected_playlist_index: Option<usize>,
    pub selected_playlist_resource: Option<Arc<Mutex<PlaylistResource>>>,
    pub pending_playlist_scroll_position: Option<PlaylistScrollPosition>,
    pub playlist_force_refresh: bool,
    pub navigation_history: NavigationHistory,
}

/// What a `Browser` says of its page.
pub struct Shown {
    pub main_content: MainContent,
    pub search_query: Seq<char>,
    pub search_category: SearchCategory,
    pub search_visible_counts: SearchVisibleCounts,
    pub search_resource: Option<Arc<Mutex<SearchResource>>>,
    pub selected_artist: Option<ArtistCard>,
    pub artist_resource: Option<Arc<Mutex<ArtistResource>>>,
    pub artist_visible_song_count: usize,
    pub artist_visible_album_count: usize,
    pub selected_playlist: Option<PlaylistCard>,
    pub selected_playlist_index: Option<usize>,
    pub selected_playlist_resource: Option<Arc<Mutex<PlaylistResource>>>,
    pub pending_playlist_scroll_position: Option<PlaylistScrollPosition>,
    pub playlist_force_refresh: bool,
}

impl View for Browser {
    type V = Shown;

    open spec fn view(&self) -> Shown {
        Shown {
            main_content: self.main_content,
            search_query: self.search_query@,
            search_category: self.search_category,
            search_visible_counts: self.search_visible_counts,
            search_resource: self.search_resource,
            selected_artist: match self.selected_artist {
                Some(artist) => Some(artist@),
                None => None,
            },
            artist_resource: self.artist_resource,
            artist_visible_song_count: self.artist_visible_song_count,
            artist_visible_album_count: self.artist_visible_album_count,
            selected_playlist: match self.selected_playlist {
                Some(playlist) => Some(playlist@),
                None => None,
            },
            selected_playlist_index: self.selected_playlist_index,
            selected_playlist_resource: self.selected_playlist_resource,
            pending_playlist_scroll_position: self.pending_playlist_scroll_position,
            playlist_force_refresh: self.playlist_force_refresh,
        }
    }
}

impl Shown {
    /// What is shown once all pages were forgotten: the home page.
    pub open spec fn forgotten(self) -> Shown {
        Shown {
            main_content: MainContent::Home,
            search_resource: None,
            selected_artist: None,
            artist_resource: None,
            selected_playlist_index: None,
            selected_playlist: None,
            selected_playlist_resource: None,
            ..self
        }
    }

    /// The page that is shown, where a playlist is scrolled to `scroll`.
    pub open spec fn page(self, scroll: PlaylistScrollPosition) -> Option<Page> {
        match self.main_content {
            MainContent::Home => Some(Page::Home),
            MainContent::Settings => Some(Page::Settings),
            MainContent::Search => Some(
                Page::Search {
                    query: self.search_query,
                    category: self.search_category,
                    visible_counts: self.search_visible_counts,
                    resource: self.search_resource,
                },
            ),
            MainContent::Artist => match self.selected_artist {
                Some(artist) => Some(
                    Page::Artist {
                        artist,
                        visible_song_count: self.artist_visible_song_count,
                        visible_album_count: self.artist_visible_album_count,
                        resource: self.artist_resource,
                    },
                ),
                None => None,
            },
            MainContent::Playlist => match self.selected_playlist {
                Some(playlist) => Some(
                    Page::Playlist {
                        playlist,
                        selected_index: self.selected_playlist_index,
                        scroll_position: scroll,
                        resource: self.selected_playlist_resource,
                    },
                ),
                None => None,
            },
        }
    }

    /// The state with `page` on show. What other pages had loaded is let go.
    pub open spec fn with_page(self, page: Page) -> Shown {
        match page {
            Page::Home => Shown {
                main_content: MainContent::Home,
                search_resource: None,
                artist_resource: None,
                selected_playlist_resource: None,
                ..self
            },
            Page::Settings => Shown {
                main_content: MainContent::Settings,
                search_resource: None,
                artist_resource: None,
                selected_playlist_resource: None,
                ..self
            },
            Page::Search { query, category, visible_counts, resource } => Shown {
                main_content: MainContent::Search,
                search_query: query,
                search_category: category,
                search_visible_counts: visible_counts,
                search_resource: resource,
                artist_resource: None,
                selected_playlist_resource: None,
                ..self
            },
            Page::Artist { artist, visible_song_count, visible_album_count, resource } => Shown {
                main_content: MainContent::Artist,
                selected_artist: Some(artist),
                artist_visible_song_count: visible_song_count,
                artist_visible_album_count: visible_album_count,
                artist_resource: resource,
                search_resource: None,
                selected_playlist_resource: None,
                ..self
            },
            Page::Playlist { playlist, selected_index, scroll_position, resource } => Shown {
                main_content: MainContent::Playlist,
                selected_playlist: Some(playlist),
                selected_playlist_index: selected_index,
                pending_playlist_scroll_position: Some(scroll_position),
                selected_playlist_resource: resource,
                playlist_force_refresh: false,
                search_resource: None,
                artist_resource: None,
                ..self
            },
        }
    }
}

/// A page that is put on show is the page that is shown: with its query, its counts,
/// its loaded results and, once the list is there, its exact scroll position.
pub proof fn page_on_show_is_current(shown: Shown, page: Page, scroll: PlaylistScrollPosition)
    requires
        page matches Page::Playlist { scroll_position, .. } ==> scroll == scroll_position,
    ensures
        shown.with_page(page).page(scroll) == Some(page),
        page matches Page::Playlist { scroll_position, .. } ==> shown.with_page(
            page,
        ).pending_playlist_scroll_position == Some(scroll_position),
{
}

impl Browser {
    /// Home is shown, and nothing has been visited.
    pub fn new(history_limit: usize) -> (browser: Self)
        ensures
            browser@.main_content == MainContent::Home,
            browser@.search_query.len() == 0,
            browser@.search_category == SearchCategory::Songs,
            forall|category: SearchCategory| #[trigger]
                browser@.search_visible_counts.count(category) == SEARCH_PAGE_SIZE,
            browser@.search_resource is None,
            browser@.selected_artist is None,
            browser@.artist_resource is None,
            browser@.artist_visible_song_count == ARTIST_PAGE_SIZE,
            browser@.artist_visible_album_count == ARTIST_PAGE_SIZE,
            browser@.selected_playlist is None,
            browser@.selected_playlist_index is None,
            browser@.selected_playlist_resource is None,
            browser@.pending_playlist_scroll_position is None,
            !browser@.playlist_force_refresh,
            browser.navigation_history.wf(),
            browser.navigation_history@.back.len() == 0,
            browser.navigation_history@.forward.len() == 0,
            browser.navigation_history.limit == (if history_limit < 1 {
                1
            } else {
                history_limit
            }),
    {
        Browser {
            main_content: MainContent::Home,
            search_query: String::new(),
            search_category: SearchCategory::Songs,
            search_visible_counts: SearchVisibleCounts::default(),
            search_resource: None,
            selected_artist: None,
            artist_resource: None,
            artist_visible_song_count: ARTIST_PAGE_SIZE,
            artist_visible_album_count: ARTIST_PAGE_SIZE,
            selected_playlist: None,
            selected_playlist_index: None,
            selected_playlist_resource: None,
            pending_playlist_scroll_position: None,
            playlist_force_refresh: false,
            navigation_history: NavigationHistory::new(history_limit),
        }
    }

    pub fn current_navigation_page(&self, scroll: PlaylistScrollPosition) -> (page: Option<
        NavigationPage,
    >)
        ensures
            match page {
                Some(page) => self@.page(scroll) == Some(page@),
                None => self@.page(scroll) is None,
            },
    {
        match self.main_content {
            MainContent::Home => Some(NavigationPage::Home),
            MainContent::Settings => Some(NavigationPage::Settings),
            MainContent::Search => Some(
                NavigationPage::Search {
                    query: self.search_query.clone(),
                    category: self.search_category,
                    visible_counts: self.search_visible_counts,
                    resource: share_option(&self.search_resource),
                },
            ),
            MainContent::Artist => match &self.selected_artist {
                Some(artist) => Some(
                    NavigationPage::Artist {
                        artist: artist.clone(),
                        visible_song_count: self.artist_visible_song_count,
                        visible_album_count: self.artist_visible_album_count,
                        resource: share_option(&self.artist_resource),
                    },
                ),
                None => None,
            },
            MainContent::Playlist => match &self.selected_playlist {
                Some(playlist) => Some(
                    NavigationPage::Playlist {
                        playlist: playlist.clone(),
                        selected_index: self.selected_playlist_index,
                        scroll_position: scroll,
                        resource: share_option(&self.selected_playlist_resource),
                    },
                ),
                None => None,
            },
        }
    }

    /// Puts a page on show.
    /// Puts a page on show, with the handle that it holds.
    pub fn apply_navigation_page(&mut self, page: NavigationPage)
        ensures
            final(self)@ == old(self)@.with_page(page@),
            final(self).navigation_history == old(self).navigation_history,
    {
        match page {
            NavigationPage::Home => {
                self.main_content = MainContent::Home;
                self.search_resource = None;
                self.artist_resource = None;
                self.selected_playlist_resource = None;
            },
            NavigationPage::Settings => {
                self.main_content = MainContent::Settings;
                self.search_resource = None;
                self.artist_resource = None;
                self.selected_playlist_resource = None;
            },
            NavigationPage::Search { query, category, visible_counts, resource } => {
                self.main_content = MainContent::Search;
                self.search_query = query;
                self.search_category = category;
                self.search_visible_counts = visible_counts;
                self.search_resource = resource;
                self.artist_resource = None;
                self.selected_playlist_resource = None;
            },
            NavigationPage::Artist {
                artist,
                visible_song_count,
                visible_album_count,
                resource,
            } => {
                self.main_content = MainContent::Artist;
                self.selected_artist = Some(artist);
                self.artist_visible_song_count = visible_song_count;
                self.artist_visible_album_count = visible_album_count;
                self.artist_resource = resource;
                self.search_resource = None;
                self.selected_playlist_resource = None;
            },
            NavigationPage::Playlist { playlist, selected_index, scroll_position, resource } => {
                self.open_playlist(playlist, selected_index, false, scroll_position, resource);
            },
        }
    }

    /// Puts a playlist on show.
    pub fn open_playlist(
        &mut self,
        playlist: UserPlaylist,
        selected_index: Option<usize>,
        force_refresh: bool,
        scroll_position: PlaylistScrollPosition,
        resource: Option<Arc<Mutex<PlaylistResource>>>,
    )
        ensures
            final(self)@ == (Shown {
                playlist_force_refresh: force_refresh,
                ..old(self)@.with_page(
                    Page::Playlist {
                        playlist: playlist@,
                        selected_index,
                        scroll_position,
                        resource,
                    },
                )
            }),
            final(self).navigation_history == old(self).navigation_history,
    {
        self.main_content = MainContent::Playlist;
        self.search_resource = None;
        self.artist_resource = None;
        self.playlist_force_refresh = force_refresh;
        self.selected_playlist_index = selected_index;
        self.pending_playlist_scroll_position = Some(scroll_position);
        self.selected_playlist_resource = resource;
        self.selected_playlist = Some(playlist);
    }

    /// Remembers the page on show, before another one takes its place.
    pub fn leave_for(&mut self, target: &NavigationPage, scroll: PlaylistScrollPosition)
        requires
            old(self).navigation_history.wf(),
        ensures
            final(self)@ == old(self)@,
            final(self).navigation_history.wf(),
            final(self).navigation_history.limit == old(self).navigation_history.limit,
            exists|current: Option<NavigationPage>|
                is_current_page(old(self)@, scroll, current)
                    && #[trigger] old(self).navigation_history@.recorded(
                    current,
                    *target,
                    old(self).navigation_history.limit as int,
                ) == final(self).navigation_history@,
    {
        let current = self.current_navigation_page(scroll);
        assert(is_current_page(self@, scroll, current));
        self.navigation_history.record(current, target);
    }

    /// Steps back a page in the trail, and gives the page to show.
    pub fn step_back(&mut self, scroll: PlaylistScrollPosition) -> (target: Option<
        NavigationPage,
    >)
        requires
            old(self).navigation_history.wf(),
        ensures
            final(self)@ == old(self)@,
            final(self).navigation_history.wf(),
            final(self).navigation_history.limit == old(self).navigation_history.limit,
            match target {
                Some(page) => old(self).navigation_history@.back.len() > 0 && page == old(
                    self,
                ).navigation_history@.back.last() && exists|current: Option<NavigationPage>|
                    is_current_page(old(self)@, scroll, current)
                        && #[trigger] old(self).navigation_history@.gone_back(current)
                        == final(self).navigation_history@,
                None => old(self).navigation_history@.back.len() == 0
                    && final(self).navigation_history@ == old(self).navigation_history@,
            },
    {
        let current = self.current_navigation_page(scroll);
        assert(is_current_page(self@, scroll, current));
        self.navigation_history.go_back(current)
    }

    /// Steps forward a page in the trail, and gives the page to show.
    pub fn step_forward(&mut self, scroll: PlaylistScrollPosition) -> (target: Option<
        NavigationPage,
    >)
        requires
            old(self).navigation_history.wf(),
        ensures
            final(self)@ == old(self)@,
            final(self).navigation_history.wf(),
            final(self).navigation_history.limit == old(self).navigation_history.limit,
            match target {
                Some(page) => old(self).navigation_history@.forward.len() > 0 && page == old(
                    self,
                ).navigation_history@.forward.last() && exists|current: Option<NavigationPage>|
                    is_current_page(old(self)@, scroll, current)
                        && #[trigger] old(self).navigation_history@.gone_forward(current)
                        == final(self).navigation_history@,
                None => old(self).navigation_history@.forward.len() == 0
                    && final(self).navigation_history@ == old(self).navigation_history@,
            },
    {
        let current = self.current_navigation_page(scroll);
        assert(is_current_page(self@, scroll, current));
        self.navigation_history.go_forward(current)
    }

    /// Forgets all pages, as when the listener signs out.
    pub fn reset(&mut self)
        ensures
            final(self)@ == old(self)@.forgotten(),
            final(self).navigation_history.limit == old(self).navigation_history.limit,
            final(self).navigation_history@.back.len() == 0,
            final(self).navigation_history@.forward.len() == 0,
            old(self).navigation_history.wf() ==> final(self).navigation_history.wf(),
    {
        self.main_content = MainContent::Home;
        self.navigation_history.clear();
        self.search_resource = None;
        self.selected_artist = None;
        self.artist_resource = None;
        self.selected_playlist_index = None;
        self.selected_playlist = None;
        self.selected_playlist_resource = None;
    }
}

/// `page` is the page that is shown.
pub open spec fn is_current_page(
    shown: Shown,
    scroll: PlaylistScrollPosition,
    page: Option<NavigationPage>,
) -> bool {
    match page {
        Some(page) => shown.page(scroll) == Some(page@),
        None => shown.page(scroll) is None,
    }
}

/// Going back from a new page shows the page that was shown before it, as it was.
pub proof fn going_back_shows_the_page_before(
    shown: Shown,
    trail: Trail,
    current: NavigationPage,
    target: NavigationPage,
    limit: int,
    scroll: PlaylistScrollPosition,
)
    requires
        limit >= 2,
        is_current_page(shown, scroll, Some(current)),
        current.destination() != target.destination(),
    ensures
        ({
            let behind = trail.recorded(Some(current), target, limit).back;
            &&& behind.len() > 0
            &&& shown.with_page(target@).with_page(behind.last()@).page(scroll) == shown.page(scroll)
        }),
{
    crate::navigation::new_page_clears_what_lay_ahead(trail, current, target, limit);
    page_on_show_is_current(shown.with_page(target@), current@, scroll);
}

/// The page for a typed search: none for a blank one.
pub open spec fn typed_query(text: Seq<char>) -> Option<Seq<char>> {
    if trim(text).len() == 0 {
        None
    } else {
        Some(trim(text))
    }
}

/// The page that searches for what was typed.
pub fn search_page(text: &str, resource: Option<Arc<Mutex<SearchResource>>>) -> (page: Option<
    NavigationPage,
>)
    ensures
        match (page, typed_query(text@)) {
            (Some(page), Some(query)) => page@ matches Page::Search {
                query: searched,
                category,
                visible_counts,
                resource: held,
            } && searched == query && category == SearchCategory::Songs && held == resource && (
            forall|c: SearchCategory| #[trigger]
                visible_counts.count(c) == SEARCH_PAGE_SIZE),
            (None, None) => true,
            _ => false,
        },
{
    let chars = to_chars(text);
    let query = trimmed(chars.as_slice());
    if query.len() == 0 {
        return None;
    }
    Some(
        NavigationPage::Search {
            query: from_chars(query),
            category: SearchCategory::Songs,
            visible_counts: SearchVisibleCounts::default(),
            resource,
        },
    )
}

/// The page of an artist, with the first songs and albums on show.
pub fn artist_page(artist: SearchArtist, resource: Option<Arc<Mutex<ArtistResource>>>) -> (page:
    NavigationPage)
    ensures
        page@ == (Page::Artist {
            artist: artist@,
            visible_song_count: ARTIST_PAGE_SIZE,
            visible_album_count: ARTIST_PAGE_SIZE,
            resource,
        }),
{
    NavigationPage::Artist {
        artist,
        visible_song_count: ARTIST_PAGE_SIZE,
        visible_album_count: ARTIST_PAGE_SIZE,
        resource,
    }
}

/// The page of a playlist, from its top on.
pub fn playlist_page(
    playlist: UserPlaylist,
    selected_index: Option<usize>,
    resource: Option<Arc<Mutex<PlaylistResource>>>,
) -> (page: NavigationPage)
    ensures
        page@ == (Page::Playlist {
            playlist: playlist@,
            selected_index,
            scroll_position: (PlaylistScrollPosition { row: 0, offset_y: 0 }),
            resource,
        }),
{
    NavigationPage::Playlist {
        playlist,
        selected_index,
        scroll_position: PlaylistScrollPosition::top(),
        resource,
    }
}

/// A search is for what was typed without the whitespace around it, and a blank one for
/// nothing.
pub proof fn searches_are_for_what_was_typed(text: Seq<char>)
    ensures
        typed_query(text) is None <==> trim(text).len() == 0,
        typed_query(text) matches Some(query) ==> query.len() > 0 && query == trim(text)
            && typed_query(query) == Some(query),
{
    crate::scan::trim_leaves_no_outer_whitespace(text);
}

/// What was loaded for other pages is let go when a page is put on show, and forgetting
/// all pages leads home.
pub proof fn other_pages_are_let_go(shown: Shown, page: Page)
    ensures
        !(page is Search) ==> shown.with_page(page).search_resource is None,
        !(page is Artist) ==> shown.with_page(page).artist_resource is None,
        !(page is Playlist) ==> shown.with_page(page).selected_playlist_resource is None,
        shown.forgotten().main_content == MainContent::Home,
        shown.forgotten().search_resource is None && shown.forgotten().artist_resource is None
            && shown.forgotten().selected_playlist_resource is None,
        shown.forgotten().selected_artist is None && shown.forgotten().selected_playlist is None,
{
}

} // verus!
