//! All that the player holds for a listener, and what takes several parts of it at once:
//! choosing a track, taking in recommendations, signing out.

use crate::account::{Account, AccountAction, AccountState};
use crate::browser::{is_current_page, Browser, MainContent, Shown};
use crate::catalog::{
    track_place, with_liked_count, PlaylistKey, Quality, Track, UserPlaylist, UserPlaylistId, UserProfile,
};
use crate::directory::{liked_counted, LibraryCache};
use crate::library::{PlaylistListDelegate, TrackTableDelegate};
use crate::library_load::{apply_library, take_restore, LibraryShown, LibraryState};
use crate::likes::{LikeState, TrackLikes};
use crate::loading::{PlaybackLocation, StatusMessage};
use crate::navigation::{
    restore_scroll_position, scroll_target, NavigationPage, Page, PlaylistScrollPosition,
    ScrollTarget,
};
use crate::number::{numeral, zero_padded};
use crate::page_cache::{
    is_resolved, pages_come_back_with_a_handle, resolve_page, LoadedPage, PageName,
    PageResourceCache, SharedPage,
};
use crate::pages::HomeState;
use crate::playback::{next_count, AudioStatus, Playback};
use crate::queue::PlaybackQueue;
use crate::resources::PlaylistResource;
use crate::session::{
    marked_row, queue_replaced, restore_playback_queue, select_from_list, selected,
    sync_table_playback_state, QueueRest, Selection,
};
use crate::settings::{
    typed_limit, AppSettings, PersistedLibraryView, PersistedPlayback,
    MAX_NAVIGATION_HISTORY_LIMIT,
};
use crate::time::Duration;
use crate::views::player::Menus;
use std::sync::{Arc, Mutex};
use vstd::prelude::*;

verus! {

/// What is to be loaded for a page.
#[derive(Clone, Copy, Debug, PartialEq, Eq, Structural)]
pub enum PageNeeds {
    Nothing,
    Home,
    /// The results of the search, unless they are there.
    Search,
    /// The songs and albums of the artist, as far as they are missing.
    Artist,
    /// The playlist, as far as it is missing.
    Playlist,
}

/// What a like or an unlike changed in a loaded list: nothing, or what it shows now.
#[derive(Debug)]
pub struct ListChange {
    /// The list is the one on show.
    pub shown: bool,
    pub change: Option<(UserPlaylist, Vec<Arc<Track>>, bool)>,
}

/// What changed in the list on show; the last one counts.
pub open spec fn shown_change(changes: Seq<ListChange>) -> Option<
    (UserPlaylist, Vec<Arc<Track>>, bool),
>
    decreases changes.len(),
{
    if changes.len() == 0 {
        None
    } else if changes.last().shown {
        changes.last().change
    } else {
        shown_change(changes.drop_last())
    }
}

fn take_shown_change(changes: Vec<ListChange>) -> (change: Option<
    (UserPlaylist, Vec<Arc<Track>>, bool),
>)
    ensures
        change == shown_change(changes@),
{
    let mut rest = changes;
    while rest.len() > 0
        invariant
            shown_change(changes@) == shown_change(rest@),
        decreases rest.len(),
    {
        if let Some(last) = rest.pop() {
            if last.shown {
                return last.change;
            }
        }
    }
    None
}

/// The account that pages are kept for; pages without one are kept for none.
pub open spec fn account_or_none(account: Option<u64>) -> u64 {
    match account {
        Some(account) => account,
        None => 0,
    }
}

/// The row is the one that is meant.
pub open spec fn is_row(row: Option<usize>, meant: Option<int>) -> bool {
    match row {
        Some(row) => meant == Some(row as int),
        None => meant is None,
    }
}

/// What the player holds for a listener.
#[derive(Debug)]
pub struct Listening<H> {
    pub account: Account,
    pub profile: Option<UserProfile>,
    pub library: LibraryState,
    pub home: HomeState,
    pub browser: Browser,
    pub pages: PageResourceCache<H>,
    pub playlists: PlaylistListDelegate,
    pub table: TrackTableDelegate,
    pub likes: TrackLikes,
    pub playback: Playback,
    pub queue: Option<PlaybackQueue>,
    pub location: Option<PlaybackLocation>,
    pub available_qualities: Vec<Quality>,
    pub menus: Menus,
    /// What is taken up again once the library is there.
    pub pending_restore: Option<PersistedPlayback>,
    /// What is kept of playback for the next run.
    pub kept: Option<PersistedPlayback>,
}

impl<H> Listening<H> {
    /// Nothing is left of what the listener loaded, liked, played and looked at.
    pub open spec fn is_blank(self) -> bool {
        &&& self.profile is None
        &&& self.queue is None && self.location is None
        &&& self.available_qualities@.len() == 0
        &&& self.pending_restore is None && self.kept is None
        &&& self.home.playlists@.len() == 0
        &&& self.playlists@.len() == 0 && self.playlists.selected_index is None
        &&& self.table.tracks@.len() == 0 && !self.table.loading && !self.table.has_more
        &&& self.table.playing_index is None && self.table.loading_index is None
        &&& !self.table.playback_active && !self.table.show_liked_actions
        &&& forall|mid: Seq<char>| #[trigger] self.likes.of(mid) == (LikeState {
            liked: None,
            state_loading: false,
            toggle_loading: false,
        })
        &&& forall|name: PageName| #[trigger] self.pages.holds(name) is None
        &&& self.browser@.main_content == MainContent::Home
        &&& self.browser@.selected_playlist is None && self.browser@.selected_artist is None
        &&& self.browser@.search_resource is None && self.browser@.artist_resource is None
            && self.browser@.selected_playlist_resource is None
        &&& self.browser.navigation_history@.back.len() == 0
            && self.browser.navigation_history@.forward.len() == 0
        &&& self.playback@.current_track is None && self.playback@.loading_track is None
            && !self.playback@.playback_started && self.playback@.position == 0
        &&& !self.menus.account_open && !self.playback@.quality_menu_open
    }

    /// All is as before, but for the queue, the state of playback, and what was to take
    /// the place of the queue.
    pub open spec fn only_queue_differs(self, before: Listening<H>) -> bool {
        self == (Listening {
            playback: self.playback,
            queue: self.queue,
            pending_restore: self.pending_restore,
            home: HomeState {
                recommendation_loading: self.home.recommendation_loading,
                ..before.home
            },
            ..before
        })
    }

    /// Whatever was asked for before is answered too late now.
    pub open spec fn is_later_than(self, before: Listening<H>) -> bool {
        &&& self.account.login_generation != before.account.login_generation
        &&& self.library.generation != before.library.generation
        &&& self.home.generation != before.home.generation
        &&& self.playback@.queue_generation != before.playback@.queue_generation
        &&& self.playback@.play_generation != before.playback@.play_generation
    }

    /// Chooses the track at `index` of the list on show. Does nothing where there is no
    /// such track or no playlist is on show.
    pub fn select_track(
        &mut self,
        index: usize,
        page_offset: Option<u64>,
        signed_in: bool,
        client: bool,
    ) -> (chosen: (Selection, Option<QueueRest>))
        ensures
            final(self).only_queue_differs(*old(self)),
            if index >= old(self).table.tracks@.len() || old(self).browser.selected_playlist
                is None {
                chosen.0 is Nothing && chosen.1 is None && *final(self) == *old(self)
            } else {
                let playlist = old(self).browser.selected_playlist.unwrap();
                let wish = selected(
                    old(self).playback@,
                    old(self).queue,
                    playlist.id@,
                    old(self).table.tracks@[index as int].mid@,
                );
                if wish is Replace {
                    &&& chosen.0 == Selection::Start(index)
                    &&& final(self).playback@ == queue_replaced(old(self).playback@)
                    &&& final(self).pending_restore is None
                    &&& final(self).home.recommendation_loading is None
                    &&& final(self).queue is Some
                    &&& final(self).queue.unwrap().playlist_id@ == playlist.id@
                    &&& final(self).queue.unwrap().tracks@ == old(self).table.tracks@
                    &&& !final(self).queue.unwrap().modified
                    &&& final(self).queue.unwrap().continuation is None
                    &&& (chosen.1 is Some <==> old(self).table.has_more && signed_in && client)
                    &&& chosen.1 matches Some(rest) ==> rest.begins(
                        final(self).playback@.queue_generation,
                        match page_offset {
                            Some(offset) => offset,
                            None => old(self).table.tracks@.len() as u64,
                        },
                    )
                } else {
                    &&& chosen.0 == wish && chosen.1 is None
                    &&& final(self).playback@ == old(self).playback@
                    &&& final(self).queue == old(self).queue
                    &&& final(self).pending_restore == old(self).pending_restore
                    &&& final(self).home == old(self).home
                }
            },
    {
        if index >= self.table.tracks.len() {
            return (Selection::Nothing, None);
        }
        match &self.browser.selected_playlist {
            None => (Selection::Nothing, None),
            Some(playlist) => select_from_list(
                &mut self.playback,
                &mut self.queue,
                &mut self.pending_restore,
                &mut self.home.recommendation_loading,
                &playlist.id,
                &self.table.tracks,
                index,
                self.table.has_more,
                page_offset,
                signed_in,
                client,
            ),
        }
    }

    /// Marks the rows of the list on show whose tracks play and load.
    pub fn mark_rows(&mut self, audio: Option<AudioStatus>)
        ensures
            *final(self) == (Listening {
                table: TrackTableDelegate {
                    playing_index: final(self).table.playing_index,
                    loading_index: final(self).table.loading_index,
                    playback_active: audio is Some && audio.unwrap().playing,
                    ..old(self).table
                },
                ..*old(self)
            }),
            is_row(
                final(self).table.playing_index,
                marked_row(
                    old(self).queue,
                    old(self).playback@.current_track,
                    old(self).table.tracks@,
                ),
            ),
            is_row(
                final(self).table.loading_index,
                marked_row(
                    old(self).queue,
                    old(self).playback@.loading_track,
                    old(self).table.tracks@,
                ),
            ),
    {
        let (playing, loading) = sync_table_playback_state(
            &self.playback,
            &self.queue,
            &self.table.tracks,
        );
        let active: bool = match audio {
            Some(audio) => audio.playing,
            None => false,
        };
        self.table.set_playback_state(playing, loading, active);
    }

    /// Puts a playlist on show, before anything of it is known to be loaded.
    pub fn open_playlist(
        &mut self,
        playlist: UserPlaylist,
        selected_index: Option<usize>,
        force_refresh: bool,
        scroll_position: PlaylistScrollPosition,
        resource: Option<Arc<Mutex<PlaylistResource>>>,
    )
        ensures
            *final(self) == (Listening {
                browser: final(self).browser,
                playlists: final(self).playlists,
                table: final(self).table,
                ..*old(self)
            }),
            final(self).browser@ == (Shown {
                playlist_force_refresh: force_refresh,
                ..old(self).browser@.with_page(
                    Page::Playlist {
                        playlist: playlist@,
                        selected_index,
                        scroll_position,
                        resource,
                    },
                )
            }),
            final(self).browser.navigation_history == old(self).browser.navigation_history,
            final(self).playlists.playlists == old(self).playlists.playlists,
            final(self).playlists.selected_index == (match selected_index {
                Some(index) => Some(index),
                None => old(self).playlists.selected_index,
            }),
            final(self).table.wf() && final(self).table.compact == old(self).table.compact,
            final(self).table.tracks@.len() == 0,
            final(self).table.loading && !final(self).table.has_more,
            final(self).table.playing_index is None && final(self).table.loading_index is None,
            !final(self).table.playback_active,
            final(self).table.show_liked_actions == (playlist.id@ == PlaylistKey::Liked),
    {
        let liked: bool = match &playlist.id {
            UserPlaylistId::Liked => true,
            _ => false,
        };
        self.browser.open_playlist(
            playlist,
            selected_index,
            force_refresh,
            scroll_position,
            resource,
        );
        if let Some(index) = selected_index {
            self.playlists.set_selected(index);
        }
        self.table.reset(liked);
    }

    /// `page` has been put on show, with its own handle or the one that is shared for it,
    /// and `needs` is what is to be loaded for it.
    pub open spec fn shows<
        U: Fn(&H) -> Option<SharedPage>,
        W: FnOnce(LoadedPage) -> (SharedPage, H),
    >(
        self,
        before: Listening<H>,
        page: Page,
        account: Option<u64>,
        upgrade: U,
        wrap: W,
        needs: PageNeeds,
    ) -> bool {
        &&& self == (Listening {
            browser: self.browser,
            pages: self.pages,
            playlists: self.playlists,
            table: self.table,
            ..before
        })
        &&& exists|resolved: Page| #[trigger]
            is_resolved(
                before.pages,
                self.pages,
                page,
                resolved,
                account_or_none(account),
                upgrade,
                wrap,
            ) && self.browser@ == before.browser@.with_page(resolved)
        &&& self.playlists.playlists == before.playlists.playlists
        &&& match page {
            Page::Playlist { playlist, selected_index, .. } => {
                &&& needs is Playlist
                &&& self.browser@.selected_playlist_resource is Some
                &&& self.playlists.selected_index == selected_index
                &&& self.table.wf() && self.table.compact == before.table.compact
                &&& self.table.tracks@.len() == 0
                &&& self.table.loading && !self.table.has_more
                &&& self.table.playing_index is None && self.table.loading_index is None
                &&& !self.table.playback_active
                &&& self.table.show_liked_actions == (playlist.key == PlaylistKey::Liked)
            },
            other => {
                &&& self.table == before.table
                &&& self.playlists.selected_index is None
                &&& match other {
                    Page::Home => needs == (if before.home.loaded || before.home.loading {
                        PageNeeds::Nothing
                    } else {
                        PageNeeds::Home
                    }),
                    Page::Search { .. } => needs == PageNeeds::Search
                        && self.browser@.search_resource is Some,
                    Page::Artist { .. } => needs == PageNeeds::Artist
                        && self.browser@.artist_resource is Some,
                    _ => needs == PageNeeds::Nothing,
                }
            },
        }
    }

    /// Puts a page on show. A page without a handle to what is known of it gets the one
    /// that is shared for it. Gives what is to be loaded for the page.
    pub fn show_page<
        U: Fn(&H) -> Option<SharedPage>,
        W: FnOnce(LoadedPage) -> (SharedPage, H),
    >(
        &mut self,
        page: NavigationPage,
        account: Option<u64>,
        upgrade: &U,
        wrap: W,
    ) -> (needs: PageNeeds)
        requires
            old(self).pages.wf(),
            forall|handle: &H| #[trigger] upgrade.requires((handle,)),
            forall|empty: LoadedPage| #[trigger] wrap.requires((empty,)),
            forall|empty: LoadedPage, made: (SharedPage, H)| #[trigger]
                wrap.ensures((empty,), made) ==> empty.is_shared_as(made.0),
        ensures
            final(self).pages.wf(),
            final(self).browser.navigation_history == old(self).browser.navigation_history,
            final(self).shows(*old(self), page@, account, *upgrade, wrap, needs),
    {
        let owner: u64 = match account {
            Some(account) => account,
            None => 0,
        };
        let ghost asked = page@;
        let page = resolve_page(&mut self.pages, page, owner, upgrade, wrap);
        let ghost resolved = page@;
        self.playlists.selected_index = None;
        let needs = match page {
            NavigationPage::Playlist { playlist, selected_index, scroll_position, resource } => {
                self.open_playlist(playlist, selected_index, false, scroll_position, resource);
                PageNeeds::Playlist
            },
            page => {
                let needs = match &page {
                    NavigationPage::Home => if self.home.loaded || self.home.loading {
                        PageNeeds::Nothing
                    } else {
                        PageNeeds::Home
                    },
                    NavigationPage::Search { .. } => PageNeeds::Search,
                    NavigationPage::Artist { .. } => PageNeeds::Artist,
                    _ => PageNeeds::Nothing,
                };
                self.browser.apply_navigation_page(page);
                needs
            },
        };
        assert(self.browser@ == old(self).browser@.with_page(resolved));
        assert(is_resolved(
            old(self).pages,
            self.pages,
            asked,
            resolved,
            account_or_none(account),
            *upgrade,
            wrap,
        ));
        needs
    }

    /// Goes on to a page that is chosen. Gives what is to be loaded for it.
    pub fn visit<
        U: Fn(&H) -> Option<SharedPage>,
        W: FnOnce(LoadedPage) -> (SharedPage, H),
    >(
        &mut self,
        target: NavigationPage,
        scroll: PlaylistScrollPosition,
        account: Option<u64>,
        upgrade: &U,
        wrap: W,
    ) -> (needs: PageNeeds)
        requires
            old(self).browser.navigation_history.wf(),
            old(self).pages.wf(),
            forall|handle: &H| #[trigger] upgrade.requires((handle,)),
            forall|empty: LoadedPage| #[trigger] wrap.requires((empty,)),
            forall|empty: LoadedPage, made: (SharedPage, H)| #[trigger]
                wrap.ensures((empty,), made) ==> empty.is_shared_as(made.0),
        ensures
            final(self).pages.wf(),
            final(self).browser.navigation_history.wf(),
            final(self).browser.navigation_history.limit
                == old(self).browser.navigation_history.limit,
            final(self).shows(*old(self), target@, account, *upgrade, wrap, needs),
            exists|current: Option<NavigationPage>|
                is_current_page(old(self).browser@, scroll, current)
                    && #[trigger] old(self).browser.navigation_history@.recorded(
                    current,
                    target,
                    old(self).browser.navigation_history.limit as int,
                ) == final(self).browser.navigation_history@,
    {
        self.browser.leave_for(&target, scroll);
        self.show_page(target, account, upgrade, wrap)
    }

    /// Goes back a page, where there is one behind. Gives what is to be loaded for it.
    pub fn navigate_back<
        U: Fn(&H) -> Option<SharedPage>,
        W: FnOnce(LoadedPage) -> (SharedPage, H),
    >(
        &mut self,
        scroll: PlaylistScrollPosition,
        account: Option<u64>,
        upgrade: &U,
        wrap: W,
    ) -> (needs: Option<PageNeeds>)
        requires
            old(self).browser.navigation_history.wf(),
            old(self).pages.wf(),
            forall|handle: &H| #[trigger] upgrade.requires((handle,)),
            forall|empty: LoadedPage| #[trigger] wrap.requires((empty,)),
            forall|empty: LoadedPage, made: (SharedPage, H)| #[trigger]
                wrap.ensures((empty,), made) ==> empty.is_shared_as(made.0),
        ensures
            final(self).pages.wf(),
            final(self).browser.navigation_history.wf(),
            final(self).browser.navigation_history.limit
                == old(self).browser.navigation_history.limit,
            needs is Some <==> old(self).browser.navigation_history@.back.len() > 0,
            match needs {
                Some(needs) => {
                    &&& final(self).shows(
                        *old(self),
                        old(self).browser.navigation_history@.back.last()@,
                        account,
                        *upgrade,
                        wrap,
                        needs,
                    )
                    &&& exists|current: Option<NavigationPage>|
                        is_current_page(old(self).browser@, scroll, current)
                            && #[trigger] old(self).browser.navigation_history@.gone_back(current)
                            == final(self).browser.navigation_history@
                },
                None => {
                    &&& *final(self) == (Listening { browser: final(self).browser, ..*old(self) })
                    &&& final(self).browser@ == old(self).browser@
                    &&& final(self).browser.navigation_history@
                        == old(self).browser.navigation_history@
                },
            },
    {
        match self.browser.step_back(scroll) {
            Some(page) => Some(self.show_page(page, account, upgrade, wrap)),
            None => None,
        }
    }

    /// Goes forward a page, where there is one ahead. Gives what is to be loaded for it.
    pub fn navigate_forward<
        U: Fn(&H) -> Option<SharedPage>,
        W: FnOnce(LoadedPage) -> (SharedPage, H),
    >(
        &mut self,
        scroll: PlaylistScrollPosition,
        account: Option<u64>,
        upgrade: &U,
        wrap: W,
    ) -> (needs: Option<PageNeeds>)
        requires
            old(self).browser.navigation_history.wf(),
            old(self).pages.wf(),
            forall|handle: &H| #[trigger] upgrade.requires((handle,)),
            forall|empty: LoadedPage| #[trigger] wrap.requires((empty,)),
            forall|empty: LoadedPage, made: (SharedPage, H)| #[trigger]
                wrap.ensures((empty,), made) ==> empty.is_shared_as(made.0),
        ensures
            final(self).pages.wf(),
            final(self).browser.navigation_history.wf(),
            final(self).browser.navigation_history.limit
                == old(self).browser.navigation_history.limit,
            needs is Some <==> old(self).browser.navigation_history@.forward.len() > 0,
            match needs {
                Some(needs) => {
                    &&& final(self).shows(
                        *old(self),
                        old(self).browser.navigation_history@.forward.last()@,
                        account,
                        *upgrade,
                        wrap,
                        needs,
                    )
                    &&& exists|current: Option<NavigationPage>|
                        is_current_page(old(self).browser@, scroll, current)
                            && #[trigger] old(self).browser.navigation_history@.gone_forward(current)
                            == final(self).browser.navigation_history@
                },
                None => {
                    &&& *final(self) == (Listening { browser: final(self).browser, ..*old(self) })
                    &&& final(self).browser@ == old(self).browser@
                    &&& final(self).browser.navigation_history@
                        == old(self).browser.navigation_history@
                },
            },
    {
        match self.browser.step_forward(scroll) {
            Some(page) => Some(self.show_page(page, account, upgrade, wrap)),
            None => None,
        }
    }

    /// Follows what became of a sign-in: where the listener comes in, the home page is
    /// shown. Says whether the home page and the library are to be loaded.
    pub fn follow_account(&mut self, action: AccountAction) -> (load: bool)
        ensures
            load == (action == AccountAction::Enter),
            *final(self) == (Listening { browser: final(self).browser, ..*old(self) }),
            final(self).browser.navigation_history == old(self).browser.navigation_history,
            final(self).browser@ == (if load {
                Shown { main_content: MainContent::Home, ..old(self).browser@ }
            } else {
                old(self).browser@
            }),
    {
        if action == AccountAction::Enter {
            self.browser.main_content = MainContent::Home;
            true
        } else {
            false
        }
    }

    /// Takes a limit for the trail of pages that was typed, and cuts the trail to it.
    /// Gives the text for the field, and whether the limit changed.
    pub fn limit_history(&mut self, settings: &mut AppSettings, typed: &str) -> (result: (
        String,
        bool,
    ))
        ensures
            *final(self) == (Listening { browser: final(self).browser, ..*old(self) }),
            final(self).browser@ == old(self).browser@,
            final(settings).navigation_history_limit == typed_limit(
                typed@,
                old(settings).navigation_history_limit as nat,
                MAX_NAVIGATION_HISTORY_LIMIT as nat,
            ),
            *final(settings) == (AppSettings {
                navigation_history_limit: final(settings).navigation_history_limit,
                ..*old(settings)
            }),
            result.1 == (final(settings).navigation_history_limit != old(
                settings,
            ).navigation_history_limit),
            result.0@ == zero_padded(
                numeral(final(settings).navigation_history_limit as nat, 10),
                1,
            ),
            result.1 ==> {
                let limit = final(settings).navigation_history_limit;
                &&& final(self).browser.navigation_history.wf()
                &&& final(self).browser.navigation_history.limit == (if limit < 1 {
                    1
                } else {
                    limit
                })
                &&& final(self).browser.navigation_history@
                    == old(self).browser.navigation_history@.cut(
                    final(self).browser.navigation_history.limit as int,
                )
            },
            !result.1 ==> *final(self) == *old(self),
    {
        let result = settings.apply_navigation_history_limit(typed);
        if result.1 {
            self.browser.navigation_history.set_limit(settings.navigation_history_limit);
        }
        result
    }

    /// Shows what is loaded of the playlist on show. Gives the place to scroll to, once
    /// the row that was looked at is there; the next page is to be asked for while that
    /// is still awaited.
    pub fn show_playlist(
        &mut self,
        playlist: UserPlaylist,
        tracks: Vec<Arc<Track>>,
        has_more: bool,
        loading: bool,
    ) -> (scroll: Option<ScrollTarget>)
        ensures
            *final(self) == (Listening {
                browser: final(self).browser,
                playlists: final(self).playlists,
                table: TrackTableDelegate { tracks, has_more, loading, ..old(self).table },
                ..*old(self)
            }),
            scroll == (match old(self).browser@.pending_playlist_scroll_position {
                Some(position) => scroll_target(position, tracks@.len() as int, has_more),
                None => None,
            }),
            final(self).browser@ == (Shown {
                selected_playlist: Some(playlist@),
                pending_playlist_scroll_position: if scroll is Some {
                    None
                } else {
                    old(self).browser@.pending_playlist_scroll_position
                },
                ..old(self).browser@
            }),
            final(self).browser.navigation_history == old(self).browser.navigation_history,
            final(self).playlists.selected_index == old(self).playlists.selected_index,
            final(self).playlists@ == (match old(self).browser@.selected_playlist_index {
                Some(index) if index < old(self).playlists@.len() => old(self).playlists@.update(
                    index as int,
                    playlist@,
                ),
                _ => old(self).playlists@,
            }),
    {
        let count: usize = tracks.len();
        if let Some(index) = self.browser.selected_playlist_index {
            self.playlists.update_playlist(index, playlist.clone());
        }
        assert(self.playlists@ =~= (match old(self).browser@.selected_playlist_index {
            Some(index) if index < old(self).playlists@.len() => old(self).playlists@.update(
                index as int,
                playlist@,
            ),
            _ => old(self).playlists@,
        }));
        self.browser.selected_playlist = Some(playlist);
        self.table.set_tracks(tracks, has_more, loading);
        restore_scroll_position(
            &mut self.browser.pending_playlist_scroll_position,
            count,
            has_more,
        )
    }

    /// Brings the lists up to date once a track was liked or unliked. `changes` says what
    /// came of it for each loaded list of liked tracks; the one on show is shown anew.
    pub fn apply_track_liked(
        &mut self,
        cache: &mut LibraryCache,
        account: u64,
        liked: bool,
        changes: Vec<ListChange>,
        audio: Option<AudioStatus>,
    )
        ensures
            final(cache)@ == liked_counted(old(cache)@, account, liked),
            *final(self) == (Listening {
                browser: final(self).browser,
                playlists: final(self).playlists,
                table: final(self).table,
                ..*old(self)
            }),
            final(self).playlists@ == with_liked_count(old(self).playlists@, liked),
            final(self).playlists.selected_index == old(self).playlists.selected_index,
            final(self).browser.navigation_history == old(self).browser.navigation_history,
            match shown_change(changes@) {
                None => final(self).browser == old(self).browser && final(self).table == old(
                    self,
                ).table,
                Some((playlist, tracks, has_more)) => {
                    &&& final(self).browser@ == (Shown {
                        selected_playlist: Some(playlist@),
                        ..old(self).browser@
                    })
                    &&& final(self).table == (TrackTableDelegate {
                        tracks,
                        has_more,
                        loading: false,
                        playing_index: final(self).table.playing_index,
                        loading_index: final(self).table.loading_index,
                        playback_active: audio is Some && audio.unwrap().playing,
                        ..old(self).table
                    })
                    &&& is_row(
                        final(self).table.playing_index,
                        marked_row(old(self).queue, old(self).playback@.current_track, tracks@),
                    )
                    &&& is_row(
                        final(self).table.loading_index,
                        marked_row(old(self).queue, old(self).playback@.loading_track, tracks@),
                    )
                },
            },
    {
        cache.update_liked_track_count(account, liked);
        self.playlists.update_liked_track_count(liked);
        if let Some((playlist, tracks, has_more)) = take_shown_change(changes) {
            self.browser.selected_playlist = Some(playlist);
            self.table.set_tracks(tracks, has_more, false);
            self.mark_rows(audio);
        }
    }

    /// Takes in the library of an account, and takes up what it played last. Gives what
    /// is shown by that, the track to load and the position in it, and whether the
    /// settings are to be written. What another account played is forgotten.
    pub fn apply_library(
        &mut self,
        account: u64,
        profile: UserProfile,
        playlists: Vec<UserPlaylist>,
        view: &Option<PersistedLibraryView>,
    ) -> (outcome: (LibraryShown, Option<(usize, Duration)>, bool))
        ensures
            *final(self) == (Listening {
                profile: Some(profile),
                playlists: PlaylistListDelegate { playlists, selected_index: None },
                playback: final(self).playback,
                queue: final(self).queue,
                pending_restore: None,
                kept: final(self).kept,
                ..*old(self)
            }),
            outcome.0.follows(*view, account, playlists@, old(self).browser@.main_content),
            match old(self).pending_restore {
                Some(restore) if restore.account_id == account && track_place(
                    restore.queue_tracks@,
                    restore.track_mid@,
                ) is Some => {
                    let index = track_place(restore.queue_tracks@, restore.track_mid@).unwrap();
                    &&& outcome.1 is Some && outcome.1.unwrap().0 == index
                    &&& outcome.1.unwrap().1@ == restore.resume_nanos(
                        restore.queue_tracks@[index].duration_seconds,
                    )
                    &&& final(self).playback@ == queue_replaced(old(self).playback@)
                    &&& final(self).queue == Some(
                        (PlaybackQueue {
                            playlist_id: restore.playlist_id,
                            tracks: restore.queue_tracks,
                            modified: restore.queue_modified,
                            continuation: restore.queue_continuation,
                        }),
                    )
                    &&& final(self).kept == old(self).kept && !outcome.2
                },
                pending => {
                    &&& outcome.1 is None
                    &&& final(self).playback@ == old(self).playback@
                    &&& final(self).queue == old(self).queue
                    &&& final(self).kept == (if pending is Some {
                        None
                    } else {
                        old(self).kept
                    })
                    &&& outcome.2 == (pending is Some && old(self).kept is Some)
                },
            },
    {
        self.profile = Some(profile);
        let shown = apply_library(view, account, &playlists, self.browser.main_content);
        self.playlists.set_playlists(playlists);
        let (restore, foreign) = take_restore(self.pending_restore.take(), account);
        if foreign {
            let write = self.kept.is_some();
            self.kept = None;
            return (shown, None, write);
        }
        match restore {
            None => (shown, None, false),
            Some(restore) => {
                let (start, write) = restore_playback_queue(
                    &mut self.playback,
                    &mut self.queue,
                    &mut self.pending_restore,
                    &mut self.kept,
                    restore,
                );
                (shown, start, write)
            },
        }
    }

    /// Signs the listener out, and offers to sign in again. Says whether the settings
    /// are to be written.
    pub fn logout(&mut self, preferred: Quality) -> (outcome: (bool, StatusMessage))
        requires
            old(self).browser.navigation_history.wf(),
        ensures
            final(self).is_blank(),
            final(self).is_later_than(*old(self)),
            final(self).account == (Account {
                state: AccountState::SignedOut,
                login_generation: next_count(old(self).account.login_generation),
                code_shown: false,
            }),
            final(self).library == (LibraryState {
                loading: false,
                generation: next_count(old(self).library.generation),
            }),
            final(self).home.generation == next_count(old(self).home.generation),
            !final(self).home.loading && !final(self).home.loaded && final(self).home.error is None
                && final(self).home.recommendation_loading is None,
            final(self).playback@ == old(self).playback@.forgotten(preferred),
            final(self).browser@ == old(self).browser@.forgotten(),
            final(self).browser.navigation_history.wf(),
            final(self).browser.navigation_history.limit
                == old(self).browser.navigation_history.limit,
            final(self).table.wf() && final(self).table.compact == old(self).table.compact,
            final(self).pages.wf(),
            outcome.0 == (old(self).kept is Some),
            outcome.1.says("已退出登录"@, false),
    {
        self.account.logout();
        self.profile = None;
        self.library.reset();
        self.home.reset();
        self.browser.reset();
        self.pages.clear();
        self.likes.clear();
        self.playback.reset(preferred);
        self.queue = None;
        self.location = None;
        self.available_qualities.clear();
        self.menus = Menus { account_open: false };
        self.pending_restore = None;
        let write = self.kept.is_some();
        self.kept = None;
        self.playlists.clear();
        self.table.clear();
        (write, StatusMessage::info("已退出登录".to_owned()))
    }
}

/// A listener who signed out has left nothing behind: no queue and no track, nothing to
/// take up again, no playlists and no rows, no likes, no pages and no way back to them.
pub proof fn signing_out_leaves_nothing_behind<H>(
    listening: Listening<H>,
    mid: Seq<char>,
    name: PageName,
)
    requires
        listening.is_blank(),
    ensures
        listening.profile is None && listening.queue is None && listening.location is None,
        listening.pending_restore is None && listening.kept is None,
        listening.playlists.playlists@.len() == 0 && listening.home.playlists@.len() == 0,
        listening.table.tracks@.len() == 0 && listening.table.playing_index is None
            && listening.table.loading_index is None && !listening.table.playback_active,
        listening.likes.of(mid).liked is None,
        listening.pages.holds(name) is None,
        listening.browser.main_content == MainContent::Home,
        listening.browser.selected_playlist is None && listening.browser.selected_artist is None,
        listening.browser.search_resource is None && listening.browser.artist_resource is None
            && listening.browser.selected_playlist_resource is None,
        !listening.table.loading && !listening.table.has_more
            && !listening.table.show_liked_actions && listening.playlists.selected_index is None
            && !listening.playback.quality_menu_open,
        listening.browser.navigation_history@.back.len() == 0
            && listening.browser.navigation_history@.forward.len() == 0,
        listening.playback.current_track is None && listening.playback.loading_track is None
            && !listening.playback.playback_started && listening.playback.position@ == 0,
        listening.available_qualities@.len() == 0 && !listening.menus.account_open,
{
    assert(listening.playlists@.len() == listening.playlists.playlists@.len());
}

/// A list that changed is shown where it is the one on show, the last change first.
pub proof fn the_last_change_is_shown(changes: Seq<ListChange>, change: ListChange)
    ensures
        shown_change(Seq::empty()) is None,
        change.shown ==> shown_change(changes.push(change)) == change.change,
        !change.shown ==> shown_change(changes.push(change)) == shown_change(changes),
{
    assert(changes.push(change).drop_last() =~= changes);
}

/// Signing out makes all that was asked for before come too late.
pub proof fn signing_out_outdates_all_requests<H>(after: Listening<H>, before: Listening<H>)
    requires
        after.is_later_than(before),
    ensures
        after.account.login_generation != before.account.login_generation,
        after.library.generation != before.library.generation,
        after.home.generation != before.home.generation,
        after.playback.queue_generation != before.playback.queue_generation,
        after.playback.play_generation != before.playback.play_generation,
{
}

/// Choosing a track changes the queue and playback, and nothing of what is on show.
pub proof fn a_choice_changes_the_queue_alone<H>(after: Listening<H>, before: Listening<H>)
    requires
        after.only_queue_differs(before),
    ensures
        after.account == before.account && after.profile == before.profile && after.library
            == before.library && after.browser == before.browser && after.pages == before.pages,
        after.playlists == before.playlists && after.table == before.table && after.likes
            == before.likes && after.location == before.location && after.kept == before.kept,
        after.home.playlists == before.home.playlists && after.home.generation
            == before.home.generation,
        after.menus == before.menus && after.available_qualities == before.available_qualities,
{
}

/// A page that is put on show is shown, with a handle to what is known of it. A playlist
/// begins with an empty table that loads, marks no row, and offers to unlike where it is
/// that of the liked tracks; another page leaves the table. What is missing is asked for,
/// and the home page only where it is neither there nor on its way.
pub proof fn a_page_on_show_is_shown_with_what_it_needs<
    H,
    U: Fn(&H) -> Option<SharedPage>,
    W: FnOnce(LoadedPage) -> (SharedPage, H),
>(
    after: Listening<H>,
    before: Listening<H>,
    page: Page,
    account: Option<u64>,
    upgrade: U,
    wrap: W,
    needs: PageNeeds,
)
    requires
        after.shows(before, page, account, upgrade, wrap, needs),
    ensures
        page is Home <==> after.browser@.main_content == MainContent::Home,
        page is Settings <==> after.browser@.main_content == MainContent::Settings,
        page is Search <==> after.browser@.main_content == MainContent::Search,
        page is Artist <==> after.browser@.main_content == MainContent::Artist,
        page is Playlist <==> after.browser@.main_content == MainContent::Playlist,
        needs is Home <==> page is Home && !before.home.loaded && !before.home.loading,
        needs is Search <==> page is Search,
        needs is Artist <==> page is Artist,
        needs is Playlist <==> page is Playlist,
        page is Search ==> after.browser@.search_resource is Some,
        page is Artist ==> after.browser@.artist_resource is Some,
        page is Playlist ==> after.browser@.selected_playlist_resource is Some
            && after.table.tracks@.len() == 0 && after.table.loading && !after.table.has_more
            && after.table.playing_index is None && after.table.loading_index is None
            && !after.table.playback_active && (after.table.show_liked_actions
            <==> page->playlist.key == PlaylistKey::Liked) && after.playlists.selected_index
            == page->selected_index && after.browser@.selected_playlist == Some(page->playlist),
        !(page is Playlist) ==> after.table == before.table && after.playlists.selected_index
            is None,
        page is Search ==> after.browser@.search_query == page->query,
        page is Artist ==> after.browser@.selected_artist == Some(page->artist),
        after.playback == before.playback && after.queue == before.queue && after.likes
            == before.likes && after.home == before.home && after.account == before.account,
{
    let resolved = choose|resolved: Page| #[trigger]
        is_resolved(
            before.pages,
            after.pages,
            page,
            resolved,
            account_or_none(account),
            upgrade,
            wrap,
        ) && after.browser@ == before.browser@.with_page(resolved);
    pages_come_back_with_a_handle(
        before.pages,
        after.pages,
        page,
        resolved,
        account_or_none(account),
        upgrade,
        wrap,
    );
}

} // verus!
