//! What the pages show: search results, artists and playlists, as far as they have
//! been loaded.

use crate::catalog::{
    count_liked, counted, find_track, share, share_tracks, track_place, track_place_is_first,
    PlaylistCard, SearchAlbum,
    SearchArtist, Track, UserPlaylist, UserPlaylistId,
};
use crate::settings::fresh;
use std::sync::Arc;
use vstd::prelude::*;

verus! {

pub const SEARCH_PAGE_SIZE: usize = 20;

/// Half an hour.
pub const LIBRARY_CACHE_TTL_SECS: u64 = 1800;

/// A kind of search result.
#[derive(Clone, Copy, Debug, PartialEq, Eq, Structural)]
pub enum SearchCategory {
    Songs,
    Playlists,
    Albums,
    Artists,
}

impl SearchCategory {
    pub const ALL: [SearchCategory; 4] = [
        SearchCategory::Songs,
        SearchCategory::Playlists,
        SearchCategory::Albums,
        SearchCategory::Artists,
    ];

    pub open spec fn label_text(self) -> Seq<char> {
        match self {
            SearchCategory::Songs => "单曲"@,
            SearchCategory::Playlists => "歌单"@,
            SearchCategory::Albums => "专辑"@,
            SearchCategory::Artists => "歌手"@,
        }
    }

    pub fn label(self) -> (label: &'static str)
        ensures
            label@ == self.label_text(),
    {
        match self {
            SearchCategory::Songs => "单曲",
            SearchCategory::Playlists => "歌单",
            SearchCategory::Albums => "专辑",
            SearchCategory::Artists => "歌手",
        }
    }

    pub open spec fn place(self) -> int {
        match self {
            SearchCategory::Songs => 0,
            SearchCategory::Playlists => 1,
            SearchCategory::Albums => 2,
            SearchCategory::Artists => 3,
        }
    }

    pub fn index(self) -> (index: usize)
        ensures
            index == self.place(),
    {
        match self {
            SearchCategory::Songs => 0,
            SearchCategory::Playlists => 1,
            SearchCategory::Albums => 2,
            SearchCategory::Artists => 3,
        }
    }
}

/// How many results of each kind are shown.
#[derive(Clone, Copy, Debug, PartialEq, Eq, Structural)]
pub struct SearchVisibleCounts {
    pub songs: usize,
    pub artists: usize,
    pub albums: usize,
    pub playlists: usize,
}

impl Default for SearchVisibleCounts {
    fn default() -> (counts: Self)
        ensures
            forall|category: SearchCategory| #[trigger]
                counts.count(category) == SEARCH_PAGE_SIZE,
    {
        SearchVisibleCounts {
            songs: SEARCH_PAGE_SIZE,
            artists: SEARCH_PAGE_SIZE,
            albums: SEARCH_PAGE_SIZE,
            playlists: SEARCH_PAGE_SIZE,
        }
    }
}

impl SearchVisibleCounts {
    pub open spec fn count(self, category: SearchCategory) -> usize {
        match category {
            SearchCategory::Songs => self.songs,
            SearchCategory::Artists => self.artists,
            SearchCategory::Albums => self.albums,
            SearchCategory::Playlists => self.playlists,
        }
    }

    pub fn get(self, category: SearchCategory) -> (count: usize)
        ensures
            count == self.count(category),
    {
        match category {
            SearchCategory::Songs => self.songs,
            SearchCategory::Artists => self.artists,
            SearchCategory::Albums => self.albums,
            SearchCategory::Playlists => self.playlists,
        }
    }

    /// Sets the count of one kind and leaves the others.
    pub fn set(&mut self, category: SearchCategory, count: usize)
        ensures
            final(self).count(category) == count,
            forall|other: SearchCategory|
                other != category ==> #[trigger] final(self).count(other) == old(self).count(other),
    {
        match category {
            SearchCategory::Songs => {
                self.songs = count;
            },
            SearchCategory::Artists => {
                self.artists = count;
            },
            SearchCategory::Albums => {
                self.albums = count;
            },
            SearchCategory::Playlists => {
                self.playlists = count;
            },
        }
    }
}

/// A page of results as the service sends it.
#[derive(Debug)]
pub struct SearchPage<T> {
    pub items: Vec<T>,
    pub has_more: bool,
    pub next_offset: u64,
}

/// All results of a kind that have been loaded.
#[derive(Debug)]
pub struct SharedSearchPage<T> {
    pub items: Vec<Arc<T>>,
    pub has_more: bool,
    pub next_offset: u64,
}

pub open spec fn values<T>(items: Seq<Arc<T>>) -> Seq<T> {
    items.map_values(|item: Arc<T>| *item)
}

/// Puts each item behind a handle.
pub fn share_items<T>(items: Vec<T>) -> (shared: Vec<Arc<T>>)
    ensures
        values(shared@) == items@,
{
    let ghost all = items@;
    let mut left: Vec<T> = items;
    let mut reversed: Vec<Arc<T>> = Vec::new();
    assert(all.take(all.len() as int) =~= all);
    while left.len() > 0
        invariant
            left@.len() <= all.len(),
            left@ == all.take(left@.len() as int),
            values(reversed@) =~= all.skip(left@.len() as int).reverse(),
        decreases left.len(),
    {
        let ghost n = left@.len() as int;
        let ghost before = reversed@;
        let item = left.pop().unwrap();
        let shared = Arc::new(item);
        reversed.push(shared);
        assert(values(reversed@) =~= values(before).push(*shared));
        assert(all.take(n).drop_last() =~= all.take(n - 1));
        assert(all.skip(n - 1) =~= seq![*shared] + all.skip(n));
    }
    assert(values(reversed@) =~= all.reverse());
    let mut shared: Vec<Arc<T>> = Vec::new();
    while reversed.len() > 0
        invariant
            reversed@.len() <= all.len(),
            values(reversed@) =~= all.reverse().take(reversed@.len() as int),
            values(shared@) =~= all.take(all.len() - reversed@.len()),
        decreases reversed.len(),
    {
        let ghost n = reversed@.len() as int;
        let ghost before = shared@;
        let ghost waiting = reversed@;
        let item = reversed.pop().unwrap();
        assert(values(waiting)[n - 1] == *item);
        assert(values(reversed@) =~= values(waiting).drop_last());
        assert(*item == all[all.len() - n]);
        shared.push(item);
        assert(values(shared@) =~= values(before).push(*item));
    }
    assert(values(shared@) =~= all);
    shared
}

impl<T> SharedSearchPage<T> {
    pub fn from_page(page: SearchPage<T>) -> (shared: Self)
        ensures
            values(shared.items@) == page.items@,
            shared.has_more == page.has_more,
            shared.next_offset == page.next_offset,
    {
        SharedSearchPage {
            items: share_items(page.items),
            has_more: page.has_more,
            next_offset: page.next_offset,
        }
    }
}

/// Adds the next page to the results that have been loaded.
pub fn append_shared_search_page<T>(target: &mut SharedSearchPage<T>, page: SearchPage<T>)
    ensures
        values(final(target).items@) == values(old(target).items@) + page.items@,
        final(target).has_more == page.has_more,
        final(target).next_offset == page.next_offset,
{
    let ghost before = target.items@;
    let mut items = share_items(page.items);
    let ghost added = items@;
    target.items.append(&mut items);
    assert(values(target.items@) =~= values(before) + values(added));
    target.has_more = page.has_more;
    target.next_offset = page.next_offset;
}

#[derive(Debug)]
pub struct SharedSearchResults {
    pub songs: SharedSearchPage<Track>,
    pub artists: SharedSearchPage<SearchArtist>,
    pub albums: SharedSearchPage<SearchAlbum>,
    pub playlists: SharedSearchPage<UserPlaylist>,
}

/// The next page of one kind of results.
#[derive(Debug)]
pub enum SearchMoreResults {
    Songs(SearchPage<Track>),
    Artists(SearchPage<SearchArtist>),
    Albums(SearchPage<SearchAlbum>),
    Playlists(SearchPage<UserPlaylist>),
}

impl SharedSearchResults {
    pub open spec fn loaded(self, category: SearchCategory) -> int {
        match category {
            SearchCategory::Songs => self.songs.items@.len() as int,
            SearchCategory::Artists => self.artists.items@.len() as int,
            SearchCategory::Albums => self.albums.items@.len() as int,
            SearchCategory::Playlists => self.playlists.items@.len() as int,
        }
    }

    pub open spec fn more(self, category: SearchCategory) -> bool {
        match category {
            SearchCategory::Songs => self.songs.has_more,
            SearchCategory::Artists => self.artists.has_more,
            SearchCategory::Albums => self.albums.has_more,
            SearchCategory::Playlists => self.playlists.has_more,
        }
    }

    pub open spec fn offset(self, category: SearchCategory) -> u64 {
        match category {
            SearchCategory::Songs => self.songs.next_offset,
            SearchCategory::Artists => self.artists.next_offset,
            SearchCategory::Albums => self.albums.next_offset,
            SearchCategory::Playlists => self.playlists.next_offset,
        }
    }

    /// How many results of a kind are loaded, whether there are more, and where those
    /// start.
    pub fn extent(&self, category: SearchCategory) -> (extent: (usize, bool, u64))
        ensures
            extent.0 == self.loaded(category),
            extent.1 == self.more(category),
            extent.2 == self.offset(category),
    {
        match category {
            SearchCategory::Songs => (
                self.songs.items.len(),
                self.songs.has_more,
                self.songs.next_offset,
            ),
            SearchCategory::Artists => (
                self.artists.items.len(),
                self.artists.has_more,
                self.artists.next_offset,
            ),
            SearchCategory::Albums => (
                self.albums.items.len(),
                self.albums.has_more,
                self.albums.next_offset,
            ),
            SearchCategory::Playlists => (
                self.playlists.items.len(),
                self.playlists.has_more,
                self.playlists.next_offset,
            ),
        }
    }

    /// Adds the next page of one kind, and leaves the other kinds.
    pub fn append(&mut self, more: SearchMoreResults)
        ensures
            match more {
                SearchMoreResults::Songs(page) => values(final(self).songs.items@) == values(
                    old(self).songs.items@,
                ) + page.items@ && final(self).songs.has_more == page.has_more
                    && final(self).songs.next_offset == page.next_offset && final(self).artists
                    == old(self).artists && final(self).albums == old(self).albums
                    && final(self).playlists == old(self).playlists,
                SearchMoreResults::Artists(page) => values(final(self).artists.items@) == values(
                    old(self).artists.items@,
                ) + page.items@ && final(self).artists.has_more == page.has_more
                    && final(self).artists.next_offset == page.next_offset && final(self).songs
                    == old(self).songs && final(self).albums == old(self).albums
                    && final(self).playlists == old(self).playlists,
                SearchMoreResults::Albums(page) => values(final(self).albums.items@) == values(
                    old(self).albums.items@,
                ) + page.items@ && final(self).albums.has_more == page.has_more
                    && final(self).albums.next_offset == page.next_offset && final(self).songs
                    == old(self).songs && final(self).artists == old(self).artists
                    && final(self).playlists == old(self).playlists,
                SearchMoreResults::Playlists(page) => values(final(self).playlists.items@)
                    == values(old(self).playlists.items@) + page.items@
                    && final(self).playlists.has_more == page.has_more
                    && final(self).playlists.next_offset == page.next_offset && final(self).songs
                    == old(self).songs && final(self).artists == old(self).artists
                    && final(self).albums == old(self).albums,
            },
    {
        match more {
            SearchMoreResults::Songs(page) => append_shared_search_page(&mut self.songs, page),
            SearchMoreResults::Artists(page) => append_shared_search_page(&mut self.artists, page),
            SearchMoreResults::Albums(page) => append_shared_search_page(&mut self.albums, page),
            SearchMoreResults::Playlists(page) => append_shared_search_page(
                &mut self.playlists,
                page,
            ),
        }
    }
}

/// What a search has found so far.
#[derive(Debug)]
pub struct SearchResource {
    pub results: Option<SharedSearchResults>,
    pub loading: bool,
    /// Whether the next page of a kind is on its way, by the kind's index.
    pub loading_more: [bool; 4],
    pub error: Option<String>,
}

impl Default for SearchResource {
    fn default() -> (resource: Self)
        ensures
            resource.results is None,
            !resource.loading,
            resource.error is None,
            forall|i: int| 0 <= i < 4 ==> !#[trigger] resource.loading_more@[i],
    {
        SearchResource { results: None, loading: false, loading_more: [false; 4], error: None }
    }
}

/// What is known of an artist so far.
#[derive(Debug)]
pub struct ArtistResource {
    pub songs: Option<SharedSearchPage<Track>>,
    pub track_count: u64,
    pub songs_loading: bool,
    pub songs_loading_more: bool,
    pub song_error: Option<String>,
    pub albums: Option<SharedSearchPage<SearchAlbum>>,
    pub albums_loading: bool,
    pub albums_loading_more: bool,
    pub album_error: Option<String>,
}

impl Default for ArtistResource {
    fn default() -> (resource: Self)
        ensures
            resource.songs is None,
            resource.track_count == 0,
            !resource.songs_loading,
            !resource.songs_loading_more,
            resource.song_error is None,
            resource.albums is None,
            !resource.albums_loading,
            !resource.albums_loading_more,
            resource.album_error is None,
    {
        ArtistResource {
            songs: None,
            track_count: 0,
            songs_loading: false,
            songs_loading_more: false,
            song_error: None,
            albums: None,
            albums_loading: false,
            albums_loading_more: false,
            album_error: None,
        }
    }
}

/// What is known of a playlist so far.
#[derive(Debug)]
pub struct PlaylistResource {
    pub playlist: UserPlaylist,
    pub tracks: Vec<Arc<Track>>,
    pub has_more: bool,
    pub next_offset: u64,
    /// When the last page came; zero before the first.
    pub fetched_at_secs: u64,
    pub loading: bool,
}

/// What a `PlaylistResource` says, and what a page adds to it.
pub struct PlaylistState {
    pub playlist: PlaylistCard,
    pub tracks: Seq<Arc<Track>>,
    pub has_more: bool,
    pub next_offset: u64,
    pub fetched_at: u64,
    pub loading: bool,
}

impl View for PlaylistResource {
    type V = PlaylistState;

    open spec fn view(&self) -> PlaylistState {
        PlaylistState {
            playlist: self.playlist@,
            tracks: self.tracks@,
            has_more: self.has_more,
            next_offset: self.next_offset,
            fetched_at: self.fetched_at_secs,
            loading: self.loading,
        }
    }
}

impl PlaylistState {
    /// The state after a page that starts at `offset` came: the first page replaces
    /// all tracks, the next one follows them, and any other comes too late.
    pub open spec fn with_page(
        self,
        playlist: PlaylistCard,
        tracks: Seq<Arc<Track>>,
        has_more: bool,
        next_offset: u64,
        offset: u64,
        now_secs: u64,
    ) -> PlaylistState {
        if offset != 0 && offset != self.next_offset {
            self
        } else {
            PlaylistState {
                playlist,
                tracks: if offset == 0 {
                    tracks
                } else {
                    self.tracks + tracks
                },
                has_more,
                next_offset,
                fetched_at: now_secs,
                loading: self.loading,
            }
        }
    }

    /// The state after a track was liked or unliked, where that changes the list: a
    /// liked track comes first, an unliked one leaves.
    pub open spec fn with_like(self, track: Arc<Track>, liked: bool) -> Option<PlaylistState> {
        let place = track_place(self.tracks, track.mid@);
        let changed = PlaylistState {
            playlist: PlaylistCard {
                track_count: counted(self.playlist.track_count, liked),
                ..self.playlist
            },
            next_offset: counted(self.next_offset, liked),
            ..self
        };
        if self.fetched_at == 0 {
            None
        } else {
            match place {
                None if liked => Some(
                    PlaylistState { tracks: seq![track] + self.tracks, ..changed },
                ),
                Some(i) if !liked => Some(
                    PlaylistState { tracks: self.tracks.remove(i), ..changed },
                ),
                _ => None,
            }
        }
    }
}

/// A page that comes a second time, when its place has been filled, changes nothing.
pub proof fn late_page_is_ignored(
    state: PlaylistState,
    playlist: PlaylistCard,
    tracks: Seq<Arc<Track>>,
    has_more: bool,
    next_offset: u64,
    offset: u64,
    now_secs: u64,
    again: (PlaylistCard, Seq<Arc<Track>>, bool, u64, u64),
)
    requires
        offset != 0,
        offset == state.next_offset,
        next_offset != offset,
    ensures
        ({
            let once = state.with_page(
                playlist,
                tracks,
                has_more,
                next_offset,
                offset,
                now_secs,
            );
            &&& once.tracks == state.tracks + tracks
            &&& once.with_page(again.0, again.1, again.2, again.3, offset, again.4) == once
        }),
{
}

/// Unliking a track that was just liked gives the list back.
pub proof fn unliking_restores_list(state: PlaylistState, track: Arc<Track>)
    requires
        state.with_like(track, true) is Some,
        state.playlist.track_count < u64::MAX,
        state.next_offset < u64::MAX,
    ensures
        state.with_like(track, true).unwrap().with_like(track, false) == Some(state),
{
    let after = state.with_like(track, true).unwrap();
    crate::catalog::first_track_is_place(after.tracks, track.mid@, 0);
    assert(after.tracks.remove(0) =~= state.tracks);
}

impl PlaylistResource {
    pub fn empty(playlist: UserPlaylist) -> (resource: Self)
        ensures
            resource.playlist == playlist,
            resource.tracks@.len() == 0,
            resource.has_more,
            resource.next_offset == 0,
            resource.fetched_at_secs == 0,
            !resource.loading,
    {
        PlaylistResource {
            playlist,
            tracks: Vec::new(),
            has_more: true,
            next_offset: 0,
            fetched_at_secs: 0,
            loading: false,
        }
    }

    /// Search results never age; other playlists do within half an hour.
    pub open spec fn up_to_date(self, now_secs: u64) -> bool {
        self.playlist.id@ is Search || fresh(
            self.fetched_at_secs,
            now_secs,
            LIBRARY_CACHE_TTL_SECS as nat,
        )
    }

    pub fn is_fresh(&self, now_secs: u64) -> (result: bool)
        ensures
            result == self.up_to_date(now_secs),
    {
        let search: bool = match &self.playlist.id {
            UserPlaylistId::Search { .. } => true,
            _ => false,
        };
        search || now_secs.saturating_sub(self.fetched_at_secs) < LIBRARY_CACHE_TTL_SECS
    }

    pub fn apply_page(
        &mut self,
        playlist: UserPlaylist,
        tracks: Vec<Arc<Track>>,
        has_more: bool,
        next_offset: u64,
        offset: u64,
        now_secs: u64,
    )
        ensures
            final(self)@ == old(self)@.with_page(
                playlist@,
                tracks@,
                has_more,
                next_offset,
                offset,
                now_secs,
            ),
    {
        let ghost before = self@;
        if offset == 0 {
            self.tracks = tracks;
        } else if offset == self.next_offset {
            let mut more = tracks;
            self.tracks.append(&mut more);
        } else {
            return;
        }
        self.playlist = playlist;
        self.has_more = has_more;
        self.next_offset = next_offset;
        self.fetched_at_secs = now_secs;
    }
}

/// Brings the loaded list of liked tracks up to date after a like or an unlike, and
/// gives what is to be shown where it changed.
pub fn update_liked_playlist_resource(
    state: &mut PlaylistResource,
    track: &Arc<Track>,
    liked: bool,
) -> (shown: Option<(UserPlaylist, Vec<Arc<Track>>, bool)>)
    requires
        old(state).tracks@.len() < usize::MAX,
    ensures
        match old(state)@.with_like(*track, liked) {
            Some(after) => final(state)@ == after && (shown matches Some((
                playlist,
                tracks,
                has_more,
            )) && playlist@ == after.playlist && tracks@ == after.tracks && has_more
                == after.has_more),
            None => *final(state) == *old(state) && shown is None,
        },
{
    let ghost before = state@;
    if state.fetched_at_secs == 0 {
        return None;
    }
    let place = find_track(&state.tracks, &track.mid);
    match place {
        None => {
            if !liked {
                return None;
            }
            state.tracks.insert(0, share(track));
            assert(state.tracks@ =~= seq![*track] + before.tracks);
        },
        Some(i) => {
            if liked {
                return None;
            }
            let _ = state.tracks.remove(i);
        },
    }
    state.playlist.track_count = count_liked(state.playlist.track_count, liked);
    state.next_offset = count_liked(state.next_offset, liked);
    Some((state.playlist.clone(), share_tracks(&state.tracks), state.has_more))
}

/// The row to scroll to: none while it is still to be loaded, and the last one where
/// the list ends before it.
pub open spec fn scroll_row(requested: int, count: int, has_more: bool) -> Option<int> {
    if requested >= count && has_more {
        None
    } else if requested < count {
        Some(requested)
    } else if count > 0 {
        Some(count - 1)
    } else {
        Some(0)
    }
}

pub fn resolved_playlist_scroll_row(requested_row: usize, track_count: usize, has_more: bool) -> (row:
    Option<usize>)
    ensures
        match row {
            Some(i) => scroll_row(requested_row as int, track_count as int, has_more) == Some(
                i as int,
            ),
            None => scroll_row(requested_row as int, track_count as int, has_more) is None,
        },
{
    if requested_row >= track_count && has_more {
        None
    } else {
        let last: usize = track_count.saturating_sub(1);
        if requested_row <= last {
            Some(requested_row)
        } else {
            Some(last)
        }
    }
}

/// The first page of a playlist takes the place of all tracks, the next one follows them,
/// and one that starts anywhere else changes nothing.
pub proof fn pages_follow_one_another(
    state: PlaylistState,
    playlist: PlaylistCard,
    tracks: Seq<Arc<Track>>,
    has_more: bool,
    next_offset: u64,
    offset: u64,
    now_secs: u64,
)
    ensures
        ({
            let after = state.with_page(playlist, tracks, has_more, next_offset, offset, now_secs);
            &&& offset == 0 ==> after.tracks == tracks
            &&& offset != 0 && offset == state.next_offset ==> after.tracks == state.tracks
                + tracks
            &&& offset == 0 || offset == state.next_offset ==> after.playlist == playlist
                && after.has_more == has_more && after.next_offset == next_offset
                && after.fetched_at == now_secs
            &&& offset != 0 && offset != state.next_offset ==> after == state
            &&& after.loading == state.loading
        }),
{
}

/// A liked track comes first in the list of liked tracks and is counted, an unliked one
/// leaves it; where it is there already, or not there, and where the list was never
/// loaded, nothing changes.
pub proof fn liked_tracks_come_first(state: PlaylistState, track: Arc<Track>)
    ensures
        ({
            let holds = exists|i: int|
                0 <= i < state.tracks.len() && (#[trigger] state.tracks[i]).mid@ == track.mid@;
            let liked = state.with_like(track, true);
            let unliked = state.with_like(track, false);
            &&& liked is Some <==> state.fetched_at != 0 && !holds
            &&& unliked is Some <==> state.fetched_at != 0 && holds
            &&& liked is Some ==> liked.unwrap().tracks == seq![track] + state.tracks
                && liked.unwrap().has_more == state.has_more && liked.unwrap().fetched_at
                == state.fetched_at
            &&& liked is Some && state.playlist.track_count < u64::MAX && state.next_offset
                < u64::MAX ==> liked.unwrap().playlist.track_count == state.playlist.track_count
                + 1 && liked.unwrap().next_offset == state.next_offset + 1
            &&& unliked is Some ==> unliked.unwrap().tracks.len() == state.tracks.len() - 1
                && exists|i: int|
                0 <= i < state.tracks.len() && (#[trigger] state.tracks[i]).mid@ == track.mid@
                    && unliked.unwrap().tracks == state.tracks.remove(i) && forall|j: int|
                    0 <= j < i ==> (#[trigger] state.tracks[j]).mid@ != track.mid@
            &&& unliked is Some && state.playlist.track_count > 0 && state.next_offset > 0
                ==> unliked.unwrap().playlist.track_count == state.playlist.track_count - 1
                && unliked.unwrap().next_offset == state.next_offset - 1
        }),
{
    track_place_is_first(state.tracks, track.mid@);
    if let Some(i) = track_place(state.tracks, track.mid@) {
        assert(state.tracks[i].mid@ == track.mid@);
        if state.with_like(track, false) is Some {
            assert(state.with_like(track, false).unwrap().tracks == state.tracks.remove(i));
        }
    }
}

/// Playlists are fresh for half an hour, and what a search found does not age.
pub proof fn playlists_stay_fresh_for_half_an_hour(resource: PlaylistResource, now_secs: u64)
    ensures
        resource.playlist.id is Search ==> resource.up_to_date(now_secs),
        !(resource.playlist.id is Search) ==> (resource.up_to_date(now_secs) <==> now_secs
            < resource.fetched_at_secs + 30 * 60),
{
}

/// Each category has results, a count and a place of its own.
pub proof fn categories_are_told_apart(a: SearchCategory, b: SearchCategory)
    ensures
        a.place() == b.place() <==> a == b,
        0 <= a.place() < 4,
        SearchCategory::Songs.place() == 0,
        SearchCategory::Playlists.place() == 1,
        SearchCategory::Albums.place() == 2,
        SearchCategory::Artists.place() == 3,
{
}

} // verus!
