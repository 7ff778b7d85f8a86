//! Asking for what a page shows, and taking in what comes back.

use crate::catalog::{RecommendationKind, SearchAlbum, Track, UserPlaylist, UserPlaylistId};
use crate::loading::{framed, labelled, StatusMessage};
use crate::lyrics::line::text_of;
use crate::playback::{next_count, Playback, PlaybackView};
use crate::queue::PlaybackQueue;
use crate::resources::{
    append_shared_search_page, share_items, values, ArtistResource, PlaylistResource,
    PlaylistState, SearchCategory, SearchMoreResults, SearchPage, SearchResource,
    SearchVisibleCounts, SharedSearchPage, SharedSearchResults, SEARCH_PAGE_SIZE,
};
use crate::settings::{PersistedPlayback, PersistedQueueContinuation};
use std::sync::Arc;
use vstd::prelude::*;

verus! {

pub const ARTIST_PAGE_SIZE: usize = 5;

/// What a request leads to.
#[derive(Clone, Copy, Debug, PartialEq, Eq, Structural)]
pub enum PageRequest {
    /// Nothing is to be asked for.
    Nothing,
    /// What is there already is shown.
    Show,
    /// The results from this offset on are to be asked for.
    Ask(u64),
}

/// Why nothing can be asked for.
pub open spec fn obstacle(signed_in: bool, client: bool) -> Option<Seq<char>> {
    if !signed_in {
        Some("请先登录 QQ 音乐"@)
    } else if !client {
        Some("QQ 音乐客户端不可用"@)
    } else {
        None
    }
}

fn find_obstacle(signed_in: bool, client: bool) -> (text: Option<String>)
    ensures
        text_of(text) == obstacle(signed_in, client),
{
    if !signed_in {
        Some("请先登录 QQ 音乐".to_owned())
    } else if !client {
        Some("QQ 音乐客户端不可用".to_owned())
    } else {
        None
    }
}

impl SearchResource {
    /// Begins a search, unless it has results or is under way.
    pub fn start_search(&mut self, signed_in: bool, client: bool) -> (request: PageRequest)
        ensures
            final(self).results == old(self).results,
            final(self).loading_more == old(self).loading_more,
            match obstacle(signed_in, client) {
                Some(text) => request == PageRequest::Show && text_of(final(self).error) == Some(
                    text,
                ) && final(self).loading == old(self).loading,
                None => if old(self).results is Some || old(self).loading {
                    request == PageRequest::Show && *final(self) == *old(self)
                } else {
                    request == PageRequest::Ask(0) && final(self).loading && final(self).error
                        is None
                },
            },
    {
        if let Some(text) = find_obstacle(signed_in, client) {
            self.error = Some(text);
            return PageRequest::Show;
        }
        if self.results.is_some() || self.loading {
            return PageRequest::Show;
        }
        self.loading = true;
        self.error = None;
        PageRequest::Ask(0)
    }

    /// Takes in what a search found.
    pub fn finish_search(&mut self, found: Result<SharedSearchResults, String>)
        ensures
            !final(self).loading,
            final(self).loading_more == old(self).loading_more,
            match found {
                Ok(results) => final(self).results == Some(results) && final(self).error is None,
                Err(error) => final(self).results is None && text_of(final(self).error) == Some(
                    "搜索失败："@ + error@,
                ),
            },
    {
        self.loading = false;
        match found {
            Ok(results) => {
                self.results = Some(results);
                self.error = None;
            },
            Err(error) => {
                self.results = None;
                self.error = Some(labelled("搜索失败：", error.as_str()));
            },
        }
    }

    /// The search can show more of a kind: it has results, and nothing of that kind
    /// is on its way.
    pub open spec fn settled(self, category: SearchCategory) -> bool {
        self.results is Some && !self.loading && !self.loading_more@[category.place()]
    }

    /// More of a kind has to be asked for to show `count` results.
    pub open spec fn lacks(self, category: SearchCategory, count: int) -> bool {
        self.results is Some && self.results.unwrap().loaded(category) < count
            && self.results.unwrap().more(category)
    }

    /// Shows a page more of a kind of results, and asks for it where it is not there.
    pub fn load_more(
        &mut self,
        counts: &mut SearchVisibleCounts,
        category: SearchCategory,
        signed_in: bool,
        client: bool,
    ) -> (request: PageRequest)
        requires
            old(counts).count(category) + SEARCH_PAGE_SIZE <= usize::MAX,
        ensures
            final(self).results == old(self).results,
            final(self).loading == old(self).loading,
            !signed_in ==> request == PageRequest::Nothing && *final(counts) == *old(counts)
                && *final(self) == *old(self),
            signed_in && !client ==> request == PageRequest::Show && *final(counts) == *old(counts)
                && final(self).loading_more == old(self).loading_more && text_of(
                final(self).error,
            ) == Some("QQ 音乐客户端不可用"@),
            signed_in && client && !old(self).settled(category) ==> request == PageRequest::Nothing
                && *final(counts) == *old(counts) && *final(self) == *old(self),
            signed_in && client && old(self).settled(category) ==> {
                let target = old(counts).count(category) + SEARCH_PAGE_SIZE;
                &&& final(counts).count(category) == target
                &&& forall|other: SearchCategory|
                    other != category ==> #[trigger] final(counts).count(other)
                        == old(counts).count(other)
                &&& if old(self).lacks(category, target) {
                    request == PageRequest::Ask(old(self).results.unwrap().offset(category))
                        && final(self).error is None && final(self).loading_more@
                        == old(self).loading_more@.update(category.place(), true)
                } else {
                    request == PageRequest::Show && *final(self) == *old(self)
                }
            },
    {
        if !signed_in {
            return PageRequest::Nothing;
        }
        if !client {
            self.error = Some("QQ 音乐客户端不可用".to_owned());
            return PageRequest::Show;
        }
        let slot: usize = category.index();
        if self.loading || self.loading_more[slot] {
            return PageRequest::Nothing;
        }
        let target: usize = counts.get(category) + SEARCH_PAGE_SIZE;
        let extent = match &self.results {
            None => {
                return PageRequest::Nothing;
            },
            Some(results) => results.extent(category),
        };
        counts.set(category, target);
        if extent.0 >= target || !extent.1 {
            return PageRequest::Show;
        }
        self.loading_more[slot] = true;
        self.error = None;
        PageRequest::Ask(extent.2)
    }

    /// Takes in the next page of a kind.
    pub fn finish_more(
        &mut self,
        category: SearchCategory,
        found: Result<SearchMoreResults, String>,
    )
        ensures
            final(self).loading == old(self).loading,
            final(self).loading_more@ == old(self).loading_more@.update(category.place(), false),
            match found {
                Err(error) => final(self).results == old(self).results && text_of(
                    final(self).error,
                ) == Some("继续加载搜索结果失败："@ + error@),
                Ok(more) => final(self).error == old(self).error && match (
                    old(self).results,
                    final(self).results,
                ) {
                    (None, None) => true,
                    (Some(before), Some(after)) => appended(before, after, more),
                    _ => false,
                },
            },
    {
        let slot: usize = category.index();
        self.loading_more[slot] = false;
        match found {
            Err(error) => {
                self.error = Some(labelled("继续加载搜索结果失败：", error.as_str()));
            },
            Ok(more) => {
                if let Some(results) = &mut self.results {
                    results.append(more);
                }
            },
        }
    }
}

/// `after` is `page` behind `before`.
pub open spec fn page_appended<T>(
    before: SharedSearchPage<T>,
    after: SharedSearchPage<T>,
    page: SearchPage<T>,
) -> bool {
    &&& values(after.items@) == values(before.items@) + page.items@
    &&& after.has_more == page.has_more
    &&& after.next_offset == page.next_offset
}

/// `after` is `before` with one more page of one kind.
pub open spec fn appended(
    before: SharedSearchResults,
    after: SharedSearchResults,
    more: SearchMoreResults,
) -> bool {
    match more {
        SearchMoreResults::Songs(page) => page_appended(before.songs, after.songs, page)
            && after.artists == before.artists && after.albums == before.albums && after.playlists
            == before.playlists,
        SearchMoreResults::Artists(page) => page_appended(before.artists, after.artists, page)
            && after.songs == before.songs && after.albums == before.albums && after.playlists
            == before.playlists,
        SearchMoreResults::Albums(page) => page_appended(before.albums, after.albums, page)
            && after.songs == before.songs && after.artists == before.artists && after.playlists
            == before.playlists,
        SearchMoreResults::Playlists(page) => page_appended(
            before.playlists,
            after.playlists,
            page,
        ) && after.songs == before.songs && after.artists == before.artists && after.albums
            == before.albums,
    }
}

/// How many of an artist's songs or albums are shown after asking for more.
pub open spec fn grown_count(count: usize, append: bool) -> usize {
    if !append {
        count
    } else if count + ARTIST_PAGE_SIZE <= usize::MAX {
        (count + ARTIST_PAGE_SIZE) as usize
    } else {
        usize::MAX
    }
}

/// What asking for songs or albums of an artist leads to, where `loaded` gives how
/// many are there, whether there are more and where those start.
pub open spec fn artist_request(
    loaded: Option<(int, bool, u64)>,
    busy: bool,
    append: bool,
    count: int,
) -> PageRequest {
    if busy {
        PageRequest::Nothing
    } else {
        match loaded {
            None => if append {
                PageRequest::Nothing
            } else {
                PageRequest::Ask(0)
            },
            Some((len, more, offset)) => if len >= count || !more {
                PageRequest::Show
            } else {
                PageRequest::Ask(offset)
            },
        }
    }
}

fn decide_artist_request(
    loaded: Option<(usize, bool, u64)>,
    busy: bool,
    append: bool,
    count: usize,
) -> (request: PageRequest)
    ensures
        request == artist_request(
            match loaded {
                Some((len, more, offset)) => Some((len as int, more, offset)),
                None => None,
            },
            busy,
            append,
            count as int,
        ),
{
    if busy {
        return PageRequest::Nothing;
    }
    match loaded {
        None => if append {
            PageRequest::Nothing
        } else {
            PageRequest::Ask(0)
        },
        Some((len, more, offset)) => if len >= count || !more {
            PageRequest::Show
        } else {
            PageRequest::Ask(offset)
        },
    }
}

pub open spec fn page_extent<T>(page: Option<SharedSearchPage<T>>) -> Option<(int, bool, u64)> {
    match page {
        Some(page) => Some((page.items@.len() as int, page.has_more, page.next_offset)),
        None => None,
    }
}

fn extent_of<T>(page: &Option<SharedSearchPage<T>>) -> (extent: Option<(usize, bool, u64)>)
    ensures
        page_extent(*page) == (match extent {
            Some((len, more, offset)) => Some((len as int, more, offset)),
            None => None,
        }),
{
    match page {
        Some(page) => Some((page.items.len(), page.has_more, page.next_offset)),
        None => None,
    }
}

fn grow(count: &mut usize, append: bool)
    ensures
        *final(count) == grown_count(*old(count), append),
{
    if append {
        *count = (*count).saturating_add(ARTIST_PAGE_SIZE);
    }
}

/// What is loaded after a page that starts at `offset` came: the first page replaces
/// all, and a later one follows what is there.
pub open spec fn page_taken<T>(
    before: Option<SharedSearchPage<T>>,
    after: Option<SharedSearchPage<T>>,
    page: SearchPage<T>,
    offset: u64,
) -> bool {
    if offset == 0 {
        after is Some && values(after.unwrap().items@) == page.items@ && after.unwrap().has_more
            == page.has_more && after.unwrap().next_offset == page.next_offset
    } else {
        match (before, after) {
            (Some(before), Some(after)) => page_appended(before, after, page),
            (None, None) => true,
            _ => false,
        }
    }
}

fn take_page<T>(loaded: &mut Option<SharedSearchPage<T>>, page: SearchPage<T>, offset: u64)
    ensures
        page_taken(*old(loaded), *final(loaded), page, offset),
{
    if offset == 0 {
        *loaded = Some(SharedSearchPage::from_page(page));
    } else if let Some(loaded) = loaded {
        append_shared_search_page(loaded, page);
    }
}

impl ArtistResource {
    /// Whether songs and whether albums are to be asked for when the artist is shown.
    pub fn missing(&self) -> (missing: (bool, bool))
        ensures
            missing.0 == (self.songs is None && !self.songs_loading),
            missing.1 == (self.albums is None && !self.albums_loading),
    {
        (
            self.songs.is_none() && !self.songs_loading,
            self.albums.is_none() && !self.albums_loading,
        )
    }

    /// Shows the songs of an artist, or a page more of them. Without the service's client
    /// an error takes their place.
    pub fn load_songs(
        &mut self,
        visible_count: &mut usize,
        append: bool,
        signed_in: bool,
        client: bool,
    ) -> (request: PageRequest)
        ensures
            if !signed_in {
                request == PageRequest::Nothing && *final(self) == *old(self)
                    && *final(visible_count) == *old(visible_count)
            } else if !client {
                &&& request == PageRequest::Show && *final(visible_count) == *old(visible_count)
                &&& text_of(final(self).song_error) == Some("QQ 音乐客户端不可用"@)
                &&& *final(self) == (ArtistResource {
                    song_error: final(self).song_error,
                    ..*old(self)
                })
            } else {
                &&& *final(visible_count) == grown_count(*old(visible_count), append)
                &&& request == artist_request(
                    page_extent(old(self).songs),
                    old(self).songs_loading || old(self).songs_loading_more,
                    append,
                    *final(visible_count) as int,
                )
                &&& *final(self) == (match request {
                    PageRequest::Ask(_) => ArtistResource {
                        song_error: None,
                        songs_loading: !append,
                        songs_loading_more: append,
                        ..*old(self)
                    },
                    _ => *old(self),
                })
            },
    {
        if !signed_in {
            return PageRequest::Nothing;
        }
        if !client {
            self.song_error = Some("QQ 音乐客户端不可用".to_owned());
            return PageRequest::Show;
        }
        grow(visible_count, append);
        let request = decide_artist_request(
            extent_of(&self.songs),
            self.songs_loading || self.songs_loading_more,
            append,
            *visible_count,
        );
        if let PageRequest::Ask(_) = request {
            self.song_error = None;
            if append {
                self.songs_loading_more = true;
            } else {
                self.songs_loading = true;
            }
        }
        request
    }

    /// Takes in songs of an artist, and how many there are in all.
    pub fn finish_songs(&mut self, offset: u64, found: Result<(SearchPage<Track>, u64), String>)
        ensures
            !final(self).songs_loading && !final(self).songs_loading_more,
            final(self).albums == old(self).albums,
            final(self).albums_loading == old(self).albums_loading,
            final(self).albums_loading_more == old(self).albums_loading_more,
            final(self).album_error == old(self).album_error,
            match found {
                Ok((page, total)) => final(self).track_count == total && page_taken(
                    old(self).songs,
                    final(self).songs,
                    page,
                    offset,
                ) && final(self).song_error == old(self).song_error,
                Err(error) => final(self).songs == old(self).songs && final(self).track_count
                    == old(self).track_count && text_of(final(self).song_error) == Some(
                    "加载歌手歌曲失败："@ + error@,
                ),
            },
    {
        self.songs_loading = false;
        self.songs_loading_more = false;
        match found {
            Ok((page, total)) => {
                self.track_count = total;
                take_page(&mut self.songs, page, offset);
            },
            Err(error) => {
                self.song_error = Some(labelled("加载歌手歌曲失败：", error.as_str()));
            },
        }
    }

    /// Shows the albums of an artist, or a page more of them. Without the service's
    /// client an error takes their place.
    pub fn load_albums(
        &mut self,
        visible_count: &mut usize,
        append: bool,
        signed_in: bool,
        client: bool,
    ) -> (request: PageRequest)
        ensures
            if !signed_in {
                request == PageRequest::Nothing && *final(self) == *old(self)
                    && *final(visible_count) == *old(visible_count)
            } else if !client {
                &&& request == PageRequest::Show && *final(visible_count) == *old(visible_count)
                &&& text_of(final(self).album_error) == Some("QQ 音乐客户端不可用"@)
                &&& *final(self) == (ArtistResource {
                    album_error: final(self).album_error,
                    ..*old(self)
                })
            } else {
                &&& *final(visible_count) == grown_count(*old(visible_count), append)
                &&& request == artist_request(
                    page_extent(old(self).albums),
                    old(self).albums_loading || old(self).albums_loading_more,
                    append,
                    *final(visible_count) as int,
                )
                &&& *final(self) == (match request {
                    PageRequest::Ask(_) => ArtistResource {
                        album_error: None,
                        albums_loading: !append,
                        albums_loading_more: append,
                        ..*old(self)
                    },
                    _ => *old(self),
                })
            },
    {
        if !signed_in {
            return PageRequest::Nothing;
        }
        if !client {
            self.album_error = Some("QQ 音乐客户端不可用".to_owned());
            return PageRequest::Show;
        }
        grow(visible_count, append);
        let request = decide_artist_request(
            extent_of(&self.albums),
            self.albums_loading || self.albums_loading_more,
            append,
            *visible_count,
        );
        if let PageRequest::Ask(_) = request {
            self.album_error = None;
            if append {
                self.albums_loading_more = true;
            } else {
                self.albums_loading = true;
            }
        }
        request
    }

    /// Takes in albums of an artist.
    pub fn finish_albums(&mut self, offset: u64, found: Result<SearchPage<SearchAlbum>, String>)
        ensures
            !final(self).albums_loading && !final(self).albums_loading_more,
            final(self).songs == old(self).songs,
            final(self).track_count == old(self).track_count,
            final(self).songs_loading == old(self).songs_loading,
            final(self).songs_loading_more == old(self).songs_loading_more,
            final(self).song_error == old(self).song_error,
            match found {
                Ok(page) => page_taken(old(self).albums, final(self).albums, page, offset)
                    && final(self).album_error == old(self).album_error,
                Err(error) => final(self).albums == old(self).albums && text_of(
                    final(self).album_error,
                ) == Some("加载歌手专辑失败："@ + error@),
            },
    {
        self.albums_loading = false;
        self.albums_loading_more = false;
        match found {
            Ok(page) => {
                take_page(&mut self.albums, page, offset);
            },
            Err(error) => {
                self.album_error = Some(labelled("加载歌手专辑失败：", error.as_str()));
            },
        }
    }
}

/// What is asked for an artist, whether by showing them or by asking for more, never
/// overlaps: while a page is on its way no other is asked for.
pub proof fn one_page_at_a_time(
    loaded: Option<(int, bool, u64)>,
    append: bool,
    count: int,
)
    ensures
        !(artist_request(loaded, true, append, count) is Ask),
{
}

/// What a wish for the next page of a playlist leads to.
#[derive(Debug)]
pub enum PlaylistPageRequest {
    Nothing,
    Refused(StatusMessage),
    /// The page from `offset` on is to be asked for, and with `force` in any case.
    Ask { offset: u64, force: bool },
}

impl PlaylistPageRequest {
    pub open spec fn refuses(self, text: Seq<char>) -> bool {
        match self {
            PlaylistPageRequest::Refused(status) => status.says(text, true),
            _ => false,
        }
    }
}

impl PlaylistResource {
    /// Begins to load the next page, where there is one and none is on its way. A wish
    /// to load the playlist anew counts for its first page alone, and for one request.
    pub fn start_page(&mut self, force_refresh: &mut bool, signed_in: bool, client: bool) -> (request:
        PlaylistPageRequest)
        ensures
            if !signed_in {
                request is Nothing && *final(self) == *old(self) && *final(force_refresh) == *old(
                    force_refresh,
                )
            } else if !client {
                request.refuses("QQ 音乐客户端不可用"@) && *final(self) == *old(self)
                    && *final(force_refresh) == *old(force_refresh)
            } else if old(self).loading || !old(self).has_more {
                request is Nothing && *final(self) == *old(self) && *final(force_refresh) == *old(
                    force_refresh,
                )
            } else {
                &&& request == (PlaylistPageRequest::Ask {
                    offset: old(self).next_offset,
                    force: old(self).next_offset == 0 && *old(force_refresh),
                })
                &&& *final(self) == (PlaylistResource { loading: true, ..*old(self) })
                &&& !*final(force_refresh)
            },
    {
        if !signed_in {
            return PlaylistPageRequest::Nothing;
        }
        if !client {
            return PlaylistPageRequest::Refused(
                StatusMessage::error("QQ 音乐客户端不可用".to_owned()),
            );
        }
        if self.loading || !self.has_more {
            return PlaylistPageRequest::Nothing;
        }
        self.loading = true;
        let force = self.next_offset == 0 && *force_refresh;
        *force_refresh = false;
        PlaylistPageRequest::Ask { offset: self.next_offset, force }
    }

    /// Takes in a page, and gives the error where there was one.
    pub fn finish_page(
        &mut self,
        page: Result<(UserPlaylist, Vec<Track>, bool, u64), String>,
        offset: u64,
        now_secs: u64,
    ) -> (error: Option<String>)
        ensures
            match page {
                Err(text) => final(self)@ == (PlaylistState { loading: false, ..old(self)@ })
                    && text_of(error) == Some("加载歌单失败："@ + text@),
                Ok((playlist, tracks, has_more, next_offset)) => error is None && exists|
                    shared: Seq<Arc<Track>>,
                | #[trigger]
                    values(shared) == tracks@ && final(self)@ == (PlaylistState {
                        loading: false,
                        ..old(self)@
                    }).with_page(playlist@, shared, has_more, next_offset, offset, now_secs),
            },
    {
        self.loading = false;
        match page {
            Err(text) => Some(labelled("加载歌单失败：", text.as_str())),
            Ok((playlist, tracks, has_more, next_offset)) => {
                let shared = share_items(tracks);
                assert(values(shared@) == tracks@);
                self.apply_page(playlist, shared, has_more, next_offset, offset, now_secs);
                None
            },
        }
    }
}

/// The line for a playlist that is shown.
pub open spec fn playlist_status(title: Seq<char>, loaded: bool, empty: bool) -> Seq<char> {
    if !loaded {
        "正在加载歌单“"@ + title + "”…"@
    } else if empty {
        "歌单“"@ + title + "”中暂时没有歌曲"@
    } else {
        "已打开歌单“"@ + title + "”"@
    }
}

pub fn opened_status(title: &str, loaded: bool, empty: bool) -> (status: StatusMessage)
    ensures
        status.says(playlist_status(title@, loaded, empty), false),
{
    StatusMessage::info(
        if !loaded {
            framed("正在加载歌单“", title, "”…")
        } else if empty {
            framed("歌单“", title, "”中暂时没有歌曲")
        } else {
            framed("已打开歌单“", title, "”")
        },
    )
}

/// What the home page shows.
#[derive(Debug)]
pub struct HomeState {
    pub playlists: Vec<UserPlaylist>,
    pub loading: bool,
    pub loaded: bool,
    pub error: Option<String>,
    /// Counts the requests; answers to an earlier one come too late.
    pub generation: u64,
    pub recommendation_loading: Option<RecommendationKind>,
}

impl HomeState {
    pub fn new() -> (home: Self)
        ensures
            home.playlists@.len() == 0,
            !home.loading && !home.loaded,
            home.error is None,
            home.generation == 0,
            home.recommendation_loading is None,
    {
        HomeState {
            playlists: Vec::new(),
            loading: false,
            loaded: false,
            error: None,
            generation: 0,
            recommendation_loading: None,
        }
    }

    /// Begins to load the home page, and gives the number of the request.
    pub fn load(&mut self, signed_in: bool, client: bool) -> (generation: Option<u64>)
        ensures
            final(self).playlists == old(self).playlists,
            final(self).loaded == old(self).loaded,
            final(self).recommendation_loading == old(self).recommendation_loading,
            if old(self).loading {
                generation is None && *final(self) == *old(self)
            } else {
                match obstacle(signed_in, client) {
                    Some(text) => generation is None && text_of(final(self).error) == Some(text)
                        && !final(self).loading && final(self).generation == old(self).generation,
                    None => final(self).generation == next_count(old(self).generation)
                        && generation == Some(final(self).generation) && final(self).loading
                        && final(self).error is None,
                }
            },
    {
        if self.loading {
            return None;
        }
        if let Some(text) = find_obstacle(signed_in, client) {
            self.error = Some(text);
            return None;
        }
        self.generation = self.generation.wrapping_add(1);
        self.loading = true;
        self.error = None;
        Some(self.generation)
    }

    /// Takes in the playlists of the home page.
    pub fn finish(&mut self, generation: u64, found: Result<Vec<UserPlaylist>, String>) -> (taken:
        bool)
        ensures
            taken == (generation == old(self).generation),
            !taken ==> *final(self) == *old(self),
            taken ==> {
                &&& !final(self).loading
                &&& final(self).generation == old(self).generation
                &&& final(self).recommendation_loading == old(self).recommendation_loading
                &&& match found {
                    Ok(playlists) => final(self).loaded && final(self).playlists == playlists
                        && final(self).error is None,
                    Err(error) => final(self).loaded == old(self).loaded && final(self).playlists
                        == old(self).playlists && text_of(final(self).error) == Some(
                        "加载主页推荐失败："@ + error@,
                    ),
                }
            },
    {
        if self.generation != generation {
            return false;
        }
        self.loading = false;
        match found {
            Ok(playlists) => {
                self.loaded = true;
                self.playlists = playlists;
                self.error = None;
            },
            Err(error) => {
                self.error = Some(labelled("加载主页推荐失败：", error.as_str()));
            },
        }
        true
    }

    /// Forgets the page, as when the listener signs out.
    pub fn reset(&mut self)
        ensures
            final(self).playlists@.len() == 0,
            !final(self).loading && !final(self).loaded,
            final(self).error is None,
            final(self).recommendation_loading is None,
            final(self).generation == next_count(old(self).generation),
    {
        self.generation = self.generation.wrapping_add(1);
        self.playlists.clear();
        self.loading = false;
        self.loaded = false;
        self.error = None;
        self.recommendation_loading = None;
    }

    /// Begins to load recommendations.
    pub fn start_recommendation(
        &mut self,
        kind: RecommendationKind,
        signed_in: bool,
        client: bool,
    ) -> (refused: Option<StatusMessage>)
        ensures
            match obstacle(signed_in, client) {
                Some(text) => *final(self) == *old(self) && refused is Some
                    && refused.unwrap().says(text, true),
                None => refused is None && *final(self) == (HomeState {
                    recommendation_loading: Some(kind),
                    ..*old(self)
                }),
            },
    {
        if let Some(text) = find_obstacle(signed_in, client) {
            return Some(StatusMessage::error(text));
        }
        self.recommendation_loading = Some(kind);
        None
    }
}

/// What arriving recommendations lead to.
#[derive(Debug)]
pub enum RecommendationStart {
    /// Others were asked for in the meantime.
    Late,
    /// They play from the first on.
    Play,
    Refused(StatusMessage),
}

/// Takes in recommendations and makes them the queue; what an earlier run left is then
/// no longer taken up.
pub fn finish_recommendation(
    home: &mut HomeState,
    playback: &mut Playback,
    queue: &mut Option<PlaybackQueue>,
    pending_restore: &mut Option<PersistedPlayback>,
    kind: RecommendationKind,
    found: Result<(Vec<Track>, PersistedQueueContinuation), String>,
) -> (start: RecommendationStart)
    ensures
        old(home).recommendation_loading != Some(kind) ==> start is Late && *final(home)
            == *old(home) && final(playback)@ == old(playback)@ && *final(queue) == *old(queue)
            && *final(pending_restore) == *old(pending_restore),
        old(home).recommendation_loading == Some(kind) ==> {
            &&& *final(home) == (HomeState { recommendation_loading: None, ..*old(home) })
            &&& match found {
                Ok((tracks, continuation)) if tracks@.len() > 0 => {
                    &&& start is Play
                    &&& *final(pending_restore) is None
                    &&& final(playback)@ == (PlaybackView {
                        queue_generation: next_count(old(playback)@.queue_generation),
                        queue_recommendation_loading: false,
                        queue_waiting_for_recommendation: false,
                        ..old(playback)@
                    })
                    &&& *final(queue) is Some
                    &&& (*final(queue)).unwrap().playlist_id@
                        == (crate::catalog::PlaylistKey::Recommendation { kind })
                    &&& values((*final(queue)).unwrap().tracks@) == tracks@
                    &&& !(*final(queue)).unwrap().modified
                    &&& (*final(queue)).unwrap().continuation == Some(continuation)
                },
                Ok(_) => {
                    &&& start matches RecommendationStart::Refused(status) && status.says(
                        "QQ 音乐没有返回可播放的推荐歌曲"@,
                        true,
                    )
                    &&& final(playback)@ == old(playback)@ && *final(queue) == *old(queue)
                    &&& *final(pending_restore) == *old(pending_restore)
                },
                Err(error) => {
                    &&& start matches RecommendationStart::Refused(status) && status.says(
                        "加载个性化推荐失败："@ + error@,
                        true,
                    )
                    &&& final(playback)@ == old(playback)@ && *final(queue) == *old(queue)
                    &&& *final(pending_restore) == *old(pending_restore)
                },
            }
        },
{
    let awaited: bool = match home.recommendation_loading {
        Some(loading) => loading == kind,
        None => false,
    };
    if !awaited {
        return RecommendationStart::Late;
    }
    home.recommendation_loading = None;
    match found {
        Ok((tracks, continuation)) => {
            if tracks.len() == 0 {
                return RecommendationStart::Refused(
                    StatusMessage::error("QQ 音乐没有返回可播放的推荐歌曲".to_owned()),
                );
            }
            *pending_restore = None;
            playback.queue_generation = playback.queue_generation.wrapping_add(1);
            playback.queue_recommendation_loading = false;
            playback.queue_waiting_for_recommendation = false;
            *queue = Some(
                PlaybackQueue {
                    playlist_id: UserPlaylistId::Recommendation { kind },
                    tracks: share_items(tracks),
                    modified: false,
                    continuation: Some(continuation),
                },
            );
            RecommendationStart::Play
        },
        Err(error) => RecommendationStart::Refused(
            StatusMessage::error(labelled("加载个性化推荐失败：", error.as_str())),
        ),
    }
}

/// More of an artist is shown five at a time.
pub proof fn artists_show_five_more(count: usize)
    ensures
        grown_count(count, false) == count,
        count <= usize::MAX - 5 ==> grown_count(count, true) == count + 5,
        count > usize::MAX - 5 ==> grown_count(count, true) == usize::MAX,
{
}

/// Songs or albums of an artist are asked for from where those that are there end, unless
/// enough are there or no more are to be had; the first ones are asked for from the start,
/// and only by showing the artist.
pub proof fn artists_ask_for_what_is_missing(
    len: int,
    more: bool,
    offset: u64,
    append: bool,
    count: int,
)
    ensures
        artist_request(Some((len, more, offset)), false, append, count) == (if len < count && more {
            PageRequest::Ask(offset)
        } else {
            PageRequest::Show
        }),
        artist_request(None, false, false, count) == PageRequest::Ask(0),
        artist_request(None, false, true, count) == PageRequest::Nothing,
        artist_request(Some((len, more, offset)), true, append, count) == PageRequest::Nothing,
        artist_request(None, true, append, count) == PageRequest::Nothing,
{
}

/// More results of a kind are asked for exactly where fewer are there than are to be shown
/// and more are to be had.
pub proof fn searches_ask_for_what_is_missing(
    resource: SearchResource,
    category: SearchCategory,
    count: int,
)
    ensures
        resource.lacks(category, count) ==> resource.results is Some,
        resource.results matches Some(results) ==> (resource.lacks(category, count) <==> match category {
            SearchCategory::Songs => results.songs.items@.len() < count && results.songs.has_more,
            SearchCategory::Artists => results.artists.items@.len() < count
                && results.artists.has_more,
            SearchCategory::Albums => results.albums.items@.len() < count
                && results.albums.has_more,
            SearchCategory::Playlists => results.playlists.items@.len() < count
                && results.playlists.has_more,
        }),
        resource.settled(category) <==> resource.results is Some && !resource.loading
            && !resource.loading_more@[category.place()],
{
}

/// Nothing is asked for without an account, and nothing without a client; the account is
/// missed first.
pub proof fn an_account_is_missed_first(signed_in: bool, client: bool)
    ensures
        obstacle(signed_in, client) is None <==> signed_in && client,
        !signed_in ==> obstacle(signed_in, client) == Some("请先登录 QQ 音乐"@),
        signed_in && !client ==> obstacle(signed_in, client) == Some("QQ 音乐客户端不可用"@),
{
}

/// A further page comes behind what is there, item by item, and says whether more are to
/// be had and from where.
pub proof fn further_pages_come_behind<T>(
    before: SharedSearchPage<T>,
    after: SharedSearchPage<T>,
    page: SearchPage<T>,
    offset: u64,
)
    requires
        page_taken(Some(before), Some(after), page, offset),
    ensures
        offset == 0 ==> after.items@.len() == page.items@.len() && forall|i: int|
            0 <= i < page.items@.len() ==> *(#[trigger] after.items@[i]) == page.items@[i],
        offset != 0 ==> after.items@.len() == before.items@.len() + page.items@.len() && (forall|
            i: int,
        |
            0 <= i < before.items@.len() ==> *(#[trigger] after.items@[i]) == *before.items@[i])
            && (forall|i: int|
            0 <= i < page.items@.len() ==> *(#[trigger] after.items@[before.items@.len() + i])
                == page.items@[i]),
        after.has_more == page.has_more && after.next_offset == page.next_offset,
{
    let all = values(after.items@);
    assert(all.len() == after.items@.len());
    assert forall|i: int| 0 <= i < after.items@.len() implies *(#[trigger] after.items@[i])
        == all[i] by {}
    assert forall|i: int| 0 <= i < before.items@.len() implies *(#[trigger] before.items@[i])
        == values(before.items@)[i] by {}
    if offset != 0 {
        assert forall|i: int| 0 <= i < before.items@.len() implies *(#[trigger] after.items@[i])
            == *before.items@[i] by {
            assert(all[i] == values(before.items@)[i]);
        }
        assert forall|i: int| 0 <= i < page.items@.len() implies *(
        #[trigger] after.items@[before.items@.len() + i]) == page.items@[i] by {
            assert(all[before.items@.len() + i] == page.items@[i]);
        }
    }
}

/// A further page of results changes its own kind alone.
pub proof fn further_results_change_their_own_kind(
    before: SharedSearchResults,
    after: SharedSearchResults,
    more: SearchMoreResults,
)
    requires
        appended(before, after, more),
    ensures
        !(more is Songs) ==> after.songs == before.songs,
        !(more is Artists) ==> after.artists == before.artists,
        !(more is Albums) ==> after.albums == before.albums,
        !(more is Playlists) ==> after.playlists == before.playlists,
        more matches SearchMoreResults::Songs(page) ==> after.songs.items@.len()
            == before.songs.items@.len() + page.items@.len() && after.songs.has_more
            == page.has_more && after.songs.next_offset == page.next_offset,
        more matches SearchMoreResults::Artists(page) ==> after.artists.items@.len()
            == before.artists.items@.len() + page.items@.len() && after.artists.has_more
            == page.has_more && after.artists.next_offset == page.next_offset,
        more matches SearchMoreResults::Albums(page) ==> after.albums.items@.len()
            == before.albums.items@.len() + page.items@.len() && after.albums.has_more
            == page.has_more && after.albums.next_offset == page.next_offset,
        more matches SearchMoreResults::Playlists(page) ==> after.playlists.items@.len()
            == before.playlists.items@.len() + page.items@.len() && after.playlists.has_more
            == page.has_more && after.playlists.next_offset == page.next_offset,
{
    match more {
        SearchMoreResults::Songs(page) => {
            assert(values(after.songs.items@).len() == after.songs.items@.len());
            assert(values(before.songs.items@).len() == before.songs.items@.len());
        },
        SearchMoreResults::Artists(page) => {
            assert(values(after.artists.items@).len() == after.artists.items@.len());
            assert(values(before.artists.items@).len() == before.artists.items@.len());
        },
        SearchMoreResults::Albums(page) => {
            assert(values(after.albums.items@).len() == after.albums.items@.len());
            assert(values(before.albums.items@).len() == before.albums.items@.len());
        },
        SearchMoreResults::Playlists(page) => {
            assert(values(after.playlists.items@).len() == after.playlists.items@.len());
            assert(values(before.playlists.items@).len() == before.playlists.items@.len());
        },
    }
}

} // verus!
