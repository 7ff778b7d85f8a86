//! The list of playlists and the table of tracks.

use crate::catalog::{
    count_in_liked_playlist, playlist_cards, with_liked_count, AlbumCard, PlaylistCard,
    PlaylistKey, SearchAlbum, SearchArtist, Track, UserPlaylist, UserPlaylistId,
};
use crate::format::{duration_text, format_duration, padded, push_number};
use crate::icons::{color_code, MediaIcon};
use crate::lyrics::line::{copy_text, text_of};
use crate::scan::{trim, trimmed};
use crate::text::{push_text, to_chars};
use std::sync::Arc;
use vstd::prelude::*;

verus! {

/// What a row of the table asks for.
#[derive(Debug)]
pub enum TrackTableEvent {
    Artist(SearchArtist),
    Album(SearchAlbum),
    /// The track is to play next.
    Enqueue(Arc<Track>),
    Unlike(Arc<Track>),
}

/// The playlists of the listener, and the selected one.
#[derive(Debug)]
pub struct PlaylistListDelegate {
    pub playlists: Vec<UserPlaylist>,
    pub selected_index: Option<usize>,
}

impl View for PlaylistListDelegate {
    type V = Seq<PlaylistCard>;

    open spec fn view(&self) -> Seq<PlaylistCard> {
        playlist_cards(self.playlists@)
    }
}

impl PlaylistListDelegate {
    pub fn new() -> (list: Self)
        ensures
            list@.len() == 0,
            list.selected_index is None,
    {
        PlaylistListDelegate { playlists: Vec::new(), selected_index: None }
    }

    pub fn set_playlists(&mut self, playlists: Vec<UserPlaylist>)
        ensures
            final(self).playlists == playlists,
            final(self).selected_index is None,
    {
        self.playlists = playlists;
        self.selected_index = None;
    }

    /// Replaces the playlist at an index, where there is one.
    pub fn update_playlist(&mut self, index: usize, playlist: UserPlaylist)
        ensures
            final(self).playlists@ == (if index < old(self).playlists@.len() {
                old(self).playlists@.update(index as int, playlist)
            } else {
                old(self).playlists@
            }),
            final(self).selected_index == old(self).selected_index,
    {
        if index < self.playlists.len() {
            self.playlists.set(index, playlist);
        }
    }

    pub fn update_liked_track_count(&mut self, liked: bool)
        ensures
            final(self)@ == with_liked_count(old(self)@, liked),
            final(self).selected_index == old(self).selected_index,
    {
        count_in_liked_playlist(&mut self.playlists, liked);
    }

    pub fn set_selected(&mut self, index: usize)
        ensures
            final(self).selected_index == Some(index),
            final(self).playlists == old(self).playlists,
    {
        self.selected_index = Some(index);
    }

    pub fn playlist(&self, index: usize) -> (playlist: Option<&UserPlaylist>)
        ensures
            match playlist {
                Some(playlist) => index < self.playlists@.len() && *playlist
                    == self.playlists@[index as int],
                None => index >= self.playlists@.len(),
            },
    {
        if index < self.playlists.len() {
            Some(&self.playlists[index])
        } else {
            None
        }
    }

    pub fn clear(&mut self)
        ensures
            final(self)@.len() == 0,
            final(self).selected_index is None,
    {
        self.playlists.clear();
        self.selected_index = None;
    }

    /// The row of a playlist: its title, what stands below it, and whether it is
    /// selected.
    pub fn item(&self, index: usize) -> (row: Option<(String, String, bool)>)
        ensures
            match row {
                Some((title, subtitle, selected)) => index < self@.len() && title@
                    == self@[index as int].title && subtitle@ == subtitle_text(self@[index as int])
                    && selected == (self.selected_index == Some(index)),
                None => index >= self@.len(),
            },
    {
        match self.playlist(index) {
            None => None,
            Some(playlist) => {
                assert(self@[index as int] == playlist@);
                let selected: bool = match self.selected_index {
                    Some(selected) => selected == index,
                    None => false,
                };
                Some((playlist.title.clone(), playlist_subtitle(playlist), selected))
            },
        }
    }
}

pub open spec fn kind_text(key: PlaylistKey) -> Seq<char> {
    match key {
        PlaylistKey::Liked => "已点赞的歌曲"@,
        PlaylistKey::Created { .. } => "创建的歌单"@,
        PlaylistKey::Favorite { .. } => "收藏的歌单"@,
        PlaylistKey::Recommended { .. } => "推荐歌单"@,
        PlaylistKey::Artist { .. } => "歌手"@,
        PlaylistKey::Album { .. } => "专辑"@,
        PlaylistKey::Search { .. } => "搜索结果"@,
        PlaylistKey::Recommendation { .. } => "个性化推荐"@,
    }
}

fn playlist_kind(id: &UserPlaylistId) -> (text: &'static str)
    ensures
        text@ == kind_text(id@),
{
    match id {
        UserPlaylistId::Liked => "已点赞的歌曲",
        UserPlaylistId::Created { .. } => "创建的歌单",
        UserPlaylistId::Favorite { .. } => "收藏的歌单",
        UserPlaylistId::Recommended { .. } => "推荐歌单",
        UserPlaylistId::Artist { .. } => "歌手",
        UserPlaylistId::Album { .. } => "专辑",
        UserPlaylistId::Search { .. } => "搜索结果",
        UserPlaylistId::Recommendation { .. } => "个性化推荐",
    }
}

/// The kind of a playlist and its owner, or its size where no owner is known.
pub open spec fn subtitle_text(playlist: PlaylistCard) -> Seq<char> {
    if playlist.owner.len() == 0 {
        kind_text(playlist.key) + " · "@ + padded(playlist.track_count as nat, 1) + " 首"@
    } else {
        kind_text(playlist.key) + " · "@ + playlist.owner
    }
}

pub fn playlist_subtitle(playlist: &UserPlaylist) -> (text: String)
    ensures
        text@ == subtitle_text(playlist@),
{
    let mut text = String::new();
    push_text(&mut text, playlist_kind(&playlist.id));
    push_text(&mut text, " · ");
    if playlist.owner.as_str().is_empty() {
        push_number(&mut text, playlist.track_count, 1);
        push_text(&mut text, " 首");
    } else {
        push_text(&mut text, playlist.owner.as_str());
    }
    assert(text@ =~= subtitle_text(playlist@));
    text
}

/// What stands for the cover of a playlist.
#[derive(Debug)]
pub enum PlaylistCover {
    /// The drawn cover of the liked tracks.
    Liked,
    Picture(String),
    Placeholder(MediaIcon),
}

pub fn playlist_cover(playlist: &UserPlaylist) -> (cover: PlaylistCover)
    ensures
        match cover {
            PlaylistCover::Liked => playlist@.key == PlaylistKey::Liked,
            PlaylistCover::Picture(url) => playlist@.key != PlaylistKey::Liked && playlist@.cover
                == Some(url@),
            PlaylistCover::Placeholder(icon) => playlist@.key != PlaylistKey::Liked
                && playlist@.cover is None && icon == MediaIcon::Folder,
        },
{
    if playlist.id.is_liked() {
        return PlaylistCover::Liked;
    }
    match &playlist.cover_url {
        Some(url) => PlaylistCover::Picture(url.clone()),
        None => PlaylistCover::Placeholder(MediaIcon::Folder),
    }
}

/// The drawn cover of the liked tracks. The radius of its corners is a text that SVG
/// takes; the colors are four bytes each.
pub open spec fn liked_picture(
    radius: Seq<char>,
    ring: u32,
    primary: u32,
    danger: u32,
    foreground: u32,
) -> Seq<char> {
    "<svg xmlns=\"http://www.w3.org/2000/svg\" viewBox=\"0 0 100 100\">\n<defs><clipPath id=\"cover\"><rect width=\"100\" height=\"100\" rx=\""@
        + radius
        + "\"/></clipPath></defs>\n<g clip-path=\"url(#cover)\">\n<rect width=\"100\" height=\"100\" fill=\""@
        + color_code(ring) + "\"/>\n<circle cx=\"82\" cy=\"12\" r=\"36\" fill=\""@ + color_code(
        primary,
    ) + "\" fill-opacity=\"0.28\"/>\n<circle cx=\"14\" cy=\"104\" r=\"34\" fill=\""@ + color_code(
        danger,
    )
        + "\" fill-opacity=\"0.22\"/>\n</g>\n<path d=\"M50 73 27 52C10 37 20 19 36 22c7 1 11 7 14 12 3-5 7-11 14-12 16-3 26 15 9 30Z\" transform=\"translate(32.5 33.9) scale(.35)\" vector-effect=\"non-scaling-stroke\" fill=\"none\" stroke=\""@
        + color_code(foreground)
        + "\" stroke-width=\"2.4\" stroke-linecap=\"round\" stroke-linejoin=\"round\"/>\n</svg>"@
}

pub fn liked_cover_svg(radius: &str, ring: u32, primary: u32, danger: u32, foreground: u32) -> (svg:
    String)
    ensures
        svg@ == liked_picture(radius@, ring, primary, danger, foreground),
{
    let mut svg = String::new();
    push_text(
        &mut svg,
        "<svg xmlns=\"http://www.w3.org/2000/svg\" viewBox=\"0 0 100 100\">\n<defs><clipPath id=\"cover\"><rect width=\"100\" height=\"100\" rx=\"",
    );
    push_text(&mut svg, radius);
    push_text(
        &mut svg,
        "\"/></clipPath></defs>\n<g clip-path=\"url(#cover)\">\n<rect width=\"100\" height=\"100\" fill=\"",
    );
    crate::icons::push_color(&mut svg, ring);
    push_text(&mut svg, "\"/>\n<circle cx=\"82\" cy=\"12\" r=\"36\" fill=\"");
    crate::icons::push_color(&mut svg, primary);
    push_text(
        &mut svg,
        "\" fill-opacity=\"0.28\"/>\n<circle cx=\"14\" cy=\"104\" r=\"34\" fill=\"",
    );
    crate::icons::push_color(&mut svg, danger);
    push_text(
        &mut svg,
        "\" fill-opacity=\"0.22\"/>\n</g>\n<path d=\"M50 73 27 52C10 37 20 19 36 22c7 1 11 7 14 12 3-5 7-11 14-12 16-3 26 15 9 30Z\" transform=\"translate(32.5 33.9) scale(.35)\" vector-effect=\"non-scaling-stroke\" fill=\"none\" stroke=\"",
    );
    crate::icons::push_color(&mut svg, foreground);
    push_text(
        &mut svg,
        "\" stroke-width=\"2.4\" stroke-linecap=\"round\" stroke-linejoin=\"round\"/>\n</svg>",
    );
    assert(svg@ =~= liked_picture(radius@, ring, primary, danger, foreground));
    svg
}

#[derive(Clone, Copy, Debug, PartialEq, Eq, Structural)]
pub enum ColumnKey {
    Number,
    Title,
    Album,
    Duration,
}

/// A column of the table, its widths in pixels.
#[derive(Clone, Copy, Debug, PartialEq, Eq, Structural)]
pub struct Column {
    pub key: ColumnKey,
    pub width: u32,
    pub min_width: Option<u32>,
    pub resizable: bool,
    pub movable: bool,
    pub right_aligned: bool,
}

impl Column {
    pub open spec fn heading(self) -> Seq<char> {
        match self.key {
            ColumnKey::Number => "#"@,
            ColumnKey::Title => "标题"@,
            ColumnKey::Album => "专辑"@,
            ColumnKey::Duration => "时长"@,
        }
    }

    pub fn name(self) -> (name: &'static str)
        ensures
            name@ == self.heading(),
    {
        match self.key {
            ColumnKey::Number => "#",
            ColumnKey::Title => "标题",
            ColumnKey::Album => "专辑",
            ColumnKey::Duration => "时长",
        }
    }
}

pub open spec fn column(key: ColumnKey) -> Column {
    match key {
        ColumnKey::Number => Column {
            key,
            width: 48,
            min_width: None,
            resizable: false,
            movable: false,
            right_aligned: false,
        },
        ColumnKey::Title => Column {
            key,
            width: 420,
            min_width: Some(240),
            resizable: true,
            movable: true,
            right_aligned: false,
        },
        ColumnKey::Album => Column {
            key,
            width: 240,
            min_width: Some(136),
            resizable: true,
            movable: true,
            right_aligned: false,
        },
        ColumnKey::Duration => Column {
            key,
            width: 84,
            min_width: Some(72),
            resizable: false,
            movable: false,
            right_aligned: true,
        },
    }
}

/// The columns of the table: without room it leaves the album out.
pub open spec fn columns_for(compact: bool) -> Seq<Column> {
    if compact {
        seq![column(ColumnKey::Number), column(ColumnKey::Title), column(ColumnKey::Duration)]
    } else {
        seq![
            column(ColumnKey::Number),
            column(ColumnKey::Title),
            column(ColumnKey::Album),
            column(ColumnKey::Duration),
        ]
    }
}

pub fn track_columns(compact: bool) -> (columns: Vec<Column>)
    ensures
        columns@ == columns_for(compact),
{
    let mut columns: Vec<Column> = Vec::new();
    columns.push(
        Column {
            key: ColumnKey::Number,
            width: 48,
            min_width: None,
            resizable: false,
            movable: false,
            right_aligned: false,
        },
    );
    columns.push(
        Column {
            key: ColumnKey::Title,
            width: 420,
            min_width: Some(240),
            resizable: true,
            movable: true,
            right_aligned: false,
        },
    );
    if !compact {
        columns.push(
            Column {
                key: ColumnKey::Album,
                width: 240,
                min_width: Some(136),
                resizable: true,
                movable: true,
                right_aligned: false,
            },
        );
    }
    columns.push(
        Column {
            key: ColumnKey::Duration,
            width: 84,
            min_width: Some(72),
            resizable: false,
            movable: false,
            right_aligned: true,
        },
    );
    assert(columns@ =~= columns_for(compact));
    columns
}

/// The table of tracks.
#[derive(Debug)]
pub struct TrackTableDelegate {
    pub columns: Vec<Column>,
    pub tracks: Vec<Arc<Track>>,
    pub loading: bool,
    pub has_more: bool,
    pub playing_index: Option<usize>,
    pub loading_index: Option<usize>,
    pub playback_active: bool,
    pub show_liked_actions: bool,
    pub compact: bool,
}

/// What the number of a row shows.
#[derive(Clone, Copy, Debug, PartialEq, Eq, Structural)]
pub enum NumberCell {
    Loading,
    /// The row is current: a click pauses it or goes on with it.
    Current { pauses: bool },
    Number(usize),
}

/// What stands for the artists of a track.
#[derive(Debug)]
pub enum ArtistLine {
    /// One text.
    Plain(String),
    /// A link for each artist, with ` / ` between each two.
    Links(Vec<SearchArtist>),
}

impl ArtistLine {
    pub open spec fn names(self, track: Track) -> bool {
        match self {
            ArtistLine::Plain(text) => track.artist_details@.len() == 0 && text@ == track.artists@,
            ArtistLine::Links(artists) => track.artist_details@.len() > 0 && artists@.map_values(
                |artist: SearchArtist| artist@,
            ) == track@.artist_details,
        }
    }
}

pub fn artist_line(track: &Track) -> (line: ArtistLine)
    ensures
        line.names(*track),
{
    if track.artist_details.len() == 0 {
        return ArtistLine::Plain(track.artists.clone());
    }
    let ghost all = track@.artist_details;
    let mut artists: Vec<SearchArtist> = Vec::new();
    let mut i: usize = 0;
    assert(artists@.map_values(|artist: SearchArtist| artist@) =~= all.take(0));
    while i < track.artist_details.len()
        invariant
            i <= track.artist_details@.len(),
            all == track@.artist_details,
            artists@.map_values(|artist: SearchArtist| artist@) == all.take(i as int),
        decreases track.artist_details.len() - i,
    {
        let artist = track.artist_details[i].clone();
        let ghost before = artists@;
        artists.push(artist);
        assert(artists@.map_values(|artist: SearchArtist| artist@) =~= before.map_values(
            |artist: SearchArtist| artist@,
        ).push(artist@));
        assert(all.take(i + 1) =~= all.take(i as int).push(all[i as int]));
        i += 1;
    }
    assert(all.take(all.len() as int) =~= all);
    ArtistLine::Links(artists)
}

/// The album that a track leads to: none without an id and a title.
pub open spec fn linked_album(track: Track) -> Option<AlbumCard> {
    if trim(track.album_mid@).len() > 0 && trim(track.album@).len() > 0 {
        Some(
            AlbumCard {
                mid: track.album_mid@,
                title: track.album@,
                cover: text_of(track.cover_url),
                artist: track.artists@,
            },
        )
    } else {
        None
    }
}

pub fn album_link(track: &Track) -> (album: Option<SearchAlbum>)
    ensures
        match album {
            Some(album) => linked_album(*track) == Some(album@),
            None => linked_album(*track) is None,
        },
{
    let mid = to_chars(track.album_mid.as_str());
    let title = to_chars(track.album.as_str());
    if trimmed(mid.as_slice()).len() > 0 && trimmed(title.as_slice()).len() > 0 {
        Some(
            SearchAlbum {
                mid: track.album_mid.clone(),
                title: track.album.clone(),
                cover_url: copy_text(&track.cover_url),
                artist: track.artists.clone(),
            },
        )
    } else {
        None
    }
}

/// What a cell of the table shows.
#[derive(Debug)]
pub enum Cell {
    Empty,
    Number(NumberCell),
    Title { cover: Option<String>, title: String, highlighted: bool, artists: ArtistLine },
    Album { text: String, link: Option<SearchAlbum> },
    Duration { text: String, can_unlike: bool },
}

impl TrackTableDelegate {
    pub open spec fn wf(self) -> bool {
        self.columns@ == columns_for(self.compact)
    }

    pub fn new() -> (table: Self)
        ensures
            table.wf(),
            !table.compact,
            table.tracks@.len() == 0,
            !table.loading && !table.has_more,
            table.playing_index is None && table.loading_index is None,
            !table.playback_active && !table.show_liked_actions,
    {
        TrackTableDelegate {
            columns: track_columns(false),
            tracks: Vec::new(),
            loading: false,
            has_more: false,
            playing_index: None,
            loading_index: None,
            playback_active: false,
            show_liked_actions: false,
            compact: false,
        }
    }

    /// Empties the table for a list that is being loaded.
    pub fn reset(&mut self, show_liked_actions: bool)
        ensures
            final(self).wf(),
            final(self).compact == old(self).compact,
            final(self).tracks@.len() == 0,
            final(self).loading && !final(self).has_more,
            final(self).playing_index is None && final(self).loading_index is None,
            !final(self).playback_active,
            final(self).show_liked_actions == show_liked_actions,
    {
        self.tracks.clear();
        self.loading = true;
        self.has_more = false;
        self.playing_index = None;
        self.loading_index = None;
        self.playback_active = false;
        self.show_liked_actions = show_liked_actions;
        self.columns = track_columns(self.compact);
    }

    pub fn set_tracks(&mut self, tracks: Vec<Arc<Track>>, has_more: bool, loading: bool)
        ensures
            *final(self) == (TrackTableDelegate { tracks, has_more, loading, ..*old(self) }),
    {
        self.tracks = tracks;
        self.loading = loading;
        self.has_more = has_more;
    }

    pub fn set_loading(&mut self, loading: bool)
        ensures
            *final(self) == (TrackTableDelegate { loading, ..*old(self) }),
    {
        self.loading = loading;
    }

    pub fn set_playback_state(
        &mut self,
        playing_index: Option<usize>,
        loading_index: Option<usize>,
        playback_active: bool,
    )
        ensures
            *final(self) == (TrackTableDelegate {
                playing_index,
                loading_index,
                playback_active,
                ..*old(self)
            }),
    {
        self.playing_index = playing_index;
        self.loading_index = loading_index;
        self.playback_active = playback_active;
    }

    /// Fits the columns to the room there is, and says whether that changed them.
    pub fn set_compact(&mut self, compact: bool) -> (changed: bool)
        ensures
            changed == (old(self).compact != compact),
            !changed ==> *final(self) == *old(self),
            changed ==> final(self).wf() && *final(self) == (TrackTableDelegate {
                compact,
                columns: final(self).columns,
                ..*old(self)
            }),
    {
        if self.compact == compact {
            return false;
        }
        self.compact = compact;
        self.columns = track_columns(compact);
        true
    }

    pub fn tracks(&self) -> (tracks: &Vec<Arc<Track>>)
        ensures
            *tracks == self.tracks,
    {
        &self.tracks
    }

    pub fn has_more(&self) -> (result: bool)
        ensures
            result == self.has_more,
    {
        self.has_more
    }

    pub fn clear(&mut self)
        ensures
            final(self).wf(),
            final(self).compact == old(self).compact,
            final(self).tracks@.len() == 0,
            !final(self).loading && !final(self).has_more,
            final(self).playing_index is None && final(self).loading_index is None,
            !final(self).playback_active && !final(self).show_liked_actions,
    {
        self.tracks.clear();
        self.loading = false;
        self.has_more = false;
        self.playing_index = None;
        self.loading_index = None;
        self.playback_active = false;
        self.show_liked_actions = false;
        self.columns = track_columns(self.compact);
    }

    /// The table shows that it is loading: while it has nothing else to show.
    pub fn shows_loading(&self) -> (result: bool)
        ensures
            result == (self.loading && self.tracks@.len() == 0),
    {
        self.loading && self.tracks.len() == 0
    }

    /// More can be asked for.
    pub fn can_load_more(&self) -> (result: bool)
        ensures
            result == (self.has_more && !self.loading),
    {
        self.has_more && !self.loading
    }

    /// More was asked for: the table is loading where the wish was taken.
    pub fn load_more(&mut self, taken: bool)
        ensures
            *final(self) == (TrackTableDelegate {
                loading: old(self).loading || (old(self).has_more && taken),
                ..*old(self)
            }),
    {
        if self.has_more && !self.loading && taken {
            self.loading = true;
        }
    }

    pub open spec fn number_cell(self, row: int) -> NumberCell {
        if self.loading_index is Some && self.loading_index.unwrap() == row {
            NumberCell::Loading
        } else if self.playing_index is Some && self.playing_index.unwrap() == row {
            NumberCell::Current { pauses: self.playback_active }
        } else {
            NumberCell::Number((row + 1) as usize)
        }
    }

    /// A cell shows what its column says of the track in its row.
    pub open spec fn shows(self, cell: Cell, row: int, key: ColumnKey) -> bool {
        let track = *self.tracks@[row];
        match key {
            ColumnKey::Number => cell == Cell::Number(self.number_cell(row)),
            ColumnKey::Title => cell matches Cell::Title { cover, title, highlighted, artists }
                && text_of(cover) == text_of(track.cover_url) && title@ == track.title@
                && highlighted == (self.playing_index is Some && self.playing_index.unwrap()
                == row) && artists.names(track),
            ColumnKey::Album => cell matches Cell::Album { text, link } && text@ == (
            if track.album@.len() == 0 {
                "—"@
            } else {
                track.album@
            }) && match link {
                Some(album) => linked_album(track) == Some(album@),
                None => linked_album(track) is None,
            },
            ColumnKey::Duration => cell matches Cell::Duration { text, can_unlike } && text@
                == duration_text(track.duration_seconds) && can_unlike == self.show_liked_actions,
        }
    }

    /// The cell in a row and a column, and an empty one outside the table.
    pub fn cell(&self, row: usize, col: usize) -> (cell: Cell)
        ensures
            row >= self.tracks@.len() || col >= self.columns@.len() ==> cell is Empty,
            row < self.tracks@.len() && col < self.columns@.len() ==> self.shows(
                cell,
                row as int,
                self.columns@[col as int].key,
            ),
    {
        let count: usize = self.tracks.len();
        if row >= count || col >= self.columns.len() {
            return Cell::Empty;
        }
        let track = &self.tracks[row];
        let playing: bool = match self.playing_index {
            Some(index) => index == row,
            None => false,
        };
        let loading: bool = match self.loading_index {
            Some(index) => index == row,
            None => false,
        };
        match self.columns[col].key {
            ColumnKey::Number => Cell::Number(
                if loading {
                    NumberCell::Loading
                } else if playing {
                    NumberCell::Current { pauses: self.playback_active }
                } else {
                    NumberCell::Number(row + 1)
                },
            ),
            ColumnKey::Title => Cell::Title {
                cover: copy_text(&track.cover_url),
                title: track.title.clone(),
                highlighted: playing,
                artists: artist_line(track),
            },
            ColumnKey::Album => Cell::Album {
                text: if track.album.as_str().is_empty() {
                    "—".to_owned()
                } else {
                    track.album.clone()
                },
                link: album_link(track),
            },
            ColumnKey::Duration => Cell::Duration {
                text: format_duration(track.duration_seconds),
                can_unlike: self.show_liked_actions,
            },
        }
    }
}

/// The row of the track that loads shows that, the row of the one that plays shows whether
/// it can be paused, and any other shows its number from one on.
pub proof fn rows_are_numbered_from_one(table: TrackTableDelegate, row: int)
    requires
        0 <= row < usize::MAX,
    ensures
        ({
            let loads = table.loading_index is Some && table.loading_index.unwrap() == row;
            let plays = table.playing_index is Some && table.playing_index.unwrap() == row;
            &&& loads ==> table.number_cell(row) == NumberCell::Loading
            &&& plays && !loads ==> table.number_cell(row) == (NumberCell::Current {
                pauses: table.playback_active,
            })
            &&& !plays && !loads ==> table.number_cell(row) == NumberCell::Number(
                (row + 1) as usize,
            )
        }),
{
}

/// A track leads to its album where that has an id and a title.
pub proof fn albums_with_an_id_and_a_title_are_linked(track: Track)
    ensures
        linked_album(track) is Some <==> trim(track.album_mid@).len() > 0 && trim(
            track.album@,
        ).len() > 0,
        linked_album(track) matches Some(album) ==> album.mid == track.album_mid@ && album.title
            == track.album@ && album.artist == track.artists@ && album.cover == text_of(
            track.cover_url,
        ),
{
}

/// Below a playlist stands its kind, and then its owner or, where that is not known, its
/// number of tracks.
pub proof fn playlists_name_their_owner(playlist: PlaylistCard)
    ensures
        ({
            let kind = kind_text(playlist.key);
            let text = subtitle_text(playlist);
            &&& text.len() >= kind.len() && text.take(kind.len() as int) == kind
            &&& playlist.owner.len() > 0 ==> text.skip(kind.len() as int) == " · "@
                + playlist.owner
            &&& playlist.owner.len() == 0 ==> text.skip(kind.len() as int) == " · "@
                + crate::number::numeral(playlist.track_count as nat, 10) + " 首"@
        }),
{
    let kind = kind_text(playlist.key);
    let text = subtitle_text(playlist);
    crate::number::numerals_are_short(playlist.track_count as nat);
    assert(text.take(kind.len() as int) =~= kind);
    if playlist.owner.len() > 0 {
        assert(text.skip(kind.len() as int) =~= " · "@ + playlist.owner);
    } else {
        assert(padded(playlist.track_count as nat, 1) == crate::number::numeral(
            playlist.track_count as nat,
            10,
        ));
        assert(text.skip(kind.len() as int) =~= " · "@ + crate::number::numeral(
            playlist.track_count as nat,
            10,
        ) + " 首"@);
    }
}

/// A table without room leaves the album out, and has the same columns otherwise, in the
/// same order.
pub proof fn only_the_album_gives_way()
    ensures
        columns_for(true) == columns_for(false).remove(2),
        columns_for(false).len() == 4,
        columns_for(false)[0].key == ColumnKey::Number,
        columns_for(false)[1].key == ColumnKey::Title,
        columns_for(false)[2].key == ColumnKey::Album,
        columns_for(false)[3].key == ColumnKey::Duration,
{
    assert(columns_for(true) =~= columns_for(false).remove(2));
}

/// A line of artists leads to each of them where they are known one by one, and else is the
/// text alone.
pub proof fn artists_are_linked_one_by_one(line: ArtistLine, track: Track, i: int)
    requires
        line.names(track),
        0 <= i < track.artist_details@.len() || track.artist_details@.len() == 0,
    ensures
        line is Plain <==> track.artist_details@.len() == 0,
        line matches ArtistLine::Plain(text) ==> text@ == track.artists@,
        line matches ArtistLine::Links(artists) ==> artists@.len() == track.artist_details@.len()
            && artists@[i]@ == track.artist_details@[i]@,
{
    if let ArtistLine::Links(artists) = line {
        let views = artists@.map_values(|artist: SearchArtist| artist@);
        assert(views.len() == artists@.len());
        assert(track@.artist_details.len() == track.artist_details@.len());
        assert(views[i] == artists@[i]@);
        assert(track@.artist_details[i] == track.artist_details@[i]@);
    }
}

/// The number and the length of a track have fixed columns, at the two ends; its title and
/// its album have columns that can be widened and moved, but not made too narrow.
pub proof fn titles_and_albums_can_be_widened(key: ColumnKey)
    ensures
        column(key).key == key,
        column(key).resizable <==> key == ColumnKey::Title || key == ColumnKey::Album,
        column(key).movable == column(key).resizable,
        column(key).right_aligned <==> key == ColumnKey::Duration,
        column(ColumnKey::Number).width == 48 && column(ColumnKey::Number).min_width is None,
        column(ColumnKey::Title).width == 420 && column(ColumnKey::Title).min_width == Some(240u32),
        column(ColumnKey::Album).width == 240 && column(ColumnKey::Album).min_width == Some(136u32),
        column(ColumnKey::Duration).width == 84 && column(ColumnKey::Duration).min_width == Some(
            72u32,
        ),
{
}

} // verus!
