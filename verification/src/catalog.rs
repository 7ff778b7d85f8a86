//! What the music service offers: tracks, playlists, artists, albums, accounts.

use crate::lyrics::line::{copy_text, text_of};
use std::sync::Arc;
use vstd::prelude::*;

verus! {

/// `Arc::clone`: another handle to the same value.
#[verifier::external_body]
pub(crate) fn share<T>(value: &Arc<T>) -> (handle: Arc<T>)
    ensures
        handle == *value,
{
    Arc::clone(value)
}

#[derive(Debug, PartialEq, Eq)]
pub struct SearchArtist {
    pub mid: String,
    pub name: String,
    pub cover_url: Option<String>,
}

#[derive(Debug, PartialEq, Eq)]
pub struct SearchAlbum {
    pub mid: String,
    pub title: String,
    pub cover_url: Option<String>,
    pub artist: String,
}

/// What a `SearchArtist` says.
pub struct ArtistCard {
    pub mid: Seq<char>,
    pub name: Seq<char>,
    pub cover: Option<Seq<char>>,
}

impl View for SearchArtist {
    type V = ArtistCard;

    open spec fn view(&self) -> ArtistCard {
        ArtistCard { mid: self.mid@, name: self.name@, cover: text_of(self.cover_url) }
    }
}

impl Clone for SearchArtist {
    fn clone(&self) -> (copy: Self)
        ensures
            copy@ == self@,
    {
        SearchArtist {
            mid: self.mid.clone(),
            name: self.name.clone(),
            cover_url: copy_text(&self.cover_url),
        }
    }
}

/// What a `SearchAlbum` says.
pub struct AlbumCard {
    pub mid: Seq<char>,
    pub title: Seq<char>,
    pub cover: Option<Seq<char>>,
    pub artist: Seq<char>,
}

impl View for SearchAlbum {
    type V = AlbumCard;

    open spec fn view(&self) -> AlbumCard {
        AlbumCard {
            mid: self.mid@,
            title: self.title@,
            cover: text_of(self.cover_url),
            artist: self.artist@,
        }
    }
}

#[derive(Debug, PartialEq, Eq)]
pub struct Track {
    pub song_id: Option<u64>,
    pub song_type: u64,
    pub mid: String,
    pub media_mid: Option<String>,
    pub standard_size_bytes: Option<u64>,
    pub high_size_bytes: Option<u64>,
    pub lossless_size_bytes: Option<u64>,
    pub hi_res_size_bytes: Option<u64>,
    pub atmos_stereo_size_bytes: Option<u64>,
    pub atmos_surround_size_bytes: Option<u64>,
    pub master_size_bytes: Option<u64>,
    pub title: String,
    pub artists: String,
    pub artist_details: Vec<SearchArtist>,
    pub album: String,
    pub album_mid: String,
    pub cover_url: Option<String>,
    pub duration_seconds: u64,
}

/// What a `Track` says.
pub struct TrackCard {
    pub song_id: Option<u64>,
    pub song_type: u64,
    pub mid: Seq<char>,
    pub media_mid: Option<Seq<char>>,
    pub size_bytes: Seq<Option<u64>>,
    pub title: Seq<char>,
    pub artists: Seq<char>,
    pub artist_details: Seq<ArtistCard>,
    pub album: Seq<char>,
    pub album_mid: Seq<char>,
    pub cover: Option<Seq<char>>,
    pub duration_seconds: u64,
}

impl View for Track {
    type V = TrackCard;

    open spec fn view(&self) -> TrackCard {
        TrackCard {
            song_id: self.song_id,
            song_type: self.song_type,
            mid: self.mid@,
            media_mid: text_of(self.media_mid),
            size_bytes: seq![
                self.standard_size_bytes,
                self.high_size_bytes,
                self.lossless_size_bytes,
                self.hi_res_size_bytes,
                self.atmos_stereo_size_bytes,
                self.atmos_surround_size_bytes,
                self.master_size_bytes,
            ],
            title: self.title@,
            artists: self.artists@,
            artist_details: self.artist_details@.map_values(|artist: SearchArtist| artist@),
            album: self.album@,
            album_mid: self.album_mid@,
            cover: text_of(self.cover_url),
            duration_seconds: self.duration_seconds,
        }
    }
}

fn same_size(a: Option<u64>, b: Option<u64>) -> (result: bool)
    ensures
        result == (a == b),
{
    match (a, b) {
        (Some(a), Some(b)) => a == b,
        (None, None) => true,
        _ => false,
    }
}

pub(crate) fn same_text(a: &Option<String>, b: &Option<String>) -> (result: bool)
    ensures
        result == (text_of(*a) == text_of(*b)),
{
    match (a, b) {
        (Some(a), Some(b)) => a.eq(b),
        (None, None) => true,
        _ => false,
    }
}

fn same_artists(a: &Vec<SearchArtist>, b: &Vec<SearchArtist>) -> (result: bool)
    ensures
        result == (a@.map_values(|artist: SearchArtist| artist@) == b@.map_values(
            |artist: SearchArtist| artist@,
        )),
{
    let ghost first = a@.map_values(|artist: SearchArtist| artist@);
    let ghost second = b@.map_values(|artist: SearchArtist| artist@);
    assert(first.len() == a@.len() && second.len() == b@.len());
    if a.len() != b.len() {
        return false;
    }
    let mut i: usize = 0;
    while i < a.len()
        invariant
            i <= a@.len(),
            a@.len() == b@.len(),
            first == a@.map_values(|artist: SearchArtist| artist@),
            second == b@.map_values(|artist: SearchArtist| artist@),
            forall|j: int| 0 <= j < i ==> #[trigger] first[j] == second[j],
        decreases a.len() - i,
    {
        assert(first[i as int] == a@[i as int]@ && second[i as int] == b@[i as int]@);
        if !(a[i].mid.eq(&b[i].mid) && a[i].name.eq(&b[i].name) && same_text(
            &a[i].cover_url,
            &b[i].cover_url,
        )) {
            return false;
        }
        i += 1;
    }
    assert(first =~= second);
    true
}

impl Track {
    /// Whether both say the same.
    pub fn same(&self, other: &Self) -> (result: bool)
        ensures
            result == (self@ == other@),
    {
        let sizes: bool = same_size(self.standard_size_bytes, other.standard_size_bytes) && same_size(self.high_size_bytes, other.high_size_bytes) && same_size(self.lossless_size_bytes, other.lossless_size_bytes) && same_size(self.hi_res_size_bytes, other.hi_res_size_bytes) && same_size(self.atmos_stereo_size_bytes, other.atmos_stereo_size_bytes) && same_size(self.atmos_surround_size_bytes, other.atmos_surround_size_bytes) && same_size(self.master_size_bytes, other.master_size_bytes);
        let artists = same_artists(&self.artist_details, &other.artist_details);
        proof {
            if sizes {
                assert(self@.size_bytes =~= other@.size_bytes);
            } else {
                assert(self@.size_bytes != other@.size_bytes) by {
                    if self@.size_bytes == other@.size_bytes {
                        assert(self@.size_bytes[0] == other@.size_bytes[0]);
                        assert(self@.size_bytes[1] == other@.size_bytes[1]);
                        assert(self@.size_bytes[2] == other@.size_bytes[2]);
                        assert(self@.size_bytes[3] == other@.size_bytes[3]);
                        assert(self@.size_bytes[4] == other@.size_bytes[4]);
                        assert(self@.size_bytes[5] == other@.size_bytes[5]);
                        assert(self@.size_bytes[6] == other@.size_bytes[6]);
                    }
                }
            }
        }
        same_size(self.song_id, other.song_id) && self.song_type == other.song_type && self.mid.eq(
            &other.mid,
        ) && same_text(&self.media_mid, &other.media_mid) && sizes && self.title.eq(&other.title)
            && self.artists.eq(&other.artists) && artists && self.album.eq(&other.album)
            && self.album_mid.eq(&other.album_mid) && same_text(
            &self.cover_url,
            &other.cover_url,
        ) && self.duration_seconds == other.duration_seconds
    }
}

pub open spec fn track_cards(tracks: Seq<Arc<Track>>) -> Seq<TrackCard> {
    tracks.map_values(|track: Arc<Track>| (*track)@)
}

pub fn same_tracks(a: &Vec<Arc<Track>>, b: &Vec<Arc<Track>>) -> (result: bool)
    ensures
        result == (track_cards(a@) == track_cards(b@)),
{
    let ghost first = track_cards(a@);
    let ghost second = track_cards(b@);
    assert(first.len() == a@.len() && second.len() == b@.len());
    if a.len() != b.len() {
        return false;
    }
    let mut i: usize = 0;
    while i < a.len()
        invariant
            i <= a@.len(),
            a@.len() == b@.len(),
            first == track_cards(a@),
            second == track_cards(b@),
            forall|j: int| 0 <= j < i ==> #[trigger] first[j] == second[j],
        decreases a.len() - i,
    {
        assert(first[i as int] == (*a@[i as int])@ && second[i as int] == (*b@[i as int])@);
        if !a[i].same(&b[i]) {
            return false;
        }
        i += 1;
    }
    assert(first =~= second);
    true
}

/// How good the sound of a track is.
#[derive(Clone, Copy, Debug, PartialEq, Eq, Structural)]
pub enum Quality {
    Standard,
    High,
    Lossless,
    HiRes,
    AtmosStereo,
    AtmosSurround,
    Master,
}

impl Default for Quality {
    fn default() -> (quality: Self)
        ensures
            quality == Quality::Standard,
    {
        Quality::Standard
    }
}

#[derive(Clone, Copy, Debug, PartialEq, Eq, Structural)]
pub enum RecommendationKind {
    Radar,
    Guess,
}

/// What tells one playlist from another.
#[derive(Debug, PartialEq, Eq)]
pub enum UserPlaylistId {
    Liked,
    Created { tid: u64, dir_id: u64 },
    Favorite { diss_id: u64 },
    Recommended { diss_id: u64 },
    Artist { mid: String },
    Album { mid: String },
    Search { query: String },
    Recommendation { kind: RecommendationKind },
}

pub enum PlaylistKey {
    Liked,
    Created { tid: u64, dir_id: u64 },
    Favorite { diss_id: u64 },
    Recommended { diss_id: u64 },
    Artist { mid: Seq<char> },
    Album { mid: Seq<char> },
    Search { query: Seq<char> },
    Recommendation { kind: RecommendationKind },
}

impl View for UserPlaylistId {
    type V = PlaylistKey;

    open spec fn view(&self) -> PlaylistKey {
        match self {
            UserPlaylistId::Liked => PlaylistKey::Liked,
            UserPlaylistId::Created { tid, dir_id } => PlaylistKey::Created {
                tid: *tid,
                dir_id: *dir_id,
            },
            UserPlaylistId::Favorite { diss_id } => PlaylistKey::Favorite { diss_id: *diss_id },
            UserPlaylistId::Recommended { diss_id } => PlaylistKey::Recommended {
                diss_id: *diss_id,
            },
            UserPlaylistId::Artist { mid } => PlaylistKey::Artist { mid: mid@ },
            UserPlaylistId::Album { mid } => PlaylistKey::Album { mid: mid@ },
            UserPlaylistId::Search { query } => PlaylistKey::Search { query: query@ },
            UserPlaylistId::Recommendation { kind } => PlaylistKey::Recommendation { kind: *kind },
        }
    }
}

impl UserPlaylistId {
    /// Whether both name the same playlist.
    pub fn same(&self, other: &Self) -> (result: bool)
        ensures
            result == (self@ == other@),
    {
        match (self, other) {
            (UserPlaylistId::Liked, UserPlaylistId::Liked) => true,
            (
                UserPlaylistId::Created { tid, dir_id },
                UserPlaylistId::Created { tid: other_tid, dir_id: other_dir },
            ) => *tid == *other_tid && *dir_id == *other_dir,
            (
                UserPlaylistId::Favorite { diss_id },
                UserPlaylistId::Favorite { diss_id: other_id },
            ) => *diss_id == *other_id,
            (
                UserPlaylistId::Recommended { diss_id },
                UserPlaylistId::Recommended { diss_id: other_id },
            ) => *diss_id == *other_id,
            (
                UserPlaylistId::Artist { mid },
                UserPlaylistId::Artist { mid: other_mid },
            ) => mid.eq(other_mid),
            (UserPlaylistId::Album { mid }, UserPlaylistId::Album { mid: other_mid }) => mid.eq(
                other_mid,
            ),
            (
                UserPlaylistId::Search { query },
                UserPlaylistId::Search { query: other_query },
            ) => query.eq(other_query),
            (
                UserPlaylistId::Recommendation { kind },
                UserPlaylistId::Recommendation { kind: other_kind },
            ) => *kind == *other_kind,
            _ => false,
        }
    }

    pub fn is_liked(&self) -> (result: bool)
        ensures
            result == (self@ == PlaylistKey::Liked),
    {
        match self {
            UserPlaylistId::Liked => true,
            _ => false,
        }
    }
}

impl Clone for UserPlaylistId {
    fn clone(&self) -> (copy: Self)
        ensures
            copy@ == self@,
    {
        match self {
            UserPlaylistId::Liked => UserPlaylistId::Liked,
            UserPlaylistId::Created { tid, dir_id } => UserPlaylistId::Created {
                tid: *tid,
                dir_id: *dir_id,
            },
            UserPlaylistId::Favorite { diss_id } => UserPlaylistId::Favorite { diss_id: *diss_id },
            UserPlaylistId::Recommended { diss_id } => UserPlaylistId::Recommended {
                diss_id: *diss_id,
            },
            UserPlaylistId::Artist { mid } => UserPlaylistId::Artist { mid: mid.clone() },
            UserPlaylistId::Album { mid } => UserPlaylistId::Album { mid: mid.clone() },
            UserPlaylistId::Search { query } => UserPlaylistId::Search { query: query.clone() },
            UserPlaylistId::Recommendation { kind } => UserPlaylistId::Recommendation {
                kind: *kind,
            },
        }
    }
}

#[derive(Debug, PartialEq, Eq)]
pub struct UserPlaylist {
    pub id: UserPlaylistId,
    pub title: String,
    pub cover_url: Option<String>,
    pub description: String,
    pub owner: String,
    pub owner_avatar_url: Option<String>,
    pub track_count: u64,
}

/// What a `UserPlaylist` says.
pub struct PlaylistCard {
    pub key: PlaylistKey,
    pub title: Seq<char>,
    pub cover: Option<Seq<char>>,
    pub description: Seq<char>,
    pub owner: Seq<char>,
    pub owner_avatar: Option<Seq<char>>,
    pub track_count: u64,
}

impl View for UserPlaylist {
    type V = PlaylistCard;

    open spec fn view(&self) -> PlaylistCard {
        PlaylistCard {
            key: self.id@,
            title: self.title@,
            cover: text_of(self.cover_url),
            description: self.description@,
            owner: self.owner@,
            owner_avatar: text_of(self.owner_avatar_url),
            track_count: self.track_count,
        }
    }
}

impl Clone for UserPlaylist {
    fn clone(&self) -> (copy: Self)
        ensures
            copy@ == self@,
    {
        UserPlaylist {
            id: self.id.clone(),
            title: self.title.clone(),
            cover_url: copy_text(&self.cover_url),
            description: self.description.clone(),
            owner: self.owner.clone(),
            owner_avatar_url: copy_text(&self.owner_avatar_url),
            track_count: self.track_count,
        }
    }
}

pub open spec fn playlist_cards(playlists: Seq<UserPlaylist>) -> Seq<PlaylistCard> {
    playlists.map_values(|playlist: UserPlaylist| playlist@)
}

pub fn copy_playlists(playlists: &Vec<UserPlaylist>) -> (copy: Vec<UserPlaylist>)
    ensures
        playlist_cards(copy@) == playlist_cards(playlists@),
{
    let mut copy: Vec<UserPlaylist> = Vec::new();
    let mut i: usize = 0;
    while i < playlists.len()
        invariant
            i <= playlists@.len(),
            playlist_cards(copy@) == playlist_cards(playlists@).take(i as int),
        decreases playlists.len() - i,
    {
        let playlist = playlists[i].clone();
        let ghost before = copy@;
        copy.push(playlist);
        assert(playlist_cards(copy@) =~= playlist_cards(before).push(playlist@));
        assert(playlist_cards(playlists@).take(i + 1) =~= playlist_cards(playlists@).take(
            i as int,
        ).push(playlists@[i as int]@));
        i += 1;
    }
    assert(playlist_cards(playlists@).take(i as int) =~= playlist_cards(playlists@));
    copy
}

/// The count of liked tracks after one more or one less.
pub open spec fn counted(track_count: u64, liked: bool) -> u64 {
    if liked {
        if track_count < u64::MAX {
            (track_count + 1) as u64
        } else {
            u64::MAX
        }
    } else if track_count > 0 {
        (track_count - 1) as u64
    } else {
        0
    }
}

pub fn count_liked(track_count: u64, liked: bool) -> (count: u64)
    ensures
        count == counted(track_count, liked),
{
    if liked {
        track_count.saturating_add(1)
    } else {
        track_count.saturating_sub(1)
    }
}

/// Where the playlist of liked tracks first stands.
pub open spec fn first_liked(playlists: Seq<PlaylistCard>) -> Option<int>
    decreases playlists.len(),
{
    if playlists.len() == 0 {
        None
    } else {
        match first_liked(playlists.drop_last()) {
            Some(i) => Some(i),
            None => if playlists.last().key == PlaylistKey::Liked {
                Some(playlists.len() - 1)
            } else {
                None
            },
        }
    }
}

/// The playlists after a track was liked or unliked: the first playlist of liked
/// tracks counts it.
pub open spec fn with_liked_count(playlists: Seq<PlaylistCard>, liked: bool) -> Seq<PlaylistCard> {
    match first_liked(playlists) {
        Some(i) => playlists.update(
            i,
            PlaylistCard {
                track_count: counted(playlists[i].track_count, liked),
                ..playlists[i]
            },
        ),
        None => playlists,
    }
}

proof fn first_liked_stays(playlists: Seq<PlaylistCard>, n: int)
    requires
        0 <= n <= playlists.len(),
    ensures
        first_liked(playlists.take(n)) is Some ==> first_liked(playlists) == first_liked(
            playlists.take(n),
        ),
        first_liked(playlists) matches Some(i) ==> 0 <= i < playlists.len() && playlists[i].key
            == PlaylistKey::Liked,
    decreases playlists.len(),
{
    if playlists.len() > 0 {
        if n == playlists.len() {
            assert(playlists.take(n) =~= playlists);
            first_liked_stays(playlists.drop_last(), n - 1);
        } else {
            first_liked_stays(playlists.drop_last(), n);
            assert(playlists.drop_last().take(n) =~= playlists.take(n));
        }
    }
}

/// Counts a track that was liked or unliked in the playlist of liked tracks.
pub fn count_in_liked_playlist(playlists: &mut Vec<UserPlaylist>, liked: bool)
    ensures
        playlist_cards(final(playlists)@) == with_liked_count(
            playlist_cards(old(playlists)@),
            liked,
        ),
{
    let ghost cards = playlist_cards(playlists@);
    let mut i: usize = 0;
    assert(cards.take(0) =~= Seq::empty());
    while i < playlists.len()
        invariant
            i <= playlists@.len(),
            cards == playlist_cards(playlists@),
            cards == playlist_cards(old(playlists)@),
            first_liked(cards.take(i as int)) is None,
        decreases playlists.len() - i,
    {
        assert(cards.take(i + 1).drop_last() =~= cards.take(i as int));
        assert(cards.take(i + 1).last() == playlists@[i as int]@);
        if playlists[i].id.is_liked() {
            let count = count_liked(playlists[i].track_count, liked);
            playlists[i].track_count = count;
            proof {
                first_liked_stays(cards, i + 1);
                assert(playlist_cards(playlists@) =~= with_liked_count(cards, liked));
            }
            return;
        }
        i += 1;
    }
    assert(cards.take(cards.len() as int) =~= cards);
}

/// Unliking a track undoes the count of liking it, up to the largest count.
pub proof fn unliking_undoes_liking(playlists: Seq<PlaylistCard>)
    requires
        forall|i: int|
            0 <= i < playlists.len() ==> (#[trigger] playlists[i]).track_count < u64::MAX,
    ensures
        with_liked_count(with_liked_count(playlists, true), false) == playlists,
{
    first_liked_stays(playlists, playlists.len() as int);
    let after = with_liked_count(playlists, true);
    if let Some(i) = first_liked(playlists) {
        liked_place_kept(playlists, after);
        assert(with_liked_count(after, false) =~= playlists);
    }
}

proof fn liked_place_kept(a: Seq<PlaylistCard>, b: Seq<PlaylistCard>)
    requires
        a.len() == b.len(),
        forall|i: int| 0 <= i < a.len() ==> (#[trigger] a[i]).key == b[i].key,
    ensures
        first_liked(a) == first_liked(b),
    decreases a.len(),
{
    if a.len() > 0 {
        assert forall|i: int| 0 <= i < a.len() - 1 implies (#[trigger] a.drop_last()[i]).key
            == b.drop_last()[i].key by {
            assert(a.drop_last()[i] == a[i]);
        }
        liked_place_kept(a.drop_last(), b.drop_last());
        assert(a[a.len() - 1].key == b[b.len() - 1].key);
    }
}

#[derive(Debug, PartialEq, Eq)]
pub struct UserProfile {
    pub id: String,
    pub nickname: String,
    pub avatar_url: Option<String>,
}

/// What a `UserProfile` says.
pub struct ProfileCard {
    pub id: Seq<char>,
    pub nickname: Seq<char>,
    pub avatar: Option<Seq<char>>,
}

impl View for UserProfile {
    type V = ProfileCard;

    open spec fn view(&self) -> ProfileCard {
        ProfileCard {
            id: self.id@,
            nickname: self.nickname@,
            avatar: text_of(self.avatar_url),
        }
    }
}

impl Clone for UserProfile {
    fn clone(&self) -> (copy: Self)
        ensures
            copy@ == self@,
    {
        UserProfile {
            id: self.id.clone(),
            nickname: self.nickname.clone(),
            avatar_url: copy_text(&self.avatar_url),
        }
    }
}

/// Where a track with this id first stands.
pub open spec fn track_place(tracks: Seq<Arc<Track>>, mid: Seq<char>) -> Option<int>
    decreases tracks.len(),
{
    if tracks.len() == 0 {
        None
    } else {
        match track_place(tracks.drop_last(), mid) {
            Some(i) => Some(i),
            None => if tracks.last().mid@ == mid {
                Some(tracks.len() - 1)
            } else {
                None
            },
        }
    }
}

/// `track_place` gives the first track with the id, and none only where there is none.
pub proof fn track_place_is_first(tracks: Seq<Arc<Track>>, mid: Seq<char>)
    ensures
        match track_place(tracks, mid) {
            Some(i) => 0 <= i < tracks.len() && tracks[i].mid@ == mid && forall|j: int|
                0 <= j < i ==> (#[trigger] tracks[j]).mid@ != mid,
            None => forall|j: int| 0 <= j < tracks.len() ==> (#[trigger] tracks[j]).mid@ != mid,
        },
    decreases tracks.len(),
{
    if tracks.len() > 0 {
        let rest = tracks.drop_last();
        track_place_is_first(rest, mid);
        if track_place(rest, mid) is None {
            assert forall|j: int| 0 <= j < tracks.len() - 1 implies (
            #[trigger] tracks[j]).mid@ != mid by {
                assert(rest[j] == tracks[j]);
            }
        } else {
            let i = track_place(rest, mid).unwrap();
            assert forall|j: int| 0 <= j < i implies (#[trigger] tracks[j]).mid@ != mid by {
                assert(rest[j] == tracks[j]);
            }
        }
    }
}

/// The first index that meets the description is the place of the track.
pub proof fn first_track_is_place(tracks: Seq<Arc<Track>>, mid: Seq<char>, i: int)
    requires
        0 <= i < tracks.len(),
        tracks[i].mid@ == mid,
        forall|j: int| 0 <= j < i ==> (#[trigger] tracks[j]).mid@ != mid,
    ensures
        track_place(tracks, mid) == Some(i),
{
    track_place_is_first(tracks, mid);
    let found = track_place(tracks, mid);
    if found is None {
        assert(tracks[i].mid@ != mid);
    } else {
        let k = found.unwrap();
        if k < i {
            assert(tracks[k].mid@ != mid);
        }
        if i < k {
            assert(tracks[i].mid@ != mid);
        }
    }
}

/// Finds the first track with this id.
pub fn find_track(tracks: &Vec<Arc<Track>>, mid: &String) -> (found: Option<usize>)
    ensures
        match found {
            Some(i) => track_place(tracks@, mid@) == Some(i as int) && i < tracks@.len(),
            None => track_place(tracks@, mid@) is None,
        },
{
    let mut i: usize = 0;
    while i < tracks.len()
        invariant
            i <= tracks@.len(),
            forall|j: int| 0 <= j < i ==> (#[trigger] tracks@[j]).mid@ != mid@,
        decreases tracks.len() - i,
    {
        if tracks[i].mid.eq(mid) {
            proof {
                first_track_is_place(tracks@, mid@, i as int);
            }
            return Some(i);
        }
        i += 1;
    }
    proof {
        track_place_is_first(tracks@, mid@);
        if let Some(k) = track_place(tracks@, mid@) {
            assert(tracks@[k].mid@ != mid@);
        }
    }
    None
}

/// Handles to the same tracks.
pub fn share_tracks(tracks: &Vec<Arc<Track>>) -> (copy: Vec<Arc<Track>>)
    ensures
        copy@ == tracks@,
{
    let mut copy: Vec<Arc<Track>> = Vec::new();
    let mut i: usize = 0;
    while i < tracks.len()
        invariant
            i <= tracks@.len(),
            copy@ =~= tracks@.take(i as int),
        decreases tracks.len() - i,
    {
        copy.push(share(&tracks[i]));
        i += 1;
    }
    assert(copy@ =~= tracks@);
    copy
}

/// A like counts one more and an unlike one less, within what can be counted, in the first
/// playlist of liked tracks alone.
pub proof fn likes_are_counted_once(playlists: Seq<PlaylistCard>, liked: bool, i: int)
    requires
        0 <= i < playlists.len(),
    ensures
        with_liked_count(playlists, liked).len() == playlists.len(),
        ({
            let first = playlists[i].key == PlaylistKey::Liked && forall|j: int|
                0 <= j < i ==> (#[trigger] playlists[j]).key != PlaylistKey::Liked;
            let after = with_liked_count(playlists, liked)[i];
            &&& !first ==> after == playlists[i]
            &&& first && liked && playlists[i].track_count < u64::MAX ==> after.track_count
                == playlists[i].track_count + 1
            &&& first && !liked && playlists[i].track_count > 0 ==> after.track_count
                == playlists[i].track_count - 1
            &&& first ==> after == (PlaylistCard {
                track_count: after.track_count,
                ..playlists[i]
            })
        }),
{
    first_liked_is_first(playlists);
}

proof fn first_liked_is_first(playlists: Seq<PlaylistCard>)
    ensures
        match first_liked(playlists) {
            Some(i) => 0 <= i < playlists.len() && playlists[i].key == PlaylistKey::Liked
                && forall|j: int| 0 <= j < i ==> (#[trigger] playlists[j]).key != PlaylistKey::Liked,
            None => forall|j: int|
                0 <= j < playlists.len() ==> (#[trigger] playlists[j]).key != PlaylistKey::Liked,
        },
    decreases playlists.len(),
{
    if playlists.len() > 0 {
        let rest = playlists.drop_last();
        first_liked_is_first(rest);
        assert forall|j: int| 0 <= j < rest.len() implies playlists[j] == rest[j] by {}
    }
}

/// Playlists are told apart by their ids: those of one kind by the number, the name or the
/// words that they have, and those of two kinds always.
pub proof fn playlists_are_told_apart(a: UserPlaylistId, b: UserPlaylistId)
    ensures
        a@ == b@ <==> match (a, b) {
            (UserPlaylistId::Liked, UserPlaylistId::Liked) => true,
            (
                UserPlaylistId::Created { tid, dir_id },
                UserPlaylistId::Created { tid: other, dir_id: directory },
            ) => tid == other && dir_id == directory,
            (
                UserPlaylistId::Favorite { diss_id },
                UserPlaylistId::Favorite { diss_id: other },
            ) => diss_id == other,
            (
                UserPlaylistId::Recommended { diss_id },
                UserPlaylistId::Recommended { diss_id: other },
            ) => diss_id == other,
            (UserPlaylistId::Artist { mid }, UserPlaylistId::Artist { mid: other }) => mid@
                == other@,
            (UserPlaylistId::Album { mid }, UserPlaylistId::Album { mid: other }) => mid@
                == other@,
            (UserPlaylistId::Search { query }, UserPlaylistId::Search { query: other }) => query@
                == other@,
            (
                UserPlaylistId::Recommendation { kind },
                UserPlaylistId::Recommendation { kind: other },
            ) => kind == other,
            _ => false,
        },
{
}

} // verus!
