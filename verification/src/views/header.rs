//! The head of a playlist or an artist.

use crate::catalog::{PlaylistCard, PlaylistKey, ProfileCard, UserPlaylist, UserPlaylistId, UserProfile};
use crate::format::{display_width, padded, playlist_title_is_long, push_number};
use crate::lyrics::line::copy_text;
use crate::number::{numeral, numerals_are_short};
use crate::resources::ArtistResource;
use crate::text::push_text;
use crate::views::layout::{pick, Layout};
use vstd::prelude::*;

verus! {

/// The sizes of a head, in pixels.
#[derive(Clone, Copy, Debug, PartialEq, Eq, Structural)]
pub struct HeaderSizes {
    pub cover: u32,
    pub title: u32,
    pub title_line: u32,
    pub height: u32,
    pub gap: u32,
}

/// The sizes of a playlist's head: a long title is set smaller.
pub open spec fn playlist_sizes(layout: Layout, long_title: bool) -> HeaderSizes {
    HeaderSizes {
        cover: pick(layout, 112, 142, 176),
        title: if long_title {
            pick(layout, 22, 28, 36)
        } else {
            pick(layout, 28, 34, 44)
        },
        title_line: if long_title {
            pick(layout, 29, 36, 46)
        } else {
            pick(layout, 36, 44, 56)
        },
        height: pick(layout, 190, 214, 246),
        gap: pick(layout, 16, 20, 28),
    }
}

pub open spec fn artist_sizes(layout: Layout) -> HeaderSizes {
    HeaderSizes {
        cover: pick(layout, 112, 142, 176),
        title: pick(layout, 34, 40, 52),
        title_line: pick(layout, 45, 52, 68),
        height: pick(layout, 190, 214, 246),
        gap: pick(layout, 16, 20, 28),
    }
}

pub open spec fn badge_text(key: PlaylistKey) -> Seq<char> {
    match key {
        PlaylistKey::Artist { .. } => "歌手"@,
        PlaylistKey::Album { .. } => "专辑"@,
        _ => "歌单"@,
    }
}

/// The playlist is the listener's own.
pub open spec fn own(key: PlaylistKey) -> bool {
    key is Liked || key is Created
}

pub open spec fn profile_card(profile: Option<UserProfile>) -> Option<ProfileCard> {
    match profile {
        Some(profile) => Some(profile@),
        None => None,
    }
}

/// Who owns a playlist, by name and picture: where the playlist does not say and it is
/// the listener's own, the listener. Shown only where both are known.
pub open spec fn owner_of(playlist: PlaylistCard, profile: Option<ProfileCard>) -> Option<
    (Seq<char>, Seq<char>),
> {
    let listener = if own(playlist.key) {
        profile
    } else {
        None
    };
    let name = if playlist.owner.len() > 0 {
        Some(playlist.owner)
    } else {
        match listener {
            Some(profile) => Some(profile.nickname),
            None => None,
        }
    };
    let picture = match playlist.owner_avatar {
        Some(url) => Some(url),
        None => match listener {
            Some(profile) => profile.avatar,
            None => None,
        },
    };
    match (name, picture) {
        (Some(name), Some(picture)) => Some((name, picture)),
        _ => None,
    }
}

/// What the head of a playlist shows.
#[derive(Debug)]
pub struct PlaylistHeader {
    pub badge: &'static str,
    pub title: String,
    pub long_title: bool,
    pub sizes: HeaderSizes,
    pub owner: Option<(String, String)>,
    pub count: String,
    pub can_play: bool,
}

pub open spec fn count_text(has_owner: bool, track_count: u64) -> Seq<char> {
    (if has_owner {
        "· "@
    } else {
        Seq::empty()
    }) + padded(track_count as nat, 1) + " 首歌曲"@
}

fn badge(id: &UserPlaylistId) -> (text: &'static str)
    ensures
        text@ == badge_text(id@),
{
    match id {
        UserPlaylistId::Artist { .. } => "歌手",
        UserPlaylistId::Album { .. } => "专辑",
        _ => "歌单",
    }
}

pub open spec fn owner_texts(owner: Option<(String, String)>) -> Option<(Seq<char>, Seq<char>)> {
    match owner {
        Some((name, url)) => Some((name@, url@)),
        None => None,
    }
}

fn find_owner(playlist: &UserPlaylist, profile: &Option<UserProfile>) -> (owner: Option<
    (String, String),
>)
    ensures
        owner_texts(owner) == owner_of(playlist@, profile_card(*profile)),
{
    let owned: bool = match &playlist.id {
        UserPlaylistId::Liked => true,
        UserPlaylistId::Created { .. } => true,
        _ => false,
    };
    let name: Option<String> = if !playlist.owner.as_str().is_empty() {
        Some(playlist.owner.clone())
    } else if owned {
        match profile {
            Some(profile) => Some(profile.nickname.clone()),
            None => None,
        }
    } else {
        None
    };
    let picture: Option<String> = match &playlist.owner_avatar_url {
        Some(url) => Some(url.clone()),
        None => if owned {
            match profile {
                Some(profile) => copy_text(&profile.avatar_url),
                None => None,
            }
        } else {
            None
        },
    };
    match (name, picture) {
        (Some(name), Some(picture)) => Some((name, picture)),
        _ => None,
    }
}

impl PlaylistHeader {
    pub open spec fn shows(
        self,
        playlist: PlaylistCard,
        profile: Option<ProfileCard>,
        has_tracks: bool,
        layout: Layout,
    ) -> bool {
        &&& self.badge@ == badge_text(playlist.key)
        &&& self.title@ == playlist.title
        &&& self.long_title == (display_width(playlist.title) > 24)
        &&& self.sizes == playlist_sizes(layout, self.long_title)
        &&& owner_texts(self.owner) == owner_of(playlist, profile)
        &&& self.count@ == count_text(self.owner is Some, playlist.track_count)
        &&& self.can_play == has_tracks
    }
}

/// The head of the page of playlists.
#[derive(Debug)]
pub enum PlaylistHead {
    /// No playlist is selected, and this is said instead.
    Hint(&'static str),
    Playlist(PlaylistHeader),
}

/// Composes the head of the page of playlists.
pub fn playlist_head(
    playlist: &Option<UserPlaylist>,
    profile: &Option<UserProfile>,
    has_tracks: bool,
    layout: Layout,
) -> (head: PlaylistHead)
    ensures
        match (*playlist, head) {
            (None, PlaylistHead::Hint(text)) => text@ == "从左侧选择一个歌单"@,
            (Some(playlist), PlaylistHead::Playlist(header)) => header.shows(
                playlist@,
                profile_card(*profile),
                has_tracks,
                layout,
            ),
            _ => false,
        },
{
    match playlist {
        None => PlaylistHead::Hint("从左侧选择一个歌单"),
        Some(playlist) => PlaylistHead::Playlist(
            playlist_header(playlist, profile, has_tracks, layout),
        ),
    }
}

/// Composes the head of a playlist.
pub fn playlist_header(
    playlist: &UserPlaylist,
    profile: &Option<UserProfile>,
    has_tracks: bool,
    layout: Layout,
) -> (header: PlaylistHeader)
    ensures
        header.shows(playlist@, profile_card(*profile), has_tracks, layout),
{
    let owner = find_owner(playlist, profile);
    let long_title = playlist_title_is_long(playlist.title.as_str());
    let mut count = String::new();
    if owner.is_some() {
        push_text(&mut count, "· ");
    }
    push_number(&mut count, playlist.track_count, 1);
    push_text(&mut count, " 首歌曲");
    assert(count@ =~= count_text(owner is Some, playlist@.track_count));
    PlaylistHeader {
        badge: badge(&playlist.id),
        title: playlist.title.clone(),
        long_title,
        sizes: HeaderSizes {
            cover: layout.pick(112, 142, 176),
            title: if long_title {
                layout.pick(22, 28, 36)
            } else {
                layout.pick(28, 34, 44)
            },
            title_line: if long_title {
                layout.pick(29, 36, 46)
            } else {
                layout.pick(36, 44, 56)
            },
            height: layout.pick(190, 214, 246),
            gap: layout.pick(16, 20, 28),
        },
        owner,
        count,
        can_play: has_tracks,
    }
}

/// What the head of an artist shows.
#[derive(Debug)]
pub struct ArtistHeader {
    pub sizes: HeaderSizes,
    pub count: String,
    pub can_play: bool,
}

pub open spec fn artist_count_text(track_count: u64) -> Seq<char> {
    if track_count == 0 {
        "歌曲与专辑"@
    } else {
        padded(track_count as nat, 1) + " 首歌曲"@
    }
}

/// Composes the head of an artist, where something is known of the artist's songs or
/// not.
pub fn artist_header(resource: Option<&ArtistResource>, layout: Layout) -> (header: ArtistHeader)
    ensures
        header.sizes == artist_sizes(layout),
        header.count@ == artist_count_text(
            match resource {
                Some(resource) => resource.track_count,
                None => 0,
            },
        ),
        header.can_play == (resource is Some && resource.unwrap().songs is Some
            && resource.unwrap().songs.unwrap().items@.len() > 0),
{
    let track_count: u64 = match resource {
        Some(resource) => resource.track_count,
        None => 0,
    };
    let can_play: bool = match resource {
        Some(resource) => match &resource.songs {
            Some(songs) => songs.items.len() > 0,
            None => false,
        },
        None => false,
    };
    let mut count = String::new();
    if track_count == 0 {
        push_text(&mut count, "歌曲与专辑");
    } else {
        push_number(&mut count, track_count, 1);
        push_text(&mut count, " 首歌曲");
    }
    assert(count@ =~= artist_count_text(track_count));
    ArtistHeader {
        sizes: HeaderSizes {
            cover: layout.pick(112, 142, 176),
            title: layout.pick(34, 40, 52),
            title_line: layout.pick(45, 52, 68),
            height: layout.pick(190, 214, 246),
            gap: layout.pick(16, 20, 28),
        },
        count,
        can_play,
    }
}

/// A playlist names its owner and shows their picture; where it does not say, the listener
/// is the owner of their own playlists alone. An owner shows only with both.
pub proof fn own_playlists_belong_to_the_listener(
    playlist: PlaylistCard,
    profile: Option<ProfileCard>,
)
    ensures
        ({
            let mine = playlist.key is Liked || playlist.key is Created;
            let owner = owner_of(playlist, profile);
            &&& playlist.owner.len() > 0 && playlist.owner_avatar is Some ==> owner == Some(
                (playlist.owner, playlist.owner_avatar.unwrap()),
            )
            &&& !mine && (playlist.owner.len() == 0 || playlist.owner_avatar is None) ==> owner
                is None
            &&& mine && profile is None && (playlist.owner.len() == 0 || playlist.owner_avatar
                is None) ==> owner is None
            &&& mine && profile is Some && playlist.owner.len() == 0 && playlist.owner_avatar
                is None ==> owner == (match profile.unwrap().avatar {
                Some(picture) => Some((profile.unwrap().nickname, picture)),
                None => None,
            })
            &&& owner matches Some((name, picture)) ==> (playlist.owner.len() > 0 ==> name
                == playlist.owner) && (playlist.owner_avatar is Some ==> Some(picture)
                == playlist.owner_avatar)
        }),
{
}

/// The head of a page grows with the window, and a long title is set smaller than a short
/// one.
pub proof fn heads_grow_with_the_window(long_title: bool)
    ensures
        ({
            let narrow = playlist_sizes(Layout { narrow: true, compact: true }, long_title);
            let compact = playlist_sizes(Layout { narrow: false, compact: true }, long_title);
            let wide = playlist_sizes(Layout { narrow: false, compact: false }, long_title);
            &&& narrow.cover == 112 && compact.cover == 142 && wide.cover == 176
            &&& narrow.height == 190 && compact.height == 214 && wide.height == 246
            &&& narrow.gap == 16 && compact.gap == 20 && wide.gap == 28
            &&& long_title ==> narrow.title == 22 && compact.title == 28 && wide.title == 36
            &&& !long_title ==> narrow.title == 28 && compact.title == 34 && wide.title == 44
            &&& long_title ==> narrow.title_line == 29 && compact.title_line == 36
                && wide.title_line == 46
            &&& !long_title ==> narrow.title_line == 36 && compact.title_line == 44
                && wide.title_line == 56
        }),
{
}

/// The head of a playlist says its title, its owner and its number of tracks, and can be
/// played where there are tracks. A title of more than 24 places is long.
pub proof fn a_head_says_what_the_playlist_is(
    head: PlaylistHeader,
    playlist: PlaylistCard,
    profile: Option<ProfileCard>,
    has_tracks: bool,
    layout: Layout,
)
    requires
        head.shows(playlist, profile, has_tracks, layout),
    ensures
        head.title@ == playlist.title,
        head.long_title <==> display_width(playlist.title) > 24,
        head.can_play == has_tracks,
        owner_texts(head.owner) == owner_of(playlist, profile),
        head.owner is Some ==> head.count@ == "· "@ + numeral(playlist.track_count as nat, 10)
            + " 首歌曲"@,
        head.owner is None ==> head.count@ == numeral(playlist.track_count as nat, 10)
            + " 首歌曲"@,
{
    numerals_are_short(playlist.track_count as nat);
    assert(padded(playlist.track_count as nat, 1) == numeral(playlist.track_count as nat, 10));
    assert(Seq::<char>::empty() + numeral(playlist.track_count as nat, 10) =~= numeral(
        playlist.track_count as nat,
        10,
    ));
}

/// The head of an artist grows with the window.
pub proof fn artist_heads_grow_with_the_window()
    ensures
        ({
            let narrow = artist_sizes(Layout { narrow: true, compact: true });
            let compact = artist_sizes(Layout { narrow: false, compact: true });
            let wide = artist_sizes(Layout { narrow: false, compact: false });
            &&& narrow.cover == 112 && compact.cover == 142 && wide.cover == 176
            &&& narrow.title == 34 && compact.title == 40 && wide.title == 52
            &&& narrow.title_line == 45 && compact.title_line == 52 && wide.title_line == 68
            &&& narrow.height == 190 && compact.height == 214 && wide.height == 246
            &&& narrow.gap == 16 && compact.gap == 20 && wide.gap == 28
        }),
{
}

/// The number of an artist's songs is said where it is known.
pub proof fn known_counts_are_said(track_count: u64)
    ensures
        track_count == 0 ==> artist_count_text(track_count) == "歌曲与专辑"@,
        track_count > 0 ==> artist_count_text(track_count) == numeral(track_count as nat, 10)
            + " 首歌曲"@,
{
    numerals_are_short(track_count as nat);
}

} // verus!
