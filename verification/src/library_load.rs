//! Loading the library of the listener.

use crate::browser::MainContent;
use crate::catalog::UserPlaylist;
use crate::loading::{labelled, StatusMessage};
use crate::playback::next_count;
use crate::resources::PlaylistResource;
use crate::session::{the_last_view_is_found_again, viewed_place, viewed_playlist};
use crate::settings::{PersistedLibraryView, PersistedPlayback};
use vstd::prelude::*;

verus! {

#[derive(Clone, Copy, Debug, PartialEq, Eq, Structural)]
pub struct LibraryState {
    pub loading: bool,
    /// Counts the requests; answers to an earlier one come too late.
    pub generation: u64,
}

/// What a wish to see the library leads to.
#[derive(Debug)]
pub enum LibraryRequest {
    Nothing,
    /// What was fetched a while ago is shown.
    ShowCached,
    Refused(StatusMessage),
    /// The service is asked; the request has this number.
    Ask(u64, StatusMessage),
}

impl LibraryState {
    /// Waits for nothing any more, as when the listener signs out.
    pub fn reset(&mut self)
        ensures
            *final(self) == (LibraryState {
                loading: false,
                generation: next_count(old(self).generation),
            }),
    {
        self.generation = self.generation.wrapping_add(1);
        self.loading = false;
    }

    /// Begins to load the library. `cached` says whether a fresh one is at hand.
    pub fn load(&mut self, signed_in: bool, force_refresh: bool, cached: bool, client: bool) -> (request:
        LibraryRequest)
        ensures
            if !signed_in {
                request is Nothing && *final(self) == *old(self)
            } else if !force_refresh && cached {
                request is ShowCached && *final(self) == (LibraryState {
                    loading: false,
                    ..*old(self)
                })
            } else if !client {
                *final(self) == *old(self) && (request matches LibraryRequest::Refused(status)
                    && status.says("QQ 音乐客户端不可用"@, true))
            } else {
                *final(self) == (LibraryState {
                    loading: true,
                    generation: next_count(old(self).generation),
                }) && (request matches LibraryRequest::Ask(generation, status) && generation
                    == final(self).generation && status.says("正在加载用户资料和歌单…"@, false))
            },
    {
        if !signed_in {
            return LibraryRequest::Nothing;
        }
        if !force_refresh && cached {
            self.loading = false;
            return LibraryRequest::ShowCached;
        }
        if !client {
            return LibraryRequest::Refused(
                StatusMessage::error("QQ 音乐客户端不可用".to_owned()),
            );
        }
        self.generation = self.generation.wrapping_add(1);
        self.loading = true;
        LibraryRequest::Ask(
            self.generation,
            StatusMessage::info("正在加载用户资料和歌单…".to_owned()),
        )
    }

    /// An answer has come; one to an earlier request counts for nothing.
    pub fn finish(&mut self, generation: u64, error: Option<String>) -> (outcome: (
        bool,
        Option<StatusMessage>,
    ))
        ensures
            outcome.0 == (generation == old(self).generation),
            *final(self) == (if outcome.0 {
                LibraryState { loading: false, ..*old(self) }
            } else {
                *old(self)
            }),
            match error {
                Some(error) if outcome.0 => outcome.1 is Some && outcome.1.unwrap().says(
                    "加载 QQ 音乐资料失败："@ + error@,
                    true,
                ),
                _ => outcome.1 is None,
            },
    {
        if self.generation != generation {
            return (false, None);
        }
        self.loading = false;
        match error {
            Some(error) => (
                true,
                Some(
                    StatusMessage::error(labelled("加载 QQ 音乐资料失败：", error.as_str())),
                ),
            ),
            None => (true, None),
        }
    }
}

/// What a library that was loaded leads to.
#[derive(Debug)]
pub enum LibraryShown {
    /// A playlist is opened, for one is on show: the one that was viewed last, or the
    /// first.
    Open(usize),
    Empty(StatusMessage),
    Keep,
}

impl LibraryShown {
    /// What the library leads to: where a playlist is on show, the one that was viewed
    /// last, or else the first.
    pub open spec fn follows(
        self,
        view: Option<PersistedLibraryView>,
        account: u64,
        playlists: Seq<UserPlaylist>,
        main_content: MainContent,
    ) -> bool {
        match self {
            LibraryShown::Open(index) => playlists.len() > 0 && main_content
                == MainContent::Playlist && index == (match viewed_place(
                view,
                account,
                playlists,
                0,
            ) {
                Some(i) => i,
                None => 0,
            }),
            LibraryShown::Empty(status) => playlists.len() == 0 && status.says(
                "QQ 音乐账号中没有可显示的歌单"@,
                false,
            ),
            LibraryShown::Keep => playlists.len() > 0 && main_content != MainContent::Playlist,
        }
    }
}

pub fn apply_library(
    view: &Option<PersistedLibraryView>,
    account: u64,
    playlists: &Vec<UserPlaylist>,
    main_content: MainContent,
) -> (shown: LibraryShown)
    ensures
        shown.follows(*view, account, playlists@, main_content),
{
    if playlists.len() == 0 {
        return LibraryShown::Empty(
            StatusMessage::info("QQ 音乐账号中没有可显示的歌单".to_owned()),
        );
    }
    if main_content == MainContent::Playlist {
        let index: usize = match viewed_playlist(view, account, playlists) {
            Some(index) => index,
            None => 0,
        };
        LibraryShown::Open(index)
    } else {
        LibraryShown::Keep
    }
}

/// Takes what was kept of playback, where it was this account that played. What another
/// account played is forgotten.
pub fn take_restore(pending: Option<PersistedPlayback>, account: u64) -> (taken: (
    Option<PersistedPlayback>,
    bool,
))
    ensures
        taken.0 == (match pending {
            Some(restore) if restore.account_id == account => Some(restore),
            _ => None,
        }),
        taken.1 == (pending is Some && taken.0 is None),
{
    match pending {
        Some(restore) => if restore.account_id == account {
            (Some(restore), false)
        } else {
            (None, true)
        },
        None => (None, false),
    }
}

/// How old a list may be that is shown again.
#[derive(Clone, Copy, Debug, PartialEq, Eq, Structural)]
pub enum PlaylistCachePolicy {
    Fresh,
    AllowStale,
}

/// Whether what is loaded of a playlist is shown again.
pub fn can_reuse(
    resource: &PlaylistResource,
    force_refresh: bool,
    policy: PlaylistCachePolicy,
    now_secs: u64,
) -> (result: bool)
    ensures
        result == (!force_refresh && (policy == PlaylistCachePolicy::AllowStale
            || resource.up_to_date(now_secs))),
{
    !force_refresh && (policy == PlaylistCachePolicy::AllowStale || resource.is_fresh(now_secs))
}

/// A library that came opens the playlist that was viewed last, or else the first, but only
/// where a playlist is on show; one without playlists opens none.
pub proof fn a_library_opens_the_playlist_viewed_last(
    shown: LibraryShown,
    view: Option<PersistedLibraryView>,
    account: u64,
    playlists: Seq<UserPlaylist>,
    main_content: MainContent,
    place: int,
)
    requires
        shown.follows(view, account, playlists, main_content),
    ensures
        playlists.len() == 0 <==> shown is Empty,
        shown is Open <==> playlists.len() > 0 && main_content == MainContent::Playlist,
        shown matches LibraryShown::Open(index) ==> index < playlists.len(),
        shown matches LibraryShown::Open(index) ==> (view is Some && view.unwrap().account_id
            == account && 0 <= place < playlists.len() && playlists[place].id@
            == view.unwrap().playlist_id@ ==> index <= place && playlists[index as int].id@
            == view.unwrap().playlist_id@),
        shown matches LibraryShown::Open(index) ==> (view is None || view.unwrap().account_id
            != account ==> index == 0),
{
    the_last_view_is_found_again(view, account, playlists);
}

} // verus!
