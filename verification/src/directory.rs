//! The playlists of each account, kept for a while after they were fetched.

use crate::catalog::{
    copy_playlists, count_in_liked_playlist, playlist_cards, with_liked_count, PlaylistCard,
    ProfileCard, UserPlaylist, UserProfile,
};
use crate::settings::{fresh, is_fresh};
use crate::time::{Duration, NANOS_PER_SECOND};
use vstd::prelude::*;

verus! {

#[derive(Debug)]
pub struct CachedLibraryDirectory {
    pub account_id: u64,
    pub fetched_at_secs: u64,
    pub profile: UserProfile,
    pub playlists: Vec<UserPlaylist>,
}

/// What a `CachedLibraryDirectory` says.
pub struct Directory {
    pub account: u64,
    pub fetched_at: u64,
    pub profile: ProfileCard,
    pub playlists: Seq<PlaylistCard>,
}

impl View for CachedLibraryDirectory {
    type V = Directory;

    open spec fn view(&self) -> Directory {
        Directory {
            account: self.account_id,
            fetched_at: self.fetched_at_secs,
            profile: self.profile@,
            playlists: playlist_cards(self.playlists@),
        }
    }
}

#[derive(Debug)]
pub struct LibraryCache {
    pub directories: Vec<CachedLibraryDirectory>,
}

impl View for LibraryCache {
    type V = Seq<Directory>;

    open spec fn view(&self) -> Seq<Directory> {
        self.directories@.map_values(|d: CachedLibraryDirectory| d@)
    }
}

/// Where the directory of an account first stands.
pub open spec fn place_of(directories: Seq<Directory>, account: u64, from: int) -> Option<int>
    decreases directories.len() - from,
{
    if from < 0 || from >= directories.len() {
        None
    } else if directories[from].account == account {
        Some(from)
    } else {
        place_of(directories, account, from + 1)
    }
}

/// The first directory of an account that is still fresh.
pub open spec fn fresh_place(
    directories: Seq<Directory>,
    account: u64,
    now_secs: u64,
    ttl_seconds: nat,
    from: int,
) -> Option<int>
    decreases directories.len() - from,
{
    if from < 0 || from >= directories.len() {
        None
    } else if directories[from].account == account && fresh(
        directories[from].fetched_at,
        now_secs,
        ttl_seconds,
    ) {
        Some(from)
    } else {
        fresh_place(directories, account, now_secs, ttl_seconds, from + 1)
    }
}

/// The cache after the directory of an account was stored: in the place of the one
/// that it had, or behind all others.
pub open spec fn replaced(directories: Seq<Directory>, directory: Directory) -> Seq<Directory> {
    match place_of(directories, directory.account, 0) {
        Some(i) => directories.update(i, directory),
        None => directories.push(directory),
    }
}

/// The cache after an account liked or unliked a track.
pub open spec fn liked_counted(directories: Seq<Directory>, account: u64, liked: bool) -> Seq<
    Directory,
> {
    match place_of(directories, account, 0) {
        Some(i) => directories.update(
            i,
            Directory {
                playlists: with_liked_count(directories[i].playlists, liked),
                ..directories[i]
            },
        ),
        None => directories,
    }
}

/// No account has two directories.
pub open spec fn one_each(directories: Seq<Directory>) -> bool {
    forall|i: int, j: int|
        0 <= i < j < directories.len() ==> (#[trigger] directories[i]).account != (
        #[trigger] directories[j]).account
}

proof fn place_of_is_first(directories: Seq<Directory>, account: u64, from: int)
    requires
        0 <= from,
    ensures
        match place_of(directories, account, from) {
            Some(i) => from <= i < directories.len() && directories[i].account == account,
            None => forall|j: int|
                from <= j < directories.len() ==> (#[trigger] directories[j]).account != account,
        },
    decreases directories.len() - from,
{
    if from < directories.len() && directories[from].account != account {
        place_of_is_first(directories, account, from + 1);
    }
}

/// Storing a directory and counting likes keep one directory for each account.
pub proof fn one_directory_each(
    directories: Seq<Directory>,
    directory: Directory,
    account: u64,
    liked: bool,
)
    requires
        one_each(directories),
    ensures
        one_each(replaced(directories, directory)),
        one_each(liked_counted(directories, account, liked)),
{
    place_of_is_first(directories, directory.account, 0);
    place_of_is_first(directories, account, 0);
}

proof fn fresh_place_finds(
    directories: Seq<Directory>,
    account: u64,
    now_secs: u64,
    ttl_seconds: nat,
    from: int,
    at: int,
)
    requires
        one_each(directories),
        0 <= from <= at < directories.len(),
        directories[at].account == account,
    ensures
        fresh_place(directories, account, now_secs, ttl_seconds, from) == (if fresh(
            directories[at].fetched_at,
            now_secs,
            ttl_seconds,
        ) {
            Some(at)
        } else {
            None
        }),
    decreases at - from,
{
    if from < at {
        fresh_place_finds(directories, account, now_secs, ttl_seconds, from + 1, at);
    } else {
        none_behind(directories, account, now_secs, ttl_seconds, at + 1, at);
    }
}

proof fn none_behind(
    directories: Seq<Directory>,
    account: u64,
    now_secs: u64,
    ttl_seconds: nat,
    from: int,
    at: int,
)
    requires
        one_each(directories),
        0 <= at < from,
        at < directories.len(),
        directories[at].account == account,
    ensures
        fresh_place(directories, account, now_secs, ttl_seconds, from) is None,
    decreases directories.len() - from,
{
    if from < directories.len() {
        assert(directories[at].account != directories[from].account);
        none_behind(directories, account, now_secs, ttl_seconds, from + 1, at);
    }
}

/// A directory that was stored is found again for exactly as long as it is fresh, and
/// storing it changes nothing for another account.
pub proof fn stored_directory_is_found(
    directories: Seq<Directory>,
    directory: Directory,
    other: u64,
    now_secs: u64,
    ttl_seconds: nat,
)
    requires
        one_each(directories),
        other != directory.account,
    ensures
        ({
            let after = replaced(directories, directory);
            let found = fresh_place(after, directory.account, now_secs, ttl_seconds, 0);
            &&& found is Some <==> fresh(directory.fetched_at, now_secs, ttl_seconds)
            &&& found matches Some(i) ==> after[i] == directory
        }),
        fresh_place(replaced(directories, directory), other, now_secs, ttl_seconds, 0)
            == fresh_place(directories, other, now_secs, ttl_seconds, 0),
{
    let after = replaced(directories, directory);
    place_of_is_first(directories, directory.account, 0);
    one_directory_each(directories, directory, 0, true);
    let at = match place_of(directories, directory.account, 0) {
        Some(i) => i,
        None => directories.len() as int,
    };
    fresh_place_finds(after, directory.account, now_secs, ttl_seconds, 0, at);
    other_place_kept(directories, after, at, other, now_secs, ttl_seconds, 0);
}

proof fn other_place_kept(
    before: Seq<Directory>,
    after: Seq<Directory>,
    at: int,
    other: u64,
    now_secs: u64,
    ttl_seconds: nat,
    from: int,
)
    requires
        0 <= from,
        0 <= at < after.len(),
        after.len() == before.len() || (after.len() == before.len() + 1 && at == before.len()),
        after[at].account != other,
        at < before.len() ==> before[at].account != other,
        forall|j: int| 0 <= j < before.len() && j != at ==> #[trigger] before[j] == after[j],
    ensures
        fresh_place(after, other, now_secs, ttl_seconds, from) == fresh_place(
            before,
            other,
            now_secs,
            ttl_seconds,
            from,
        ),
    decreases after.len() - from,
{
    if from < after.len() {
        other_place_kept(before, after, at, other, now_secs, ttl_seconds, from + 1);
        if from < before.len() && from != at {
            assert(before[from] == after[from]);
        }
    }
}

impl LibraryCache {
    pub fn new() -> (cache: Self)
        ensures
            cache@.len() == 0,
            one_each(cache@),
    {
        LibraryCache { directories: Vec::new() }
    }

    fn index_of(&self, account_id: u64) -> (found: Option<usize>)
        ensures
            match found {
                Some(i) => place_of(self@, account_id, 0) == Some(i as int) && i
                    < self.directories@.len(),
                None => place_of(self@, account_id, 0) is None,
            },
    {
        let mut i: usize = 0;
        while i < self.directories.len()
            invariant
                i <= self.directories@.len(),
                place_of(self@, account_id, 0) == place_of(self@, account_id, i as int),
            decreases self.directories.len() - i,
        {
            assert(self@[i as int] == self.directories@[i as int]@);
            if self.directories[i].account_id == account_id {
                return Some(i);
            }
            i += 1;
        }
        None
    }

    pub fn update_liked_track_count(&mut self, account_id: u64, liked: bool)
        ensures
            final(self)@ == liked_counted(old(self)@, account_id, liked),
    {
        let ghost before = self@;
        if let Some(i) = self.index_of(account_id) {
            count_in_liked_playlist(&mut self.directories[i].playlists, liked);
            proof {
                assert(before[i as int].playlists == playlist_cards(
                    old(self).directories@[i as int].playlists@,
                ));
                assert(self@ =~= liked_counted(before, account_id, liked));
            }
        }
    }

    pub fn fresh_directory(&self, account_id: u64, now_secs: u64, ttl: Duration) -> (found: Option<
        (UserProfile, Vec<UserPlaylist>),
    >)
        ensures
            match fresh_place(self@, account_id, now_secs, ttl@ / NANOS_PER_SECOND as nat, 0) {
                Some(i) => found matches Some((profile, playlists)) && profile@ == self@[i].profile
                    && playlist_cards(playlists@) == self@[i].playlists,
                None => found is None,
            },
    {
        let ghost seconds = ttl@ / NANOS_PER_SECOND as nat;
        let mut i: usize = 0;
        while i < self.directories.len()
            invariant
                i <= self.directories@.len(),
                seconds == ttl@ / NANOS_PER_SECOND as nat,
                fresh_place(self@, account_id, now_secs, seconds, 0) == fresh_place(
                    self@,
                    account_id,
                    now_secs,
                    seconds,
                    i as int,
                ),
            decreases self.directories.len() - i,
        {
            let directory = &self.directories[i];
            assert(self@[i as int] == directory@);
            if directory.account_id == account_id && is_fresh(
                directory.fetched_at_secs,
                now_secs,
                ttl,
            ) {
                return Some((directory.profile.clone(), copy_playlists(&directory.playlists)));
            }
            i += 1;
        }
        None
    }

    pub fn replace_directory(
        &mut self,
        account_id: u64,
        profile: UserProfile,
        playlists: Vec<UserPlaylist>,
        fetched_at_secs: u64,
    )
        ensures
            final(self)@ == replaced(
                old(self)@,
                (Directory {
                    account: account_id,
                    fetched_at: fetched_at_secs,
                    profile: profile@,
                    playlists: playlist_cards(playlists@),
                }),
            ),
    {
        let ghost before = self@;
        let directory = CachedLibraryDirectory {
            account_id,
            fetched_at_secs,
            profile,
            playlists,
        };
        match self.index_of(account_id) {
            Some(i) => {
                self.directories.set(i, directory);
            },
            None => {
                self.directories.push(directory);
            },
        }
        assert(self@ =~= replaced(before, directory@));
    }
}

impl Default for LibraryCache {
    fn default() -> (cache: Self)
        ensures
            cache@.len() == 0,
            one_each(cache@),
    {
        LibraryCache::new()
    }
}

/// Counting a like changes the directory of its account alone, and there the playlists
/// alone.
pub proof fn likes_count_for_one_account(
    directories: Seq<Directory>,
    account: u64,
    liked: bool,
    i: int,
)
    requires
        one_each(directories),
        0 <= i < directories.len(),
    ensures
        liked_counted(directories, account, liked).len() == directories.len(),
        ({
            let after = liked_counted(directories, account, liked)[i];
            &&& directories[i].account != account ==> after == directories[i]
            &&& directories[i].account == account ==> after == (Directory {
                playlists: with_liked_count(directories[i].playlists, liked),
                ..directories[i]
            })
        }),
{
    directory_is_found(directories, account, 0);
}

proof fn directory_is_found(directories: Seq<Directory>, account: u64, from: int)
    requires
        0 <= from,
    ensures
        match place_of(directories, account, from) {
            Some(i) => from <= i < directories.len() && directories[i].account == account,
            None => forall|j: int|
                from <= j < directories.len() ==> (#[trigger] directories[j]).account != account,
        },
    decreases directories.len() - from,
{
    if from < directories.len() {
        directory_is_found(directories, account, from + 1);
    }
}

/// A directory that is stored is in the cache, and every other one stays.
pub proof fn storing_keeps_other_directories(
    directories: Seq<Directory>,
    directory: Directory,
    i: int,
)
    requires
        0 <= i < directories.len(),
        directories[i].account != directory.account,
    ensures
        replaced(directories, directory).contains(directory),
        replaced(directories, directory)[i] == directories[i],
        replaced(directories, directory).len() <= directories.len() + 1,
{
    directory_is_found(directories, directory.account, 0);
    let after = replaced(directories, directory);
    match place_of(directories, directory.account, 0) {
        Some(k) => {
            assert(after[k] == directory);
        },
        None => {
            assert(after[directories.len() as int] == directory);
        },
    }
}

} // verus!
