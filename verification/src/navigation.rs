//! The pages behind and ahead of the one that is shown.

use crate::catalog::{
    share, ArtistCard, PlaylistCard, PlaylistKey, SearchArtist, UserPlaylist, UserPlaylistId,
};
use crate::resources::{
    resolved_playlist_scroll_row, scroll_row, ArtistResource, PlaylistResource, SearchCategory,
    SearchResource, SearchVisibleCounts,
};
use crate::settings::DEFAULT_NAVIGATION_HISTORY_LIMIT;
use std::sync::{Arc, Mutex};
use vstd::prelude::*;

verus! {

/// A value that pages and the requests for them share, from std.
#[verifier::external_type_specification]
#[verifier::external_body]
#[verifier::reject_recursive_types(T)]
pub struct ExMutex<T: ?Sized>(Mutex<T>);

/// `Arc::ptr_eq`: two handles to one allocation are handles to the same value. It
/// says nothing of two allocations.
#[verifier::external_body]
fn same_handle<T>(a: &Arc<T>, b: &Arc<T>) -> (result: bool)
    ensures
        result ==> *a == *b,
{
    Arc::ptr_eq(a, b)
}

/// `Arc::ptr_eq` has told the two handles apart.
pub closed spec fn told_apart<T>(a: Arc<T>, b: Arc<T>) -> bool {
    call_ensures(same_handle::<T>, (&a, &b), false)
}

/// Where a playlist is scrolled to.
#[derive(Clone, Copy, Debug, PartialEq, Eq, Structural)]
pub struct PlaylistScrollPosition {
    pub row: usize,
    /// The offset of the row in pixels, as the bit pattern of a single-precision
    /// number.
    pub offset_y: u32,
}

impl PlaylistScrollPosition {
    pub fn top() -> (position: Self)
        ensures
            position == (PlaylistScrollPosition { row: 0, offset_y: 0 }),
    {
        PlaylistScrollPosition { row: 0, offset_y: 0 }
    }
}

#[derive(Debug)]
#[allow(inconsistent_fields)]
pub enum NavigationPage {
    Home,
    Settings,
    Search {
        query: String,
        category: SearchCategory,
        visible_counts: SearchVisibleCounts,
        resource: Option<Arc<Mutex<SearchResource>>>,
    },
    Artist {
        artist: SearchArtist,
        visible_song_count: usize,
        visible_album_count: usize,
        resource: Option<Arc<Mutex<ArtistResource>>>,
    },
    Playlist {
        playlist: UserPlaylist,
        selected_index: Option<usize>,
        scroll_position: PlaylistScrollPosition,
        resource: Option<Arc<Mutex<PlaylistResource>>>,
    },
}

/// Where a page leads, whatever state it is in.
pub enum Destination {
    Home,
    Settings,
    Search(Seq<char>),
    Artist(Seq<char>),
    Playlist(PlaylistKey),
}

/// All that a page says.
#[allow(inconsistent_fields)]
pub enum Page {
    Home,
    Settings,
    Search {
        query: Seq<char>,
        category: SearchCategory,
        visible_counts: SearchVisibleCounts,
        resource: Option<Arc<Mutex<SearchResource>>>,
    },
    Artist {
        artist: ArtistCard,
        visible_song_count: usize,
        visible_album_count: usize,
        resource: Option<Arc<Mutex<ArtistResource>>>,
    },
    Playlist {
        playlist: PlaylistCard,
        selected_index: Option<usize>,
        scroll_position: PlaylistScrollPosition,
        resource: Option<Arc<Mutex<PlaylistResource>>>,
    },
}

impl View for NavigationPage {
    type V = Page;

    open spec fn view(&self) -> Page {
        match self {
            NavigationPage::Home => Page::Home,
            NavigationPage::Settings => Page::Settings,
            NavigationPage::Search { query, category, visible_counts, resource } => Page::Search {
                query: query@,
                category: *category,
                visible_counts: *visible_counts,
                resource: *resource,
            },
            NavigationPage::Artist {
                artist,
                visible_song_count,
                visible_album_count,
                resource,
            } => Page::Artist {
                artist: artist@,
                visible_song_count: *visible_song_count,
                visible_album_count: *visible_album_count,
                resource: *resource,
            },
            NavigationPage::Playlist {
                playlist,
                selected_index,
                scroll_position,
                resource,
            } => Page::Playlist {
                playlist: playlist@,
                selected_index: *selected_index,
                scroll_position: *scroll_position,
                resource: *resource,
            },
        }
    }
}

pub(crate) fn share_option<T>(handle: &Option<Arc<T>>) -> (copy: Option<Arc<T>>)
    ensures
        copy == *handle,
{
    match handle {
        Some(handle) => Some(share(handle)),
        None => None,
    }
}

impl Clone for NavigationPage {
    fn clone(&self) -> (copy: Self)
        ensures
            copy@ == self@,
    {
        match self {
            NavigationPage::Home => NavigationPage::Home,
            NavigationPage::Settings => NavigationPage::Settings,
            NavigationPage::Search { query, category, visible_counts, resource } =>
            NavigationPage::Search {
                query: query.clone(),
                category: *category,
                visible_counts: *visible_counts,
                resource: share_option(resource),
            },
            NavigationPage::Artist {
                artist,
                visible_song_count,
                visible_album_count,
                resource,
            } => NavigationPage::Artist {
                artist: artist.clone(),
                visible_song_count: *visible_song_count,
                visible_album_count: *visible_album_count,
                resource: share_option(resource),
            },
            NavigationPage::Playlist {
                playlist,
                selected_index,
                scroll_position,
                resource,
            } => NavigationPage::Playlist {
                playlist: playlist.clone(),
                selected_index: *selected_index,
                scroll_position: *scroll_position,
                resource: share_option(resource),
            },
        }
    }
}

impl NavigationPage {
    pub open spec fn destination(self) -> Destination {
        match self@ {
            Page::Home => Destination::Home,
            Page::Settings => Destination::Settings,
            Page::Search { query, .. } => Destination::Search(query),
            Page::Artist { artist, .. } => Destination::Artist(artist.mid),
            Page::Playlist { playlist, .. } => Destination::Playlist(playlist.key),
        }
    }

    pub fn same_destination(&self, other: &Self) -> (result: bool)
        ensures
            result == (self.destination() == other.destination()),
    {
        match (self, other) {
            (NavigationPage::Home, NavigationPage::Home) => true,
            (NavigationPage::Settings, NavigationPage::Settings) => true,
            (
                NavigationPage::Search { query, .. },
                NavigationPage::Search { query: other_query, .. },
            ) => query.eq(other_query),
            (
                NavigationPage::Artist { artist, .. },
                NavigationPage::Artist { artist: other_artist, .. },
            ) => artist.mid.eq(&other_artist.mid),
            (
                NavigationPage::Playlist { playlist, .. },
                NavigationPage::Playlist { playlist: other_playlist, .. },
            ) => playlist.id.same(&other_playlist.id),
            _ => false,
        }
    }

    /// What is loaded of a playlist, where the page shows that playlist.
    pub open spec fn resource_of(self, playlist: PlaylistKey) -> Option<
        Arc<Mutex<PlaylistResource>>,
    > {
        match self@ {
            Page::Playlist { playlist: card, resource, .. } if card.key == playlist => resource,
            _ => None,
        }
    }

    pub fn playlist_resource(&self, playlist_id: &UserPlaylistId) -> (resource: Option<
        Arc<Mutex<PlaylistResource>>,
    >)
        ensures
            resource == self.resource_of(playlist_id@),
    {
        match self {
            NavigationPage::Playlist { playlist, resource, .. } => if playlist.id.same(
                playlist_id,
            ) {
                share_option(resource)
            } else {
                None
            },
            _ => None,
        }
    }
}

#[derive(Debug)]
pub struct NavigationHistory {
    pub limit: usize,
    pub back: Vec<NavigationPage>,
    pub forward: Vec<NavigationPage>,
}

/// The pages behind and the pages ahead, the nearest last.
pub struct Trail {
    pub back: Seq<NavigationPage>,
    pub forward: Seq<NavigationPage>,
}

impl Trail {
    /// The trail cut to `limit` pages with the current one: the oldest pages behind
    /// go first, and only then the farthest ahead.
    pub open spec fn cut(self, limit: int) -> Trail {
        let room = if limit >= 1 {
            limit - 1
        } else {
            0
        };
        let excess = self.back.len() + self.forward.len() - room;
        if excess <= 0 {
            self
        } else if excess <= self.back.len() {
            Trail { back: self.back.skip(excess), forward: self.forward }
        } else {
            Trail {
                back: Seq::empty(),
                forward: self.forward.skip(excess - self.back.len()),
            }
        }
    }

    pub open spec fn with_back(self, page: Option<NavigationPage>) -> Trail {
        match page {
            Some(page) => Trail { back: self.back.push(page), ..self },
            None => self,
        }
    }

    pub open spec fn with_forward(self, page: Option<NavigationPage>) -> Trail {
        match page {
            Some(page) => Trail { forward: self.forward.push(page), ..self },
            None => self,
        }
    }

    /// The trail after going from `current` to another page.
    pub open spec fn recorded(
        self,
        current: Option<NavigationPage>,
        target: NavigationPage,
        limit: int,
    ) -> Trail {
        if current is Some && current.unwrap().destination() == target.destination() {
            self
        } else {
            Trail { back: self.with_back(current).back, forward: Seq::empty() }.cut(limit)
        }
    }

    /// The trail after going back from `current`.
    pub open spec fn gone_back(self, current: Option<NavigationPage>) -> Trail {
        Trail { back: self.back.drop_last(), forward: self.forward }.with_forward(current)
    }

    /// The trail after going forward from `current`.
    pub open spec fn gone_forward(self, current: Option<NavigationPage>) -> Trail {
        Trail { back: self.back, forward: self.forward.drop_last() }.with_back(current)
    }

    /// All pages with the current one are at most `limit`.
    pub open spec fn fits(self, limit: int) -> bool {
        self.back.len() + self.forward.len() + 1 <= limit
    }
}

impl View for NavigationHistory {
    type V = Trail;

    open spec fn view(&self) -> Trail {
        Trail { back: self.back@, forward: self.forward@ }
    }
}

/// Cutting a trail makes it fit, and leaves one alone that fits.
pub proof fn cut_trail_fits(trail: Trail, limit: int)
    requires
        limit >= 1,
    ensures
        trail.cut(limit).fits(limit),
        trail.fits(limit) ==> trail.cut(limit) == trail,
{
}

/// Every step keeps the trail within the limit.
pub proof fn trail_stays_within_limit(
    trail: Trail,
    current: Option<NavigationPage>,
    target: NavigationPage,
    limit: int,
)
    requires
        limit >= 1,
        trail.fits(limit),
    ensures
        trail.recorded(current, target, limit).fits(limit),
        trail.back.len() > 0 ==> trail.gone_back(current).fits(limit),
        trail.forward.len() > 0 ==> trail.gone_forward(current).fits(limit),
{
}

/// Going back and then forward, or forward and then back, leads to the page one came
/// from and leaves the trail as it was.
pub proof fn going_forward_undoes_going_back(trail: Trail, current: NavigationPage)
    ensures
        trail.back.len() > 0 ==> {
            let behind = trail.back.last();
            let there = trail.gone_back(Some(current));
            there.forward.last() == current && there.gone_forward(Some(behind)) == trail
        },
        trail.forward.len() > 0 ==> {
            let ahead = trail.forward.last();
            let there = trail.gone_forward(Some(current));
            there.back.last() == current && there.gone_back(Some(ahead)) == trail
        },
{
    if trail.back.len() > 0 {
        let there = trail.gone_back(Some(current));
        let again = there.gone_forward(Some(trail.back.last()));
        assert(again.back =~= trail.back);
        assert(again.forward =~= trail.forward);
    }
    if trail.forward.len() > 0 {
        let there = trail.gone_forward(Some(current));
        let again = there.gone_back(Some(trail.forward.last()));
        assert(again.back =~= trail.back);
        assert(again.forward =~= trail.forward);
    }
}

/// A new page is behind nothing: going on to another destination forgets all pages
/// ahead, and with room for a page behind it can be left by going back.
pub proof fn new_page_clears_what_lay_ahead(
    trail: Trail,
    current: NavigationPage,
    target: NavigationPage,
    limit: int,
)
    requires
        limit >= 2,
        current.destination() != target.destination(),
    ensures
        trail.recorded(Some(current), target, limit).forward.len() == 0,
        trail.recorded(Some(current), target, limit).back.len() > 0,
        trail.recorded(Some(current), target, limit).back.last() == current,
{
}

pub open spec fn playlist_pages(pages: Seq<NavigationPage>, playlist: PlaylistKey) -> Seq<
    Arc<Mutex<PlaylistResource>>,
>
    decreases pages.len(),
{
    if pages.len() == 0 {
        Seq::empty()
    } else {
        let before = playlist_pages(pages.drop_last(), playlist);
        match pages.last().resource_of(playlist) {
            Some(resource) => before.push(resource),
            None => before,
        }
    }
}

impl NavigationHistory {
    pub open spec fn wf(self) -> bool {
        self.limit >= 1 && self@.fits(self.limit as int)
    }

    pub fn new(limit: usize) -> (history: Self)
        ensures
            history.limit == (if limit < 1 {
                1
            } else {
                limit
            }),
            history.back@.len() == 0,
            history.forward@.len() == 0,
            history.wf(),
    {
        NavigationHistory {
            limit: if limit < 1 {
                1
            } else {
                limit
            },
            back: Vec::new(),
            forward: Vec::new(),
        }
    }

    pub fn set_limit(&mut self, limit: usize)
        ensures
            final(self).limit == (if limit < 1 {
                1
            } else {
                limit
            }),
            final(self)@ == old(self)@.cut(final(self).limit as int),
            final(self).wf(),
    {
        self.limit = if limit < 1 {
            1
        } else {
            limit
        };
        self.trim();
    }

    pub fn record(&mut self, current: Option<NavigationPage>, target: &NavigationPage)
        requires
            old(self).limit >= 1,
        ensures
            final(self).limit == old(self).limit,
            final(self)@ == old(self)@.recorded(current, *target, old(self).limit as int),
            old(self).wf() ==> final(self).wf(),
    {
        let stays: bool = match &current {
            Some(page) => page.same_destination(target),
            None => false,
        };
        if stays {
            return;
        }
        let ghost before = self@;
        if let Some(page) = current {
            self.back.push(page);
        }
        self.forward.clear();
        assert(self@.back =~= before.with_back(current).back);
        assert(self@.forward =~= Seq::empty());
        self.trim();
    }

    pub fn go_back(&mut self, current: Option<NavigationPage>) -> (target: Option<NavigationPage>)
        ensures
            final(self).limit == old(self).limit,
            match target {
                Some(page) => old(self).back@.len() > 0 && page == old(self).back@.last()
                    && final(self)@ == old(self)@.gone_back(current),
                None => old(self).back@.len() == 0 && final(self)@ == old(self)@,
            },
            old(self).wf() ==> final(self).wf(),
    {
        let ghost before = self@;
        match self.back.pop() {
            None => None,
            Some(target) => {
                assert(self@.back =~= before.back.drop_last());
                if let Some(page) = current {
                    self.forward.push(page);
                }
                assert(self@ == before.gone_back(current));
                Some(target)
            },
        }
    }

    pub fn go_forward(&mut self, current: Option<NavigationPage>) -> (target: Option<
        NavigationPage,
    >)
        ensures
            final(self).limit == old(self).limit,
            match target {
                Some(page) => old(self).forward@.len() > 0 && page == old(self).forward@.last()
                    && final(self)@ == old(self)@.gone_forward(current),
                None => old(self).forward@.len() == 0 && final(self)@ == old(self)@,
            },
            old(self).wf() ==> final(self).wf(),
    {
        let ghost before = self@;
        match self.forward.pop() {
            None => None,
            Some(target) => {
                assert(self@.forward =~= before.forward.drop_last());
                if let Some(page) = current {
                    self.back.push(page);
                }
                assert(self@ == before.gone_forward(current));
                Some(target)
            },
        }
    }

    pub fn clear(&mut self)
        ensures
            final(self).limit == old(self).limit,
            final(self).back@.len() == 0,
            final(self).forward@.len() == 0,
    {
        self.back.clear();
        self.forward.clear();
    }

    fn trim(&mut self)
        requires
            old(self).limit >= 1,
        ensures
            final(self).limit == old(self).limit,
            final(self)@ == old(self)@.cut(old(self).limit as int),
            final(self).wf(),
    {
        let ghost before = self@;
        let ghost limit = self.limit as int;
        while self.back.len() as u128 + self.forward.len() as u128 + 1 > self.limit as u128
            invariant
                self.limit == limit,
                limit >= 1,
                self@.cut(limit) == before.cut(limit),
            decreases self.back.len() + self.forward.len(),
        {
            let ghost now = self@;
            if self.back.len() > 0 {
                let _ = self.back.remove(0);
                assert(self@.back =~= now.back.skip(1));
            } else {
                let _ = self.forward.remove(0);
                assert(self@.forward =~= now.forward.skip(1));
            }
            proof {
                let after = self@.cut(limit);
                assert(after.back =~= now.cut(limit).back);
                assert(after.forward =~= now.cut(limit).forward);
            }
        }
    }

    /// The loaded parts of a playlist that the pages hold, one for each page that has one.
    fn playlist_handles(&self, playlist_id: &UserPlaylistId) -> (handles: Vec<
        Arc<Mutex<PlaylistResource>>,
    >)
        ensures
            handles@ == playlist_pages(self.back@ + self.forward@, playlist_id@),
    {
        let mut handles: Vec<Arc<Mutex<PlaylistResource>>> = Vec::new();
        let ghost pages = self.back@ + self.forward@;
        let mut i: usize = 0;
        assert(pages.take(0) =~= Seq::empty());
        while i < self.back.len()
            invariant
                i <= self.back@.len(),
                pages == self.back@ + self.forward@,
                handles@ == playlist_pages(pages.take(i as int), playlist_id@),
            decreases self.back.len() - i,
        {
            assert(pages.take(i + 1).drop_last() =~= pages.take(i as int));
            assert(pages.take(i + 1).last() == self.back@[i as int]);
            if let Some(resource) = self.back[i].playlist_resource(playlist_id) {
                handles.push(resource);
            }
            i += 1;
        }
        let mut k: usize = 0;
        while k < self.forward.len()
            invariant
                k <= self.forward@.len(),
                pages == self.back@ + self.forward@,
                handles@ == playlist_pages(pages.take(self.back@.len() + k), playlist_id@),
            decreases self.forward.len() - k,
        {
            let ghost n = self.back@.len() + k;
            assert(pages.take(n + 1).drop_last() =~= pages.take(n));
            assert(pages.take(n + 1).last() == self.forward@[k as int]);
            if let Some(resource) = self.forward[k].playlist_resource(playlist_id) {
                handles.push(resource);
            }
            k += 1;
        }
        assert(pages.take(pages.len() as int) =~= pages);
        handles
    }

    /// The loaded parts of a playlist that the pages hold, in their order, each once.
    pub fn playlist_resources(&self, playlist_id: &UserPlaylistId) -> (resources: Vec<
        Arc<Mutex<PlaylistResource>>,
    >)
        ensures
            forall|resource: Arc<Mutex<PlaylistResource>>| #[trigger]
                resources@.contains(resource) <==> playlist_pages(
                    self.back@ + self.forward@,
                    playlist_id@,
                ).contains(resource),
            sifted(
                Seq::empty(),
                playlist_pages(self.back@ + self.forward@, playlist_id@),
                resources@,
            ),
            resources@.len() <= playlist_pages(self.back@ + self.forward@, playlist_id@).len(),
            all_told_apart(resources@),
    {
        let offered = self.playlist_handles(playlist_id);
        let resources = gather_once(offered, &same_handle::<Mutex<PlaylistResource>>);
        proof {
            gathered_is_sifted(
                same_handle::<Mutex<PlaylistResource>>,
                Seq::empty(),
                offered@,
                resources@,
            );
            sifting_only_adds(Seq::empty(), offered@, resources@);
        }
        resources
    }
}

/// Each handle has been told apart from all behind it.
pub open spec fn all_told_apart<T>(handles: Seq<Arc<T>>) -> bool {
    forall|i: int, j: int|
        0 <= i < j < handles.len() ==> told_apart(#[trigger] handles[i], #[trigger] handles[j])
}

/// `kept` is what comes of adding the handles of `offered` to `start`, one after the
/// other, by what `same` answers: one for which some handle that is there answers yes is
/// left out, and one for which all answer no is added.
pub open spec fn gathered<T, F: Fn(&Arc<T>, &Arc<T>) -> bool>(
    same: F,
    start: Seq<Arc<T>>,
    offered: Seq<Arc<T>>,
    kept: Seq<Arc<T>>,
) -> bool
    decreases offered.len(),
{
    if offered.len() == 0 {
        kept == start
    } else {
        let handle = offered.last();
        ||| known_by(same, kept, handle) && gathered(same, start, offered.drop_last(), kept)
        ||| kept.len() > 0 && kept.last() == handle && new_by(same, kept.drop_last(), handle)
            && gathered(same, start, offered.drop_last(), kept.drop_last())
    }
}

/// For some handle of the list `same` answers that it is the one.
pub open spec fn known_by<T, F: Fn(&Arc<T>, &Arc<T>) -> bool>(
    same: F,
    handles: Seq<Arc<T>>,
    handle: Arc<T>,
) -> bool {
    exists|i: int|
        0 <= i < handles.len() && same.ensures((&#[trigger] handles[i], &handle), true)
}

/// For every handle of the list `same` answers that it is another one.
pub open spec fn new_by<T, F: Fn(&Arc<T>, &Arc<T>) -> bool>(
    same: F,
    handles: Seq<Arc<T>>,
    handle: Arc<T>,
) -> bool {
    forall|i: int|
        0 <= i < handles.len() ==> same.ensures((&#[trigger] handles[i], &handle), false)
}

/// Adds a handle to a list, unless `same` answers that it is there.
pub fn add_unless<T, F: Fn(&Arc<T>, &Arc<T>) -> bool>(
    handles: &mut Vec<Arc<T>>,
    handle: Arc<T>,
    same: &F,
)
    requires
        forall|a: &Arc<T>, b: &Arc<T>| #[trigger] same.requires((a, b)),
    ensures
        ({
            ||| final(handles)@ == old(handles)@.push(handle) && new_by(
                *same,
                old(handles)@,
                handle,
            )
            ||| final(handles)@ == old(handles)@ && known_by(*same, old(handles)@, handle)
        }),
{
    let mut i: usize = 0;
    while i < handles.len()
        invariant
            i <= handles@.len(),
            handles@ == old(handles)@,
            forall|a: &Arc<T>, b: &Arc<T>| #[trigger] same.requires((a, b)),
            forall|j: int|
                0 <= j < i ==> same.ensures((&#[trigger] handles@[j], &handle), false),
        decreases handles.len() - i,
    {
        if same(&handles[i], &handle) {
            assert(same.ensures((&handles@[i as int], &handle), true));
            return;
        }
        i += 1;
    }
    handles.push(handle);
}

/// Adds handles to a list one after the other, each unless `same` answers that it is
/// there.
pub fn gather_onto<T, F: Fn(&Arc<T>, &Arc<T>) -> bool>(
    mut handles: Vec<Arc<T>>,
    offered: Vec<Arc<T>>,
    same: &F,
) -> (kept: Vec<Arc<T>>)
    requires
        forall|a: &Arc<T>, b: &Arc<T>| #[trigger] same.requires((a, b)),
    ensures
        gathered(*same, handles@, offered@, kept@),
{
    let ghost start = handles@;
    let mut i: usize = 0;
    assert(offered@.take(0) =~= Seq::empty());
    while i < offered.len()
        invariant
            i <= offered@.len(),
            forall|a: &Arc<T>, b: &Arc<T>| #[trigger] same.requires((a, b)),
            gathered(*same, start, offered@.take(i as int), handles@),
        decreases offered.len() - i,
    {
        let ghost before = handles@;
        add_unless(&mut handles, share(&offered[i]), same);
        proof {
            assert(offered@.take(i + 1).drop_last() =~= offered@.take(i as int));
            assert(offered@.take(i + 1).last() == offered@[i as int]);
            if handles@ == before.push(offered@[i as int]) {
                assert(handles@.drop_last() =~= before);
            }
        }
        i += 1;
    }
    assert(offered@.take(offered@.len() as int) =~= offered@);
    handles
}

/// Gathers handles, each once by what `same` answers: no handle is gathered for which an
/// earlier one answers yes, and for every handle that is left out one does.
pub fn gather_once<T, F: Fn(&Arc<T>, &Arc<T>) -> bool>(offered: Vec<Arc<T>>, same: &F) -> (kept: Vec<
    Arc<T>,
>)
    requires
        forall|a: &Arc<T>, b: &Arc<T>| #[trigger] same.requires((a, b)),
    ensures
        gathered(*same, Seq::empty(), offered@, kept@),
        forall|i: int, j: int|
            0 <= i < j < kept@.len() ==> same.ensures(
                (&#[trigger] kept@[i], &#[trigger] kept@[j]),
                false,
            ),
        forall|k: int|
            0 <= k < offered@.len() ==> kept@.contains(#[trigger] offered@[k]) || known_by(
                *same,
                kept@,
                offered@[k],
            ),
{
    let none: Vec<Arc<T>> = Vec::new();
    assert(none@ =~= Seq::empty());
    let kept = gather_onto(none, offered, same);
    proof {
        gathering_adds_new(*same, Seq::empty(), offered@, kept@);
    }
    kept
}

/// What is gathered onto a list is told apart from all before it, and all that was
/// offered is there.
pub proof fn gathering_adds_new<T, F: Fn(&Arc<T>, &Arc<T>) -> bool>(
    same: F,
    start: Seq<Arc<T>>,
    offered: Seq<Arc<T>>,
    kept: Seq<Arc<T>>,
)
    requires
        gathered(same, start, offered, kept),
    ensures
        start.len() <= kept.len(),
        kept.take(start.len() as int) == start,
        forall|i: int, j: int|
            0 <= i < j < kept.len() && start.len() <= j ==> same.ensures(
                (&#[trigger] kept[i], &#[trigger] kept[j]),
                false,
            ),
        forall|k: int|
            0 <= k < offered.len() ==> kept.contains(#[trigger] offered[k]) || known_by(
                same,
                kept,
                offered[k],
            ),
    decreases offered.len(),
{
    if offered.len() == 0 {
        assert(kept.take(start.len() as int) =~= start);
    } else {
        let handle = offered.last();
        let rest = offered.drop_last();
        if known_by(same, kept, handle) && gathered(same, start, rest, kept) {
            gathering_adds_new(same, start, rest, kept);
            assert forall|k: int| 0 <= k < offered.len() implies kept.contains(
                #[trigger] offered[k],
            ) || known_by(same, kept, offered[k]) by {
                if k < rest.len() {
                    assert(rest[k] == offered[k]);
                }
            }
        } else {
            let before = kept.drop_last();
            gathering_adds_new(same, start, rest, before);
            assert(kept.take(start.len() as int) =~= before.take(start.len() as int));
            assert forall|i: int, j: int| 0 <= i < j < kept.len() && start.len()
                <= j implies same.ensures((&#[trigger] kept[i], &#[trigger] kept[j]), false) by {
                assert(before[i] == kept[i]);
                if j < before.len() {
                    assert(before[j] == kept[j]);
                }
            }
            assert forall|k: int| 0 <= k < offered.len() implies kept.contains(
                #[trigger] offered[k],
            ) || known_by(same, kept, offered[k]) by {
                if k < rest.len() {
                    assert(rest[k] == offered[k]);
                    if before.contains(rest[k]) {
                        let i = choose|i: int| 0 <= i < before.len() && before[i] == rest[k];
                        assert(kept[i] == offered[k]);
                    } else {
                        let i = choose|i: int|
                            0 <= i < before.len() && same.ensures(
                                (&#[trigger] before[i], &rest[k]),
                                true,
                            );
                        assert(kept[i] == before[i]);
                    }
                } else {
                    assert(kept[kept.len() - 1] == handle);
                }
            }
        }
    }
}

/// By a test that says yes of equal handles alone, what is gathered is sifted.
proof fn gathered_is_sifted<T, F: Fn(&Arc<T>, &Arc<T>) -> bool>(
    same: F,
    start: Seq<Arc<T>>,
    offered: Seq<Arc<T>>,
    kept: Seq<Arc<T>>,
)
    requires
        gathered(same, start, offered, kept),
        forall|a: Arc<T>, b: Arc<T>| #[trigger] same.ensures((&a, &b), true) ==> a == b,
    ensures
        sifted(start, offered, kept),
        forall|handle: Arc<T>| #[trigger]
            kept.contains(handle) <==> start.contains(handle) || offered.contains(handle),
    decreases offered.len(),
{
    if offered.len() > 0 {
        let handle = offered.last();
        let rest = offered.drop_last();
        push_contains(rest, handle);
        assert(rest.push(handle) =~= offered);
        if known_by(same, kept, handle) && gathered(same, start, rest, kept) {
            gathered_is_sifted(same, start, rest, kept);
            let i = choose|i: int|
                0 <= i < kept.len() && same.ensures((&#[trigger] kept[i], &handle), true);
            assert(kept[i] == handle);
        } else {
            let before = kept.drop_last();
            gathered_is_sifted(same, start, rest, before);
            push_contains(before, handle);
            assert(before.push(handle) =~= kept);
        }
    }
}

/// `kept` is what comes of adding the handles of `offered` to `start`, one after the
/// other, each unless it is there already.
pub open spec fn sifted<T>(start: Seq<T>, offered: Seq<T>, kept: Seq<T>) -> bool
    decreases offered.len(),
{
    if offered.len() == 0 {
        kept == start
    } else {
        ||| kept.contains(offered.last()) && sifted(start, offered.drop_last(), kept)
        ||| kept.len() > 0 && kept.last() == offered.last() && sifted(
            start,
            offered.drop_last(),
            kept.drop_last(),
        )
    }
}

/// Sifting keeps what was there in front, and adds at most what was offered.
proof fn sifting_only_adds<T>(start: Seq<T>, offered: Seq<T>, kept: Seq<T>)
    requires
        sifted(start, offered, kept),
    ensures
        start.len() <= kept.len() <= start.len() + offered.len(),
        kept.take(start.len() as int) == start,
    decreases offered.len(),
{
    if offered.len() == 0 {
        assert(kept.take(start.len() as int) =~= start);
    } else if kept.contains(offered.last()) && sifted(start, offered.drop_last(), kept) {
        sifting_only_adds(start, offered.drop_last(), kept);
    } else {
        sifting_only_adds(start, offered.drop_last(), kept.drop_last());
        assert(kept.take(start.len() as int) =~= kept.drop_last().take(start.len() as int));
    }
}

proof fn push_contains<T>(items: Seq<T>, item: T)
    ensures
        forall|other: T| #[trigger]
            items.push(item).contains(other) <==> items.contains(other) || other == item,
{
    assert forall|other: T| #[trigger] items.push(item).contains(other) implies items.contains(
        other,
    ) || other == item by {
        let i = choose|i: int| 0 <= i < items.push(item).len() && items.push(item)[i] == other;
        if i < items.len() {
            assert(items[i] == other);
        }
    }
    assert forall|other: T| items.contains(other) || other == item implies #[trigger] items.push(
        item,
    ).contains(other) by {
        if items.contains(other) {
            let i = choose|i: int| 0 <= i < items.len() && items[i] == other;
            assert(items.push(item)[i] == other);
        } else {
            assert(items.push(item)[items.len() as int] == item);
        }
    }
}

impl Default for NavigationHistory {
    fn default() -> (history: Self)
        ensures
            history.limit == DEFAULT_NAVIGATION_HISTORY_LIMIT,
            history.back@.len() == 0,
            history.forward@.len() == 0,
            history.wf(),
    {
        NavigationHistory::new(DEFAULT_NAVIGATION_HISTORY_LIMIT)
    }
}

/// Where a list is to be moved to.
#[derive(Clone, Copy, Debug, PartialEq, Eq, Structural)]
pub enum ScrollTarget {
    /// Exactly to where it stood.
    Offset(u32),
    /// So that a row can be seen.
    Row(usize),
}

/// Where a remembered position leads to in a list of `count` rows: to the very offset
/// where its row is there, and to the last row where the list ends before it.
pub open spec fn scroll_target(
    position: PlaylistScrollPosition,
    count: int,
    has_more: bool,
) -> Option<ScrollTarget> {
    match scroll_row(position.row as int, count, has_more) {
        None => None,
        Some(row) => Some(
            if row == position.row {
                ScrollTarget::Offset(position.offset_y)
            } else {
                ScrollTarget::Row(row as usize)
            },
        ),
    }
}

/// Moves a list to a remembered position, which is then forgotten; it is kept while
/// its row is still to be loaded.
pub fn restore_scroll_position(
    pending: &mut Option<PlaylistScrollPosition>,
    track_count: usize,
    has_more: bool,
) -> (target: Option<ScrollTarget>)
    ensures
        match *old(pending) {
            None => target is None && *final(pending) is None,
            Some(position) => {
                &&& target == scroll_target(position, track_count as int, has_more)
                &&& *final(pending) == (if target is None {
                    Some(position)
                } else {
                    None
                })
            },
        },
{
    match *pending {
        None => None,
        Some(position) => match resolved_playlist_scroll_row(position.row, track_count, has_more) {
            None => None,
            Some(row) => {
                *pending = None;
                if row == position.row {
                    Some(ScrollTarget::Offset(position.offset_y))
                } else {
                    Some(ScrollTarget::Row(row))
                }
            },
        },
    }
}

/// The handle, where there is one.
pub open spec fn listed<T>(handle: Option<T>) -> Seq<T> {
    match handle {
        Some(handle) => seq![handle],
        None => Seq::empty(),
    }
}

/// The loaded parts of a playlist that are to change with it: those of the pages, behind
/// them the one on show and the one that is remembered, each once.
pub fn resources_to_change(
    resources: Vec<Arc<Mutex<PlaylistResource>>>,
    shown: &Option<Arc<Mutex<PlaylistResource>>>,
    remembered: &Option<Arc<Mutex<PlaylistResource>>>,
) -> (all: Vec<Arc<Mutex<PlaylistResource>>>)
    ensures
        forall|resource: Arc<Mutex<PlaylistResource>>| #[trigger]
            all@.contains(resource) <==> resources@.contains(resource) || *shown == Some(resource)
                || *remembered == Some(resource),
        sifted(resources@, listed(*shown) + listed(*remembered), all@),
        resources@.len() <= all@.len() <= resources@.len() + 2,
        all@.take(resources@.len() as int) == resources@,
        forall|i: int, j: int|
            0 <= i < j < all@.len() && resources@.len() <= j ==> told_apart(
                #[trigger] all@[i],
                #[trigger] all@[j],
            ),
        all_told_apart(resources@) ==> all_told_apart(all@),
{
    let mut offered: Vec<Arc<Mutex<PlaylistResource>>> = Vec::new();
    if let Some(resource) = shown {
        offered.push(share(resource));
    }
    if let Some(resource) = remembered {
        offered.push(share(resource));
    }
    assert(offered@ =~= listed(*shown) + listed(*remembered));
    let ghost start = resources@;
    let all = gather_onto(resources, offered, &same_handle::<Mutex<PlaylistResource>>);
    proof {
        gathered_is_sifted(
            same_handle::<Mutex<PlaylistResource>>,
            start,
            offered@,
            all@,
        );
        sifting_only_adds(start, offered@, all@);
        gathering_adds_new(same_handle::<Mutex<PlaylistResource>>, start, offered@, all@);
        assert forall|resource: Arc<Mutex<PlaylistResource>>| #[trigger]
            all@.contains(resource) <==> start.contains(resource) || *shown == Some(resource)
                || *remembered == Some(resource) by {
            offered_handles(*shown, *remembered, resource);
        }
        if all_told_apart(start) {
            assert forall|i: int, j: int| 0 <= i < j < all@.len() implies told_apart(
                #[trigger] all@[i],
                #[trigger] all@[j],
            ) by {
                if j < start.len() {
                    assert(all@.take(start.len() as int)[i] == all@[i]);
                    assert(all@.take(start.len() as int)[j] == all@[j]);
                }
            }
        }
    }
    all
}

proof fn offered_handles<T>(first: Option<T>, second: Option<T>, handle: T)
    ensures
        (listed(first) + listed(second)).contains(handle) <==> first == Some(handle) || second
            == Some(handle),
{
    let all = listed(first) + listed(second);
    if first == Some(handle) {
        assert(all[0] == handle);
    }
    if second == Some(handle) {
        assert(all[all.len() - 1] == handle);
    }
}

/// Tells which of the handles is the one on show, by what `same` answers.
pub fn mark_same<T, F: Fn(&Arc<T>, &Arc<T>) -> bool>(
    handles: &Vec<Arc<T>>,
    shown: &Option<Arc<T>>,
    same: &F,
) -> (marks: Vec<bool>)
    requires
        forall|a: &Arc<T>, b: &Arc<T>| #[trigger] same.requires((a, b)),
    ensures
        marks@.len() == handles@.len(),
        forall|i: int|
            0 <= i < marks@.len() ==> match *shown {
                Some(shown) => same.ensures((&shown, &handles@[i]), #[trigger] marks@[i]),
                None => !marks@[i],
            },
{
    let mut marks: Vec<bool> = Vec::new();
    while marks.len() < handles.len()
        invariant
            marks@.len() <= handles@.len(),
            forall|a: &Arc<T>, b: &Arc<T>| #[trigger] same.requires((a, b)),
            forall|i: int|
                0 <= i < marks@.len() ==> match *shown {
                    Some(shown) => same.ensures((&shown, &handles@[i]), #[trigger] marks@[i]),
                    None => !marks@[i],
                },
        decreases handles.len() - marks.len(),
    {
        let mark: bool = match shown {
            Some(shown) => same(shown, &handles[marks.len()]),
            None => false,
        };
        marks.push(mark);
    }
    marks
}

/// Tells which of the handles is the one on show.
pub fn mark_shown(
    resources: &Vec<Arc<Mutex<PlaylistResource>>>,
    shown: &Option<Arc<Mutex<PlaylistResource>>>,
) -> (marks: Vec<bool>)
    ensures
        marks@.len() == resources@.len(),
        forall|i: int|
            0 <= i < marks@.len() ==> match *shown {
                Some(shown) => if #[trigger] marks@[i] {
                    shown == resources@[i]
                } else {
                    told_apart(shown, resources@[i])
                },
                None => !marks@[i],
            },
{
    mark_same(resources, shown, &same_handle::<Mutex<PlaylistResource>>)
}

/// A trail that is too long loses the pages that are farthest away: those behind from the
/// oldest on, and pages ahead only once none is left behind. No page changes its place.
pub proof fn the_oldest_pages_go_first(trail: Trail, limit: int)
    requires
        limit >= 1,
    ensures
        ({
            let cut = trail.cut(limit);
            let gone = trail.back.len() - cut.back.len();
            let lost = trail.forward.len() - cut.forward.len();
            &&& 0 <= gone && cut.back == trail.back.skip(gone)
            &&& 0 <= lost && cut.forward == trail.forward.skip(lost)
            &&& lost > 0 ==> cut.back.len() == 0
            &&& trail.back.len() + trail.forward.len() + 1 > limit ==> cut.back.len()
                + cut.forward.len() + 1 == limit
            &&& trail.back.len() + trail.forward.len() + 1 <= limit ==> gone == 0 && lost == 0
        }),
{
    assert(trail.back.skip(0) =~= trail.back);
    assert(trail.forward.skip(0) =~= trail.forward);
    assert(trail.back.skip(trail.back.len() as int) =~= Seq::empty());
}

/// Going to where one is already changes nothing; going elsewhere puts the page one came
/// from behind, with those that were there, as far as the limit allows.
pub proof fn going_on_leaves_the_page_behind(
    trail: Trail,
    current: Option<NavigationPage>,
    target: NavigationPage,
    limit: int,
)
    requires
        limit >= 1,
    ensures
        ({
            let after = trail.recorded(current, target, limit);
            let stays = current is Some && current.unwrap().destination() == target.destination();
            &&& stays ==> after == trail
            &&& !stays ==> after.forward.len() == 0
            &&& !stays && current is None ==> trail.back.len() < limit ==> after.back == trail.back
            &&& !stays && current is Some && trail.back.len() + 1 < limit ==> after.back
                == trail.back.push(current.unwrap())
            &&& !stays && current is Some && trail.back.len() + 1 >= limit && limit >= 2
                ==> after.back.len() == limit - 1 && after.back.last() == current.unwrap()
        }),
{
    let full = trail.with_back(current).back;
    let start = Trail { back: full, forward: Seq::empty() };
    the_oldest_pages_go_first(start, limit);
}

/// One step back leads to the last page behind, with the page one came from ahead; one
/// step ahead leads to the next page, with the page one came from behind.
pub proof fn steps_move_one_page(trail: Trail, current: NavigationPage)
    ensures
        trail.back.len() > 0 ==> trail.gone_back(Some(current)).forward == trail.forward.push(
            current,
        ) && trail.gone_back(Some(current)).back.push(trail.back.last()) == trail.back,
        trail.forward.len() > 0 ==> trail.gone_forward(Some(current)).back == trail.back.push(
            current,
        ) && trail.gone_forward(Some(current)).forward.push(trail.forward.last())
            == trail.forward,
        trail.back.len() > 0 ==> trail.gone_back(None).forward == trail.forward,
        trail.forward.len() > 0 ==> trail.gone_forward(None).back == trail.back,
{
    if trail.back.len() > 0 {
        assert(trail.back.drop_last().push(trail.back.last()) =~= trail.back);
    }
    if trail.forward.len() > 0 {
        assert(trail.forward.drop_last().push(trail.forward.last()) =~= trail.forward);
    }
}

/// A page leads to its own query, artist or playlist, whatever else it shows.
pub proof fn a_destination_is_what_a_page_is_about(a: NavigationPage, b: NavigationPage)
    ensures
        a.destination() == b.destination() ==> match (a@, b@) {
            (Page::Home, Page::Home) => true,
            (Page::Settings, Page::Settings) => true,
            (Page::Search { query, .. }, Page::Search { query: other, .. }) => query == other,
            (Page::Artist { artist, .. }, Page::Artist { artist: other, .. }) => artist.mid
                == other.mid,
            (Page::Playlist { playlist, .. }, Page::Playlist { playlist: other, .. }) => {
                playlist.key == other.key
            },
            _ => false,
        },
        match (a@, b@) {
            (Page::Home, Page::Home) => true,
            (Page::Settings, Page::Settings) => true,
            (Page::Search { query, .. }, Page::Search { query: other, .. }) => query == other,
            (Page::Artist { artist, .. }, Page::Artist { artist: other, .. }) => artist.mid
                == other.mid,
            (Page::Playlist { playlist, .. }, Page::Playlist { playlist: other, .. }) => {
                playlist.key == other.key
            },
            _ => false,
        } ==> a.destination() == b.destination(),
{
}

/// A list comes back where it was left: at the very offset where its row is there, at the
/// last row where the list ends before it, and not yet while the row is still to come.
pub proof fn a_list_comes_back_where_it_was_left(
    position: PlaylistScrollPosition,
    count: int,
    has_more: bool,
)
    requires
        0 <= count <= usize::MAX,
    ensures
        position.row < count ==> scroll_target(position, count, has_more) == Some(
            ScrollTarget::Offset(position.offset_y),
        ),
        position.row >= count && has_more ==> scroll_target(position, count, has_more) is None,
        position.row >= count && !has_more && count > 0 ==> scroll_target(
            position,
            count,
            has_more,
        ) == Some(ScrollTarget::Row((count - 1) as usize)),
        count == 0 && !has_more && position.row == 0 ==> scroll_target(position, count, has_more)
            == Some(ScrollTarget::Offset(position.offset_y)),
{
}

/// What pages hold of a playlist is gathered from those that show it and have it, in their
/// order.
pub proof fn pages_of_a_playlist_are_gathered(
    pages: Seq<NavigationPage>,
    page: NavigationPage,
    playlist: PlaylistKey,
)
    ensures
        playlist_pages(Seq::empty(), playlist).len() == 0,
        playlist_pages(pages.push(page), playlist) == (match page@ {
            Page::Playlist { playlist: card, resource: Some(resource), .. } if card.key
                == playlist => playlist_pages(pages, playlist).push(resource),
            _ => playlist_pages(pages, playlist),
        }),
{
    assert(pages.push(page).drop_last() =~= pages);
}

/// A handle is known to a list where one of the list answers to it, and new where all
/// answer that they are others; an empty list knows none.
pub proof fn a_list_knows_what_one_of_it_answers_to<T, F: Fn(&Arc<T>, &Arc<T>) -> bool>(
    same: F,
    handles: Seq<Arc<T>>,
    last: Arc<T>,
    handle: Arc<T>,
)
    ensures
        !known_by(same, Seq::empty(), handle),
        new_by(same, Seq::empty(), handle),
        known_by(same, handles.push(last), handle) <==> known_by(same, handles, handle)
            || same.ensures((&last, &handle), true),
        new_by(same, handles.push(last), handle) <==> new_by(same, handles, handle)
            && same.ensures((&last, &handle), false),
{
    let all = handles.push(last);
    let n = handles.len() as int;
    assert(all[n] == last);
    if known_by(same, handles, handle) {
        let i = choose|i: int|
            0 <= i < handles.len() && same.ensures((&#[trigger] handles[i], &handle), true);
        assert(all[i] == handles[i]);
        assert(same.ensures((&all[i], &handle), true));
    }
    if same.ensures((&last, &handle), true) {
        assert(same.ensures((&all[n], &handle), true));
    }
    if known_by(same, all, handle) {
        let i = choose|i: int|
            0 <= i < all.len() && same.ensures((&#[trigger] all[i], &handle), true);
        if i < n {
            assert(same.ensures((&handles[i], &handle), true));
        }
    }
    if new_by(same, all, handle) {
        assert(same.ensures((&all[n], &handle), false));
        assert forall|i: int| 0 <= i < handles.len() implies same.ensures(
            (&#[trigger] handles[i], &handle),
            false,
        ) by {
            assert(all[i] == handles[i]);
        }
    }
    if new_by(same, handles, handle) && same.ensures((&last, &handle), false) {
        assert forall|i: int| 0 <= i < all.len() implies same.ensures(
            (&#[trigger] all[i], &handle),
            false,
        ) by {
            if i < n {
                assert(all[i] == handles[i]);
            }
        }
    }
}

/// Handles are sifted one by one: one that is there already is left out, and any other comes
/// behind the rest.
pub proof fn handles_are_sifted_one_by_one<T>(
    start: Seq<T>,
    offered: Seq<T>,
    kept: Seq<T>,
    handle: T,
)
    requires
        sifted(start, offered, kept),
    ensures
        sifted(start, Seq::empty(), start),
        kept.contains(handle) ==> sifted(start, offered.push(handle), kept),
        sifted(start, offered.push(handle), kept.push(handle)),
        forall|i: int| 0 <= i < start.len() ==> kept.contains(#[trigger] start[i]),
        forall|i: int| 0 <= i < offered.len() ==> kept.contains(#[trigger] offered[i]),
        forall|i: int|
            0 <= i < kept.len() ==> start.contains(#[trigger] kept[i]) || offered.contains(kept[i]),
{
    assert(offered.push(handle).drop_last() =~= offered);
    assert(kept.push(handle).drop_last() =~= kept);
    sifting_keeps_all(start, offered, kept);
}

proof fn sifting_keeps_all<T>(start: Seq<T>, offered: Seq<T>, kept: Seq<T>)
    requires
        sifted(start, offered, kept),
    ensures
        forall|i: int| 0 <= i < start.len() ==> kept.contains(#[trigger] start[i]),
        forall|i: int| 0 <= i < offered.len() ==> kept.contains(#[trigger] offered[i]),
        forall|i: int|
            0 <= i < kept.len() ==> start.contains(#[trigger] kept[i]) || offered.contains(kept[i]),
    decreases offered.len(),
{
    if offered.len() > 0 {
        let rest = offered.drop_last();
        let before = if kept.contains(offered.last()) && sifted(start, rest, kept) {
            kept
        } else {
            kept.drop_last()
        };
        sifting_keeps_all(start, rest, before);
        assert forall|x: T| before.contains(x) implies kept.contains(x) by {
            let k = choose|k: int| 0 <= k < before.len() && before[k] == x;
            assert(kept[k] == x);
        }
        assert forall|i: int| 0 <= i < offered.len() implies kept.contains(
            #[trigger] offered[i],
        ) by {
            if i < rest.len() {
                assert(rest[i] == offered[i]);
            } else if before != kept {
                assert(kept[kept.len() - 1] == offered.last());
            }
        }
        assert forall|i: int| 0 <= i < kept.len() implies start.contains(#[trigger] kept[i])
            || offered.contains(kept[i]) by {
            if i < before.len() {
                assert(before[i] == kept[i]);
                if rest.contains(kept[i]) {
                    let k = choose|k: int| 0 <= k < rest.len() && rest[k] == kept[i];
                    assert(offered[k] == kept[i]);
                }
            } else {
                assert(offered[offered.len() - 1] == kept[i]);
            }
        }
    }
}

} // verus!
