//! The pages that were loaded, each by what it shows, so that a page that is still held
//! somewhere is found again.

use crate::catalog::{PlaylistKey, UserPlaylistId};
use crate::navigation::{NavigationPage, Page};
use crate::resources::{ArtistResource, PlaylistResource, SearchResource};
use std::sync::{Arc, Mutex};
use vstd::prelude::*;

verus! {

/// What a page shows, and for whom.
#[derive(Debug)]
pub enum PageKey {
    Search { account: u64, query: String },
    Artist { account: u64, mid: String },
    Playlist { account: u64, id: UserPlaylistId },
}

pub enum PageName {
    Search { account: u64, query: Seq<char> },
    Artist { account: u64, mid: Seq<char> },
    Playlist { account: u64, id: PlaylistKey },
}

impl View for PageKey {
    type V = PageName;

    open spec fn view(&self) -> PageName {
        match self {
            PageKey::Search { account, query } => PageName::Search {
                account: *account,
                query: query@,
            },
            PageKey::Artist { account, mid } => PageName::Artist { account: *account, mid: mid@ },
            PageKey::Playlist { account, id } => PageName::Playlist { account: *account, id: id@ },
        }
    }
}

impl PageKey {
    pub fn same(&self, other: &Self) -> (result: bool)
        ensures
            result == (self@ == other@),
    {
        match (self, other) {
            (
                PageKey::Search { account, query },
                PageKey::Search { account: other_account, query: other_query },
            ) => *account == *other_account && query.eq(other_query),
            (
                PageKey::Artist { account, mid },
                PageKey::Artist { account: other_account, mid: other_mid },
            ) => *account == *other_account && mid.eq(other_mid),
            (
                PageKey::Playlist { account, id },
                PageKey::Playlist { account: other_account, id: other_id },
            ) => *account == *other_account && id.same(other_id),
            _ => false,
        }
    }
}

/// Where the entry for a page stands, from `from` on.
pub open spec fn page_place<H>(entries: Seq<(PageKey, H)>, name: PageName, from: int) -> Option<int>
    decreases entries.len() - from,
{
    if from < 0 || from >= entries.len() {
        None
    } else if entries[from].0@ == name {
        Some(from)
    } else {
        page_place(entries, name, from + 1)
    }
}

proof fn page_place_is_first<H>(entries: Seq<(PageKey, H)>, name: PageName, from: int)
    requires
        0 <= from,
    ensures
        match page_place(entries, name, from) {
            Some(i) => from <= i < entries.len() && entries[i].0@ == name && forall|j: int|
                from <= j < i ==> (#[trigger] entries[j]).0@ != name,
            None => forall|j: int|
                from <= j < entries.len() ==> (#[trigger] entries[j]).0@ != name,
        },
    decreases entries.len() - from,
{
    if from < entries.len() && entries[from].0@ != name {
        page_place_is_first(entries, name, from + 1);
    }
}

/// An entry that takes the place of the first one for its page, or follows all where
/// there is none, is found, and no other is found elsewhere.
proof fn page_is_taken_in<H>(
    before: Seq<(PageKey, H)>,
    after: Seq<(PageKey, H)>,
    at: int,
    entry: (PageKey, H),
)
    requires
        match page_place(before, entry.0@, 0) {
            Some(i) => at == i && after == before.update(at, entry),
            None => at == before.len() && after == before.push(entry),
        },
    ensures
        page_place(after, entry.0@, 0) == Some(at),
        forall|other: PageName|
            other != entry.0@ ==> #[trigger] page_place(after, other, 0) == page_place(
                before,
                other,
                0,
            ),
        forall|i: int| 0 <= i < before.len() && i != at ==> #[trigger] after[i] == before[i],
{
    page_place_is_first(before, entry.0@, 0);
    page_place_is_first(after, entry.0@, 0);
    assert(after[at] == entry);
    if let Some(i) = page_place(after, entry.0@, 0) {
        if i < at {
            assert(after[i] == before[i]);
        }
    }
    assert forall|other: PageName| other != entry.0@ implies #[trigger] page_place(
        after,
        other,
        0,
    ) == page_place(before, other, 0) by {
        page_place_is_first(before, other, 0);
        page_place_is_first(after, other, 0);
        if let Some(i) = page_place(after, other, 0) {
            assert(after[i] == before[i]);
        }
        if let Some(k) = page_place(before, other, 0) {
            assert(after[k] == before[k]);
        }
    }
}

/// Handles to loaded pages. A handle need not keep its page.
#[derive(Debug)]
pub struct PageResourceCache<H> {
    pub entries: Vec<(PageKey, H)>,
}

impl<H> PageResourceCache<H> {
    /// No page has two entries.
    pub open spec fn wf(self) -> bool {
        forall|i: int, j: int|
            0 <= i < j < self.entries@.len() ==> (#[trigger] self.entries@[i]).0@ != (
            #[trigger] self.entries@[j]).0@
    }

    /// The handle for a page.
    pub open spec fn holds(self, name: PageName) -> Option<H> {
        match page_place(self.entries@, name, 0) {
            Some(i) => Some(self.entries@[i].1),
            None => None,
        }
    }

    pub fn new() -> (cache: Self)
        ensures
            cache.wf(),
            forall|name: PageName| #[trigger] cache.holds(name) is None,
    {
        PageResourceCache { entries: Vec::new() }
    }

    fn find(&self, key: &PageKey) -> (place: Option<usize>)
        ensures
            match place {
                Some(i) => page_place(self.entries@, key@, 0) == Some(i as int) && i
                    < self.entries@.len(),
                None => page_place(self.entries@, key@, 0) is None,
            },
    {
        let mut i: usize = 0;
        while i < self.entries.len()
            invariant
                i <= self.entries@.len(),
                page_place(self.entries@, key@, 0) == page_place(self.entries@, key@, i as int),
            decreases self.entries.len() - i,
        {
            if self.entries[i].0.same(key) {
                return Some(i);
            }
            i += 1;
        }
        None
    }

    pub fn get(&self, key: &PageKey) -> (handle: Option<&H>)
        ensures
            match handle {
                Some(handle) => self.holds(key@) == Some(*handle),
                None => self.holds(key@) is None,
            },
    {
        match self.find(key) {
            Some(i) => Some(&self.entries[i].1),
            None => None,
        }
    }

    /// Takes in the handle for a page; the handles for all others stay.
    pub fn insert(&mut self, key: PageKey, handle: H)
        requires
            old(self).wf(),
        ensures
            final(self).wf(),
            final(self).holds(key@) == Some(handle),
            forall|name: PageName| name != key@ ==> #[trigger] final(self).holds(name) == old(
                self,
            ).holds(name),
    {
        proof {
            page_place_is_first(self.entries@, key@, 0);
        }
        let ghost before = self.entries@;
        let ghost name = key@;
        let ghost entry = (key, handle);
        match self.find(&key) {
            Some(i) => {
                self.entries.set(i, (key, handle));
                proof {
                    page_is_taken_in(before, self.entries@, i as int, entry);
                }
            },
            None => {
                self.entries.push((key, handle));
                proof {
                    page_is_taken_in(before, self.entries@, before.len() as int, entry);
                }
            },
        }
        proof {
            assert forall|other: PageName| other != name implies #[trigger] self.holds(other)
                == old(self).holds(other) by {
                page_place_is_first(before, other, 0);
            }
        }
    }

    /// Forgets the handles whose pages are gone, and no others.
    pub fn prune<F: Fn(&H) -> bool>(&mut self, alive: F)
        requires
            old(self).wf(),
            forall|handle: &H| #[trigger] alive.requires((handle,)),
        ensures
            final(self).wf(),
            forall|name: PageName|
                match old(self).holds(name) {
                    Some(handle) => if #[trigger] final(self).holds(name) is Some {
                        final(self).holds(name) == Some(handle) && alive.ensures((&handle,), true)
                    } else {
                        alive.ensures((&handle,), false)
                    },
                    None => final(self).holds(name) is None,
                },
    {
        let mut i: usize = 0;
        while i < self.entries.len()
            invariant
                i <= self.entries@.len(),
                self.wf(),
                forall|handle: &H| #[trigger] alive.requires((handle,)),
                forall|j: int|
                    0 <= j < i ==> alive.ensures((&(#[trigger] self.entries@[j]).1,), true),
                forall|name: PageName|
                    match old(self).holds(name) {
                        Some(handle) => if #[trigger] self.holds(name) is Some {
                            self.holds(name) == Some(handle)
                        } else {
                            alive.ensures((&handle,), false)
                        },
                        None => self.holds(name) is None,
                    },
            decreases self.entries.len() - i,
        {
            if alive(&self.entries[i].1) {
                i += 1;
            } else {
                let ghost before = *self;
                let _ = self.entries.remove(i);
                proof {
                    removing_forgets_one(before, *self, i as int);
                    let name = before.entries@[i as int].0@;
                    page_place_is_first(before.entries@, name, 0);
                }
            }
        }
        proof {
            assert forall|name: PageName| (#[trigger] self.holds(name)) is Some implies
                alive.ensures((&self.holds(name).unwrap(),), true) by {
                page_place_is_first(self.entries@, name, 0);
            }
        }
    }

    /// Forgets all handles, as when the listener signs out.
    pub fn clear(&mut self)
        ensures
            final(self).wf(),
            forall|name: PageName| #[trigger] final(self).holds(name) is None,
    {
        self.entries.clear();
    }
}

/// Where an entry was taken out, its page has none any more, and all others keep theirs.
proof fn removing_forgets_one<H>(before: PageResourceCache<H>, after: PageResourceCache<H>, at: int)
    requires
        before.wf(),
        0 <= at < before.entries@.len(),
        after.entries@ == before.entries@.remove(at),
    ensures
        after.wf(),
        forall|name: PageName| #[trigger]
            after.holds(name) == (if name == before.entries@[at].0@ {
                None
            } else {
                before.holds(name)
            }),
{
    assert forall|i: int, j: int| 0 <= i < j < after.entries@.len() implies (
    #[trigger] after.entries@[i]).0@ != (#[trigger] after.entries@[j]).0@ by {
        let k = if i < at { i } else { i + 1 };
        let l = if j < at { j } else { j + 1 };
        assert(after.entries@[i] == before.entries@[k]);
        assert(after.entries@[j] == before.entries@[l]);
    }
    assert forall|name: PageName| #[trigger]
        after.holds(name) == (if name == before.entries@[at].0@ {
            None
        } else {
            before.holds(name)
        }) by {
        page_place_is_first(after.entries@, name, 0);
        page_place_is_first(before.entries@, name, 0);
        if let Some(i) = page_place(after.entries@, name, 0) {
            let k = if i < at { i } else { i + 1 };
            assert(after.entries@[i] == before.entries@[k]);
        }
        if let Some(k) = page_place(before.entries@, name, 0) {
            if k != at {
                let i = if k < at { k } else { k - 1 };
                assert(after.entries@[i] == before.entries@[k]);
            }
        }
    }
}

/// What is known of a page, before it is shared.
#[derive(Debug)]
pub enum LoadedPage {
    Search(SearchResource),
    Artist(ArtistResource),
    Playlist(PlaylistResource),
}

/// What is known of a page, as it is shared.
#[derive(Debug)]
pub enum SharedPage {
    Search(Arc<Mutex<SearchResource>>),
    Artist(Arc<Mutex<ArtistResource>>),
    Playlist(Arc<Mutex<PlaylistResource>>),
}

impl SharedPage {
    /// It is of the sort that is named.
    pub open spec fn fits(self, name: PageName) -> bool {
        match name {
            PageName::Search { .. } => self is Search,
            PageName::Artist { .. } => self is Artist,
            PageName::Playlist { .. } => self is Playlist,
        }
    }

    fn is_for(&self, key: &PageKey) -> (result: bool)
        ensures
            result == self.fits(key@),
    {
        match (self, key) {
            (SharedPage::Search(_), PageKey::Search { .. }) => true,
            (SharedPage::Artist(_), PageKey::Artist { .. }) => true,
            (SharedPage::Playlist(_), PageKey::Playlist { .. }) => true,
            _ => false,
        }
    }
}

/// What the cache has for a page is of no use: it is not consulted, it has no handle, the
/// page behind the handle is gone, or it is refused.
pub open spec fn is_missed<H, U: Fn(&H) -> Option<SharedPage>>(
    held: Option<H>,
    name: PageName,
    consult: bool,
    upgrade: U,
    accepts: spec_fn(SharedPage, bool) -> bool,
) -> bool {
    !consult || match held {
        None => true,
        Some(handle) => upgrade.ensures((&handle,), None) || exists|page: SharedPage|
            #[trigger] upgrade.ensures((&handle,), Some(page)) && (!page.fits(name) || accepts(
                page,
                false,
            )),
    }
}

/// `shared` is what the cache has for a page, where that is alive and accepted, and the
/// cache stays. Else it is `empty`, newly shared, and the cache holds a handle to it; for
/// all other pages the cache stays.
pub open spec fn is_shared<
    H,
    U: Fn(&H) -> Option<SharedPage>,
    W: FnOnce(LoadedPage) -> (SharedPage, H),
>(
    before: PageResourceCache<H>,
    after: PageResourceCache<H>,
    name: PageName,
    empty: LoadedPage,
    consult: bool,
    upgrade: U,
    accepts: spec_fn(SharedPage, bool) -> bool,
    wrap: W,
    shared: SharedPage,
) -> bool {
    ||| {
        &&& consult && after == before
        &&& before.holds(name) is Some
        &&& upgrade.ensures((&before.holds(name).unwrap(),), Some(shared))
        &&& accepts(shared, true)
    }
    ||| {
        &&& is_missed(before.holds(name), name, consult, upgrade, accepts)
        &&& after.holds(name) is Some
        &&& wrap.ensures((empty,), (shared, after.holds(name).unwrap()))
        &&& forall|other: PageName| other != name ==> #[trigger] after.holds(other)
            == before.holds(other)
    }
}

/// Finds what is known of a page, or shares `empty` for it. `upgrade` gives the page
/// behind a handle, where it is still there; `reusable` says whether that will do; `wrap`
/// shares a page and gives a handle to it.
pub fn shared_page<
    H,
    U: Fn(&H) -> Option<SharedPage>,
    V: Fn(&SharedPage) -> bool,
    W: FnOnce(LoadedPage) -> (SharedPage, H),
>(
    cache: &mut PageResourceCache<H>,
    key: PageKey,
    empty: LoadedPage,
    consult: bool,
    upgrade: &U,
    reusable: &V,
    wrap: W,
) -> (shared: SharedPage)
    requires
        old(cache).wf(),
        forall|handle: &H| #[trigger] upgrade.requires((handle,)),
        forall|page: &SharedPage| #[trigger] reusable.requires((page,)),
        wrap.requires((empty,)),
        forall|made: (SharedPage, H)| #[trigger]
            wrap.ensures((empty,), made) ==> made.0.fits(key@),
    ensures
        final(cache).wf(),
        shared.fits(key@),
        is_shared(
            *old(cache),
            *final(cache),
            key@,
            empty,
            consult,
            *upgrade,
            |page: SharedPage, answer: bool| reusable.ensures((&page,), answer),
            wrap,
            shared,
        ),
{
    if consult {
        if let Some(handle) = cache.get(&key) {
            if let Some(page) = upgrade(handle) {
                assert(upgrade.ensures((&cache.holds(key@).unwrap(),), Some(page)));
                if page.is_for(&key) && reusable(&page) {
                    return page;
                }
            }
        }
    }
    let (shared, handle) = wrap(empty);
    cache.insert(key, handle);
    shared
}

impl LoadedPage {
    /// Nothing is known of the page yet.
    pub open spec fn is_blank_for(self, page: Page) -> bool {
        match (self, page) {
            (LoadedPage::Search(resource), Page::Search { .. }) => {
                &&& resource.results is None && !resource.loading && resource.error is None
                &&& forall|i: int| 0 <= i < 4 ==> !#[trigger] resource.loading_more@[i]
            },
            (LoadedPage::Artist(resource), Page::Artist { .. }) => {
                &&& resource.songs is None && resource.albums is None
                &&& resource.track_count == 0
                &&& !resource.songs_loading && !resource.songs_loading_more
                &&& !resource.albums_loading && !resource.albums_loading_more
                &&& resource.song_error is None && resource.album_error is None
            },
            (LoadedPage::Playlist(resource), Page::Playlist { playlist, .. }) => {
                &&& resource.playlist@ == playlist
                &&& resource.tracks@.len() == 0
                &&& resource.has_more && resource.next_offset == 0
                &&& resource.fetched_at_secs == 0 && !resource.loading
            },
            _ => false,
        }
    }

    /// The page is shared as what it is.
    pub open spec fn is_shared_as(self, shared: SharedPage) -> bool {
        match self {
            LoadedPage::Search(_) => shared is Search,
            LoadedPage::Artist(_) => shared is Artist,
            LoadedPage::Playlist(_) => shared is Playlist,
        }
    }
}

/// What a page that holds no handle is to be looked up by.
pub open spec fn name_to_find(page: Page, account: u64) -> Option<PageName> {
    match page {
        Page::Search { query, resource, .. } if resource is None => Some(
            PageName::Search { account, query },
        ),
        Page::Artist { artist, resource, .. } if resource is None => Some(
            PageName::Artist { account, mid: artist.mid },
        ),
        Page::Playlist { playlist, resource, .. } if resource is None => Some(
            PageName::Playlist { account, id: playlist.key },
        ),
        _ => None,
    }
}

/// The page with a handle to what is known of it.
pub open spec fn holding(page: Page, shared: SharedPage) -> Page {
    match (page, shared) {
        (
            Page::Search { query, category, visible_counts, .. },
            SharedPage::Search(resource),
        ) => Page::Search { query, category, visible_counts, resource: Some(resource) },
        (
            Page::Artist { artist, visible_song_count, visible_album_count, .. },
            SharedPage::Artist(resource),
        ) => Page::Artist {
            artist,
            visible_song_count,
            visible_album_count,
            resource: Some(resource),
        },
        (
            Page::Playlist { playlist, selected_index, scroll_position, .. },
            SharedPage::Playlist(resource),
        ) => Page::Playlist {
            playlist,
            selected_index,
            scroll_position,
            resource: Some(resource),
        },
        _ => page,
    }
}

/// Any page that is still there will do.
pub open spec fn any_page() -> spec_fn(SharedPage, bool) -> bool {
    |page: SharedPage, answer: bool| answer
}

/// `resolved` is the page with a handle: its own where it has one, and else a shared one.
pub open spec fn is_resolved<
    H,
    U: Fn(&H) -> Option<SharedPage>,
    W: FnOnce(LoadedPage) -> (SharedPage, H),
>(
    before: PageResourceCache<H>,
    after: PageResourceCache<H>,
    page: Page,
    resolved: Page,
    account: u64,
    upgrade: U,
    wrap: W,
) -> bool {
    match name_to_find(page, account) {
        None => resolved == page && after == before,
        Some(name) => exists|shared: SharedPage, empty: LoadedPage|
            empty.is_blank_for(page) && shared.fits(name) && resolved == holding(page, shared)
                && #[trigger] is_shared(
                before,
                after,
                name,
                empty,
                true,
                upgrade,
                any_page(),
                wrap,
                shared,
            ),
    }
}

/// Gives a page its handle: a page that has none gets the one that the cache knows, as long
/// as the page behind it is there, and else a new one, which the cache then knows.
pub fn resolve_page<
    H,
    U: Fn(&H) -> Option<SharedPage>,
    W: FnOnce(LoadedPage) -> (SharedPage, H),
>(
    cache: &mut PageResourceCache<H>,
    page: NavigationPage,
    account: u64,
    upgrade: &U,
    wrap: W,
) -> (resolved: NavigationPage)
    requires
        old(cache).wf(),
        forall|handle: &H| #[trigger] upgrade.requires((handle,)),
        forall|empty: LoadedPage| #[trigger] wrap.requires((empty,)),
        forall|empty: LoadedPage, made: (SharedPage, H)| #[trigger]
            wrap.ensures((empty,), made) ==> empty.is_shared_as(made.0),
    ensures
        final(cache).wf(),
        is_resolved(
            *old(cache),
            *final(cache),
            page@,
            resolved@,
            account,
            *upgrade,
            wrap,
        ),
        resolved@ matches Page::Search { resource, .. } ==> resource is Some,
        resolved@ matches Page::Artist { resource, .. } ==> resource is Some,
        resolved@ matches Page::Playlist { resource, .. } ==> resource is Some,
{
    let ghost name = name_to_find(page@, account);
    let (key, empty) = match &page {
        NavigationPage::Search { query, resource: None, .. } => (
            PageKey::Search { account, query: query.clone() },
            LoadedPage::Search(SearchResource::default()),
        ),
        NavigationPage::Artist { artist, resource: None, .. } => (
            PageKey::Artist { account, mid: artist.mid.clone() },
            LoadedPage::Artist(ArtistResource::default()),
        ),
        NavigationPage::Playlist { playlist, resource: None, .. } => (
            PageKey::Playlist { account, id: playlist.id.clone() },
            LoadedPage::Playlist(PlaylistResource::empty(playlist.clone())),
        ),
        _ => {
            return page;
        },
    };
    assert(name == Some(key@));
    assert(empty.is_blank_for(page@));
    let any = |page: &SharedPage| -> (answer: bool)
        ensures
            answer,
        { true };
    let ghost before = *cache;
    let shared = shared_page(cache, key, empty, true, upgrade, &any, wrap);
    proof {
        let by_any = |page: SharedPage, answer: bool| any.ensures((&page,), answer);
        assert(is_shared(before, *cache, key@, empty, true, *upgrade, by_any, wrap, shared));
        assert(is_shared(before, *cache, key@, empty, true, *upgrade, any_page(), wrap, shared));
    }
    match (page, shared) {
        (
            NavigationPage::Search { query, category, visible_counts, .. },
            SharedPage::Search(resource),
        ) => NavigationPage::Search { query, category, visible_counts, resource: Some(resource) },
        (
            NavigationPage::Artist { artist, visible_song_count, visible_album_count, .. },
            SharedPage::Artist(resource),
        ) => NavigationPage::Artist {
            artist,
            visible_song_count,
            visible_album_count,
            resource: Some(resource),
        },
        (
            NavigationPage::Playlist { playlist, selected_index, scroll_position, .. },
            SharedPage::Playlist(resource),
        ) => NavigationPage::Playlist {
            playlist,
            selected_index,
            scroll_position,
            resource: Some(resource),
        },
        (page, _) => page,
    }
}

/// A page is kept for its account under what it is about, and only where it holds nothing
/// itself.
pub proof fn pages_are_looked_up_by_what_they_are_about(page: Page, account: u64)
    ensures
        page is Home || page is Settings ==> name_to_find(page, account) is None,
        page matches Page::Search { query, resource, .. } ==> name_to_find(page, account) == (
        if resource is None {
            Some(PageName::Search { account, query })
        } else {
            None
        }),
        page matches Page::Artist { artist, resource, .. } ==> name_to_find(page, account) == (
        if resource is None {
            Some(PageName::Artist { account, mid: artist.mid })
        } else {
            None
        }),
        page matches Page::Playlist { playlist, resource, .. } ==> name_to_find(page, account) == (
        if resource is None {
            Some(PageName::Playlist { account, id: playlist.key })
        } else {
            None
        }),
{
}

/// The cache has for a page what its entry says, and nothing without one.
pub proof fn a_cache_has_what_its_entry_says<H>(cache: PageResourceCache<H>, name: PageName, i: int)
    requires
        cache.wf(),
        0 <= i < cache.entries@.len(),
    ensures
        cache.entries@[i].0@ == name ==> cache.holds(name) == Some(cache.entries@[i].1),
        cache.holds(name) is None ==> cache.entries@[i].0@ != name,
        cache.holds(name) is Some ==> exists|k: int|
            0 <= k < cache.entries@.len() && (#[trigger] cache.entries@[k]).0@ == name
                && cache.entries@[k].1 == cache.holds(name).unwrap(),
{
    page_is_found(cache.entries@, name, 0);
    if let Some(k) = page_place(cache.entries@, name, 0) {
        if cache.entries@[i].0@ == name {
            if i < k {
                assert(cache.entries@[i].0@ != cache.entries@[k].0@);
            } else if k < i {
                assert(cache.entries@[k].0@ != cache.entries@[i].0@);
            }
        }
        assert(cache.entries@[k].0@ == name);
    }
}

proof fn page_is_found<H>(entries: Seq<(PageKey, H)>, name: PageName, from: int)
    requires
        0 <= from,
    ensures
        match page_place(entries, name, from) {
            Some(i) => from <= i < entries.len() && entries[i].0@ == name,
            None => forall|j: int| from <= j < entries.len() ==> (#[trigger] entries[j]).0@ != name,
        },
    decreases entries.len() - from,
{
    if from < entries.len() {
        page_is_found(entries, name, from + 1);
    }
}

/// A page that is given a handle holds it, and shows what it showed.
pub proof fn a_page_holds_the_handle_it_is_given(page: Page, shared: SharedPage)
    ensures
        match (page, shared, holding(page, shared)) {
            (
                Page::Search { query, category, visible_counts, .. },
                SharedPage::Search(handle),
                held,
            ) => held == (Page::Search { query, category, visible_counts, resource: Some(handle) }),
            (
                Page::Artist { artist, visible_song_count, visible_album_count, .. },
                SharedPage::Artist(handle),
                held,
            ) => held == (Page::Artist {
                artist,
                visible_song_count,
                visible_album_count,
                resource: Some(handle),
            }),
            (
                Page::Playlist { playlist, selected_index, scroll_position, .. },
                SharedPage::Playlist(handle),
                held,
            ) => held == (Page::Playlist {
                playlist,
                selected_index,
                scroll_position,
                resource: Some(handle),
            }),
            (_, _, held) => held == page,
        },
{
}

/// A page is shared as long as it is alive and will do: then it is the one that the cache
/// has, and the cache stays. Else a new one is made, and from there on the cache has it;
/// other pages stay.
pub proof fn a_page_is_shared_while_it_will_do<
    H,
    U: Fn(&H) -> Option<SharedPage>,
    W: FnOnce(LoadedPage) -> (SharedPage, H),
>(
    before: PageResourceCache<H>,
    after: PageResourceCache<H>,
    name: PageName,
    empty: LoadedPage,
    consult: bool,
    upgrade: U,
    accepts: spec_fn(SharedPage, bool) -> bool,
    wrap: W,
    shared: SharedPage,
    other: PageName,
)
    requires
        is_shared(before, after, name, empty, consult, upgrade, accepts, wrap, shared),
    ensures
        after.holds(name) is Some,
        other != name ==> after.holds(other) == before.holds(other),
        !consult || before.holds(name) is None ==> wrap.ensures(
            (empty,),
            (shared, after.holds(name).unwrap()),
        ),
        after.holds(name) != before.holds(name) ==> wrap.ensures(
            (empty,),
            (shared, after.holds(name).unwrap()),
        ),
        !wrap.ensures((empty,), (shared, after.holds(name).unwrap())) ==> after == before
            && consult && accepts(shared, true) && upgrade.ensures(
            (&before.holds(name).unwrap(),),
            Some(shared),
        ),
{
}

/// Of a new page nothing is known: no results, no tracks, no errors, and nothing on its way;
/// of a playlist all tracks are still to be had, from the first on.
pub proof fn a_new_page_knows_nothing(empty: LoadedPage, page: Page)
    requires
        empty.is_blank_for(page),
    ensures
        empty is Search <==> page is Search,
        empty is Artist <==> page is Artist,
        empty is Playlist <==> page is Playlist,
        empty matches LoadedPage::Search(resource) ==> resource.results is None
            && !resource.loading && resource.error is None && !resource.loading_more@[0]
            && !resource.loading_more@[1] && !resource.loading_more@[2]
            && !resource.loading_more@[3],
        empty matches LoadedPage::Artist(resource) ==> resource.songs is None && resource.albums
            is None && !resource.songs_loading && !resource.songs_loading_more
            && !resource.albums_loading && !resource.albums_loading_more && resource.song_error
            is None && resource.album_error is None,
        empty matches LoadedPage::Playlist(resource) ==> resource.tracks@.len() == 0
            && resource.has_more && resource.next_offset == 0 && resource.fetched_at_secs == 0
            && !resource.loading,
{
}

/// A page comes back with a handle: its own where it has one, and else a shared one for
/// what it is about; nothing else of it changes.
pub proof fn pages_come_back_with_a_handle<
    H,
    U: Fn(&H) -> Option<SharedPage>,
    W: FnOnce(LoadedPage) -> (SharedPage, H),
>(
    before: PageResourceCache<H>,
    after: PageResourceCache<H>,
    page: Page,
    resolved: Page,
    account: u64,
    upgrade: U,
    wrap: W,
)
    requires
        is_resolved(before, after, page, resolved, account, upgrade, wrap),
    ensures
        page is Home || page is Settings ==> resolved == page && after == before,
        page matches Page::Search { query, category, visible_counts, resource } ==> {
            &&& resolved is Search && resolved->Search_resource is Some
            &&& resolved->query == query && resolved->category == category
                && resolved->visible_counts == visible_counts
            &&& resource is Some ==> resolved == page && after == before
        },
        page matches Page::Artist { artist, resource, .. } ==> {
            &&& resolved is Artist && resolved->Artist_resource is Some
            &&& resolved->artist == artist
            &&& resource is Some ==> resolved == page && after == before
        },
        page matches Page::Playlist { playlist, selected_index, scroll_position, resource } ==> {
            &&& resolved is Playlist && resolved->Playlist_resource is Some
            &&& resolved->playlist == playlist && resolved->selected_index == selected_index
                && resolved->scroll_position == scroll_position
            &&& resource is Some ==> resolved == page && after == before
        },
{
}

/// A page that the cache has is taken from it: where its handle always leads to a page of
/// the right sort, that page is the one that is held, and the cache stays.
pub proof fn pages_in_the_cache_are_shared<
    H,
    U: Fn(&H) -> Option<SharedPage>,
    W: FnOnce(LoadedPage) -> (SharedPage, H),
>(
    before: PageResourceCache<H>,
    after: PageResourceCache<H>,
    page: Page,
    resolved: Page,
    account: u64,
    upgrade: U,
    wrap: W,
    name: PageName,
    handle: H,
)
    requires
        is_resolved(before, after, page, resolved, account, upgrade, wrap),
        name_to_find(page, account) == Some(name),
        before.holds(name) == Some(handle),
        !upgrade.ensures((&handle,), None),
        forall|shared: SharedPage| #[trigger]
            upgrade.ensures((&handle,), Some(shared)) ==> shared.fits(name),
    ensures
        after == before,
        exists|shared: SharedPage| #[trigger]
            upgrade.ensures((&handle,), Some(shared)) && resolved == holding(page, shared),
{
    let (shared, empty) = choose|shared: SharedPage, empty: LoadedPage|
        empty.is_blank_for(page) && shared.fits(name) && resolved == holding(page, shared)
            && #[trigger] is_shared(
            before,
            after,
            name,
            empty,
            true,
            upgrade,
            any_page(),
            wrap,
            shared,
        );
    assert(!is_missed(before.holds(name), name, true, upgrade, any_page()));
    assert(upgrade.ensures((&handle,), Some(shared)));
}

} // verus!
