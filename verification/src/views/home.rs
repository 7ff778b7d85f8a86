//! The home page.

use crate::catalog::{playlist_cards, PlaylistCard, UserPlaylist};
use crate::lyrics::line::{copy_text, text_of};
use crate::pages::HomeState;
use crate::views::layout::{pick, Layout};
use vstd::prelude::*;

verus! {

/// The sizes of the home page, in pixels.
#[derive(Clone, Copy, Debug, PartialEq, Eq, Structural)]
pub struct HomeSizes {
    pub cover: u32,
    pub card: u32,
    pub feature: u32,
    pub grid: u32,
    pub heading: u32,
}

pub open spec fn home_sizes(layout: Layout) -> HomeSizes {
    HomeSizes {
        cover: pick(layout, 132, 148, 168),
        card: (pick(layout, 132, 148, 168) + 16) as u32,
        feature: pick(layout, 304, 344, 384),
        grid: pick(layout, 640, 704, 784),
        heading: if layout.narrow {
            22
        } else {
            24
        },
    }
}

/// A playlist on the home page.
#[derive(Debug)]
pub struct HomeCard {
    pub title: String,
    pub subtitle: String,
}

pub open spec fn card_subtitle(description: Seq<char>) -> Seq<char> {
    if description.len() == 0 {
        "为你推荐"@
    } else {
        description
    }
}

/// What the home page shows.
#[derive(Debug)]
pub enum HomeView {
    Loading,
    Failed(String),
    Empty,
    Content {
        sizes: HomeSizes,
        cards: Vec<HomeCard>,
        /// Recommendations are on their way, so none can be asked for.
        recommendations_disabled: bool,
        error: Option<String>,
    },
}

pub open spec fn card_texts(cards: Seq<HomeCard>) -> Seq<(Seq<char>, Seq<char>)> {
    cards.map_values(|card: HomeCard| (card.title@, card.subtitle@))
}

pub open spec fn texts_for(playlists: Seq<PlaylistCard>) -> Seq<(Seq<char>, Seq<char>)> {
    playlists.map_values(
        |playlist: PlaylistCard| (playlist.title, card_subtitle(playlist.description)),
    )
}

impl HomeView {
    pub open spec fn shows(self, home: HomeState, layout: Layout) -> bool {
        let none = home.playlists@.len() == 0;
        if home.loading && none {
            self is Loading
        } else if none && home.error is Some {
            self matches HomeView::Failed(error) && error@ == home.error.unwrap()@
        } else if home.loaded && none {
            self is Empty
        } else {
            self matches HomeView::Content { sizes, cards, recommendations_disabled, error }
                && sizes == home_sizes(layout) && card_texts(cards@) == texts_for(
                playlist_cards(home.playlists@),
            ) && recommendations_disabled == (home.recommendation_loading is Some) && text_of(error)
                == text_of(home.error)
        }
    }
}

fn home_cards(playlists: &Vec<UserPlaylist>) -> (cards: Vec<HomeCard>)
    ensures
        card_texts(cards@) == texts_for(playlist_cards(playlists@)),
{
    let ghost all = texts_for(playlist_cards(playlists@));
    let mut cards: Vec<HomeCard> = Vec::new();
    let mut i: usize = 0;
    assert(card_texts(cards@) =~= all.take(0));
    while i < playlists.len()
        invariant
            i <= playlists@.len(),
            all == texts_for(playlist_cards(playlists@)),
            card_texts(cards@) == all.take(i as int),
        decreases playlists.len() - i,
    {
        let playlist = &playlists[i];
        assert(playlist_cards(playlists@)[i as int] == playlist@);
        let card = HomeCard {
            title: playlist.title.clone(),
            subtitle: if playlist.description.as_str().is_empty() {
                "为你推荐".to_owned()
            } else {
                playlist.description.clone()
            },
        };
        let ghost before = cards@;
        cards.push(card);
        assert(card_texts(cards@) =~= card_texts(before).push((card.title@, card.subtitle@)));
        assert(all.take(i + 1) =~= all.take(i as int).push(all[i as int]));
        i += 1;
    }
    assert(all.take(all.len() as int) =~= all);
    cards
}

/// Composes the home page.
pub fn home_view(home: &HomeState, layout: Layout) -> (view: HomeView)
    ensures
        view.shows(*home, layout),
{
    let none = home.playlists.len() == 0;
    if home.loading && none {
        return HomeView::Loading;
    }
    if none {
        if let Some(error) = &home.error {
            return HomeView::Failed(error.clone());
        }
        if home.loaded {
            return HomeView::Empty;
        }
    }
    let cover: u32 = layout.pick(132, 148, 168);
    HomeView::Content {
        sizes: HomeSizes {
            cover,
            card: cover + 16,
            feature: layout.pick(304, 344, 384),
            grid: layout.pick(640, 704, 784),
            heading: if layout.narrow {
                22
            } else {
                24
            },
        },
        cards: home_cards(&home.playlists),
        recommendations_disabled: home.recommendation_loading.is_some(),
        error: copy_text(&home.error),
    }
}

/// The home page shows a card for each playlist, with its title and its description; without
/// one it shows that they are loading, that this failed, or that there are none.
pub proof fn home_shows_a_card_for_each_playlist(view: HomeView, home: HomeState, layout: Layout)
    requires
        view.shows(home, layout),
    ensures
        home.playlists@.len() > 0 ==> view is Content,
        home.playlists@.len() == 0 && home.loading ==> view is Loading,
        home.playlists@.len() == 0 && !home.loading && home.error is Some ==> view is Failed,
        home.playlists@.len() == 0 && !home.loading && home.error is None && home.loaded ==> view
            is Empty,
        view is Content ==> {
            &&& view->cards@.len() == home.playlists@.len()
            &&& forall|i: int|
                0 <= i < home.playlists@.len() ==> (#[trigger] view->cards@[i]).title@
                    == home.playlists@[i].title@ && (home.playlists@[i].description@.len() > 0
                    ==> view->cards@[i].subtitle@ == home.playlists@[i].description@)
            &&& view->recommendations_disabled <==> home.recommendation_loading is Some
        },
{
    if view is Content {
        let cards = view->cards@;
        let texts = card_texts(cards);
        assert(texts.len() == cards.len());
        assert forall|i: int| 0 <= i < home.playlists@.len() implies (#[trigger] cards[i]).title@
            == home.playlists@[i].title@ && (home.playlists@[i].description@.len() > 0
            ==> cards[i].subtitle@ == home.playlists@[i].description@) by {
            assert(texts[i] == (cards[i].title@, cards[i].subtitle@));
            assert(texts[i] == texts_for(playlist_cards(home.playlists@))[i]);
        }
    }
}

/// The home page grows with the window, and a card is as wide as its cover with a margin.
pub proof fn home_grows_with_the_window()
    ensures
        ({
            let narrow = home_sizes(Layout { narrow: true, compact: true });
            let compact = home_sizes(Layout { narrow: false, compact: true });
            let wide = home_sizes(Layout { narrow: false, compact: false });
            &&& narrow.cover == 132 && compact.cover == 148 && wide.cover == 168
            &&& narrow.card == 148 && compact.card == 164 && wide.card == 184
            &&& narrow.feature == 304 && compact.feature == 344 && wide.feature == 384
            &&& narrow.grid == 640 && compact.grid == 704 && wide.grid == 784
            &&& narrow.heading == 22 && compact.heading == 24 && wide.heading == 24
        }),
{
}

} // verus!
