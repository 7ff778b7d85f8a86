//! The results of a search.

use crate::lyrics::line::{copy_text, text_of};
use crate::resources::{SearchCategory, SearchResource, SearchVisibleCounts, SharedSearchResults};
use crate::loading::{framed, labelled};
use crate::icons::MediaIcon;
use vstd::prelude::*;

verus! {

impl SearchCategory {
    pub fn icon(self) -> (icon: MediaIcon)
        ensures
            icon == (match self {
                SearchCategory::Songs => MediaIcon::Music,
                SearchCategory::Artists => MediaIcon::Artist,
                SearchCategory::Albums => MediaIcon::Album,
                SearchCategory::Playlists => MediaIcon::Playlist,
            }),
    {
        match self {
            SearchCategory::Songs => MediaIcon::Music,
            SearchCategory::Artists => MediaIcon::Artist,
            SearchCategory::Albums => MediaIcon::Album,
            SearchCategory::Playlists => MediaIcon::Playlist,
        }
    }
}

/// What the page of a search shows.
#[derive(Debug)]
pub struct SearchView {
    pub heading: String,
    pub loading: bool,
    /// An error in the place of results.
    pub failure: Option<String>,
    /// What is said where nothing of the kind was found.
    pub nothing_found: Option<String>,
    /// How many results of the kind are shown.
    pub visible: Option<usize>,
    /// An error beside results.
    pub warning: Option<String>,
    pub has_more: bool,
    pub more_disabled: bool,
}

/// How many results are shown.
pub open spec fn visible_count(results: SharedSearchResults, category: SearchCategory, wished: int) -> int {
    let loaded = results.loaded(category);
    if wished <= loaded {
        wished
    } else {
        loaded
    }
}

impl SearchView {
    pub open spec fn shows(
        self,
        query: Seq<char>,
        category: SearchCategory,
        wished: int,
        resource: SearchResource,
    ) -> bool {
        let found = resource.results is Some;
        let results = resource.results.unwrap();
        let empty = found && results.loaded(category) == 0;
        &&& self.heading@ == "搜索“"@ + query + "”"@
        &&& self.loading == resource.loading
        &&& text_of(self.failure) == (if !resource.loading && !found {
            text_of(resource.error)
        } else {
            None
        })
        &&& text_of(self.nothing_found) == (if !resource.loading && empty {
            Some("没有找到相关"@ + category.label_text())
        } else {
            None
        })
        &&& match self.visible {
            Some(count) => !resource.loading && found && !empty && count == visible_count(
                results,
                category,
                wished,
            ),
            None => resource.loading || !found || empty,
        }
        &&& text_of(self.warning) == (if found {
            text_of(resource.error)
        } else {
            None
        })
        &&& self.has_more == (found && (results.loaded(category) > visible_count(
            results,
            category,
            wished,
        ) || results.more(category)))
        &&& self.more_disabled == resource.loading_more@[category.place()]
    }
}

/// Composes the page of a search.
pub fn search_view(
    query: &str,
    category: SearchCategory,
    counts: SearchVisibleCounts,
    resource: &SearchResource,
) -> (view: SearchView)
    ensures
        view.shows(query@, category, counts.count(category) as int, *resource),
{
    let wished: usize = counts.get(category);
    let slot: usize = category.index();
    let heading = framed("搜索“", query, "”");
    let more_disabled = resource.loading_more[slot];
    match &resource.results {
        None => SearchView {
            heading,
            loading: resource.loading,
            failure: if resource.loading {
                None
            } else {
                copy_text(&resource.error)
            },
            nothing_found: None,
            visible: None,
            warning: None,
            has_more: false,
            more_disabled,
        },
        Some(results) => {
            let (loaded, more, _) = results.extent(category);
            let visible: usize = if wished <= loaded {
                wished
            } else {
                loaded
            };
            let empty = loaded == 0;
            SearchView {
                heading,
                loading: resource.loading,
                failure: None,
                nothing_found: if !resource.loading && empty {
                    Some(labelled("没有找到相关", category.label()))
                } else {
                    None
                },
                visible: if !resource.loading && !empty {
                    Some(visible)
                } else {
                    None
                },
                warning: copy_text(&resource.error),
                has_more: loaded > visible || more,
                more_disabled,
            }
        },
    }
}

/// What stands below a playlist that was found.
pub open spec fn found_subtitle(owner: Seq<char>) -> Seq<char> {
    if owner.len() == 0 {
        "QQ 音乐歌单"@
    } else {
        owner
    }
}

pub fn playlist_card_subtitle(owner: &String) -> (text: String)
    ensures
        text@ == found_subtitle(owner@),
{
    if owner.as_str().is_empty() {
        "QQ 音乐歌单".to_owned()
    } else {
        owner.clone()
    }
}

/// A row of a song.
#[derive(Clone, Copy, Debug, PartialEq, Eq, Structural)]
pub struct SongRow {
    pub current: bool,
    pub loading: bool,
    pub pauses: bool,
}

pub open spec fn same_id(mid: Seq<char>, other: Option<Seq<char>>) -> bool {
    match other {
        Some(other) => mid == other,
        None => false,
    }
}

/// Which of the rows of songs plays or loads.
pub fn song_row(
    mid: &String,
    current_mid: &Option<String>,
    loading_mid: &Option<String>,
    is_playing: bool,
) -> (row: SongRow)
    ensures
        row.current == same_id(mid@, text_of(*current_mid)),
        row.loading == same_id(mid@, text_of(*loading_mid)),
        row.pauses == (row.current && is_playing),
{
    let current: bool = match current_mid {
        Some(current) => mid.eq(current),
        None => false,
    };
    let loading: bool = match loading_mid {
        Some(loading) => mid.eq(loading),
        None => false,
    };
    SongRow { current, loading, pauses: current && is_playing }
}

/// As many results show as were wished, where that many are there, and else all.
pub proof fn as_many_results_show_as_are_wished(
    results: SharedSearchResults,
    category: SearchCategory,
    wished: int,
)
    ensures
        visible_count(results, category, wished) <= wished,
        visible_count(results, category, wished) <= results.loaded(category),
        visible_count(results, category, wished) == wished || visible_count(
            results,
            category,
            wished,
        ) == results.loaded(category),
{
}

/// A search shows as many results as were wished and are there; where it found none of a
/// kind it says so, and where it failed it shows the error in their place, or beside them
/// where some are there. More can be asked for while some are hidden or to be had.
pub proof fn a_search_shows_what_it_found(
    view: SearchView,
    query: Seq<char>,
    category: SearchCategory,
    wished: int,
    resource: SearchResource,
)
    requires
        view.shows(query, category, wished, resource),
    ensures
        view.loading == resource.loading,
        resource.loading || resource.results is None ==> view.visible is None && view.nothing_found
            is None,
        resource.loading || resource.results is Some ==> view.failure is None,
        !resource.loading && resource.results is None ==> text_of(view.failure) == text_of(
            resource.error,
        ) && view.warning is None && !view.has_more,
        resource.results matches Some(results) ==> {
            let count = results.loaded(category);
            &&& text_of(view.warning) == text_of(resource.error)
            &&& !resource.loading && count == 0 ==> view.visible is None && view.nothing_found
                is Some
            &&& !resource.loading && count > 0 ==> view.nothing_found is None && view.visible
                is Some && view.visible.unwrap() == (if wished < count {
                wished
            } else {
                count
            })
            &&& view.has_more <==> count > wished || results.more(category)
        },
        view.more_disabled == resource.loading_more@[category.place()],
        view.heading@ == "搜索“"@ + query + "”"@,
{
}

/// Ids are the same where both are there and say the same.
pub proof fn ids_are_compared_where_both_are_there(mid: Seq<char>, other: Seq<char>)
    ensures
        same_id(mid, Some(other)) <==> mid == other,
        !same_id(mid, None),
{
}

} // verus!
