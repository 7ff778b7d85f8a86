//! The songs and albums of an artist.

use crate::lyrics::line::text_of;
use crate::resources::{ArtistResource, SharedSearchPage};
use vstd::prelude::*;

verus! {

/// What a section of the page shows.
#[derive(Debug)]
pub enum SectionBody {
    Loading,
    Failed(String),
    /// This many of the loaded items.
    Items(usize),
    Empty,
}

/// A section of the page.
#[derive(Debug)]
pub struct Section {
    pub body: SectionBody,
    pub has_more: bool,
    /// More is on its way.
    pub loading_more: bool,
}

impl Section {
    pub open spec fn shows<T>(
        self,
        page: Option<SharedSearchPage<T>>,
        loading: bool,
        loading_more: bool,
        error: Option<Seq<char>>,
        wished: usize,
    ) -> bool {
        let loaded = match page {
            Some(page) => page.items@.len() as int,
            None => 0,
        };
        &&& self.loading_more == loading_more
        &&& self.has_more == (page is Some && (loaded > wished || page.unwrap().has_more))
        &&& if loading && page is None {
            self.body is Loading
        } else if error is Some {
            self.body matches SectionBody::Failed(text) && text@ == error.unwrap()
        } else if loaded > 0 {
            self.body == SectionBody::Items(
                if wished <= loaded {
                    wished
                } else {
                    loaded as usize
                },
            )
        } else {
            self.body is Empty
        }
    }

    pub open spec fn more_text(self) -> Seq<char> {
        if self.loading_more {
            "正在加载…"@
        } else {
            "查看更多"@
        }
    }

    pub fn more_label(&self) -> (text: &'static str)
        ensures
            text@ == self.more_text(),
    {
        if self.loading_more {
            "正在加载…"
        } else {
            "查看更多"
        }
    }
}

/// Composes a section out of what is loaded of it.
pub fn section<T>(
    page: &Option<SharedSearchPage<T>>,
    loading: bool,
    loading_more: bool,
    error: &Option<String>,
    wished: usize,
) -> (section: Section)
    ensures
        section.shows(*page, loading, loading_more, text_of(*error), wished),
{
    let loaded: usize = match page {
        Some(page) => page.items.len(),
        None => 0,
    };
    let more: bool = match page {
        Some(page) => page.has_more,
        None => false,
    };
    let body = if loading && page.is_none() {
        SectionBody::Loading
    } else {
        match error {
            Some(error) => SectionBody::Failed(error.clone()),
            None => if loaded > 0 {
                SectionBody::Items(
                    if wished <= loaded {
                        wished
                    } else {
                        loaded
                    },
                )
            } else {
                SectionBody::Empty
            },
        }
    };
    Section { body, has_more: page.is_some() && (loaded > wished || more), loading_more }
}

/// The sections of an artist's page: the songs and the albums.
pub fn artist_sections(resource: &ArtistResource, songs_wished: usize, albums_wished: usize) -> (sections:
    (Section, Section))
    ensures
        sections.0.shows(
            resource.songs,
            resource.songs_loading,
            resource.songs_loading_more,
            text_of(resource.song_error),
            songs_wished,
        ),
        sections.1.shows(
            resource.albums,
            resource.albums_loading,
            resource.albums_loading_more,
            text_of(resource.album_error),
            albums_wished,
        ),
{
    (
        section(
            &resource.songs,
            resource.songs_loading,
            resource.songs_loading_more,
            &resource.song_error,
            songs_wished,
        ),
        section(
            &resource.albums,
            resource.albums_loading,
            resource.albums_loading_more,
            &resource.album_error,
            albums_wished,
        ),
    )
}

/// A section of an artist shows as many items as were wished and are there. What failed
/// shows the error, what is still to come that it is loading, and what is there but empty
/// that there is nothing. More can be asked for while some are hidden or to be had.
pub proof fn a_section_shows_what_is_there<T>(
    section: Section,
    page: Option<SharedSearchPage<T>>,
    loading: bool,
    loading_more: bool,
    error: Option<Seq<char>>,
    wished: usize,
)
    requires
        section.shows(page, loading, loading_more, error, wished),
    ensures
        section.loading_more == loading_more,
        loading && page is None ==> section.body is Loading,
        !(loading && page is None) && error is Some ==> section.body is Failed,
        page matches Some(page) ==> {
            let count = page.items@.len();
            &&& section.has_more <==> count > wished || page.has_more
            &&& error is None && count == 0 ==> section.body is Empty
            &&& error is None && count > 0 ==> section.body == SectionBody::Items(
                if wished < count {
                    wished
                } else {
                    count as usize
                },
            )
        },
        page is None ==> !section.has_more,
        page is None && !loading && error is None ==> section.body is Empty,
{
}

} // verus!
