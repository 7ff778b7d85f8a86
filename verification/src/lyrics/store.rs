//! The lyrics of a track as they are loaded, kept and renewed.

use crate::catalog::same_text;
use crate::lyrics::line::{word_views, LyricLine, LyricWord};
use crate::lyrics::parse::ParsedLyrics;
use crate::settings::fresh;
use std::sync::Arc;
use vstd::prelude::*;

verus! {

/// Thirty days.
pub const LYRIC_CACHE_TTL_SECS: u64 = 2_592_000;

/// Lyrics and when they were fetched.
#[derive(Debug)]
pub struct MemoryLyrics {
    pub parsed: Arc<ParsedLyrics>,
    pub fetched_at_secs: u64,
}

impl MemoryLyrics {
    pub open spec fn up_to_date(self, now_secs: u64) -> bool {
        fresh(self.fetched_at_secs, now_secs, LYRIC_CACHE_TTL_SECS as nat)
    }

    pub fn is_fresh(&self, now_secs: u64) -> (result: bool)
        ensures
            result == self.up_to_date(now_secs),
    {
        now_secs.saturating_sub(self.fetched_at_secs) < LYRIC_CACHE_TTL_SECS
    }
}

fn same_word(a: &LyricWord, b: &LyricWord) -> (result: bool)
    ensures
        result == (a@ == b@),
{
    a.range.start == b.range.start && a.range.end == b.range.end && a.start.as_nanos()
        == b.start.as_nanos() && a.end.as_nanos() == b.end.as_nanos() && same_text(
        &a.ruby,
        &b.ruby,
    )
}

fn same_words(a: &Vec<LyricWord>, b: &Vec<LyricWord>) -> (result: bool)
    ensures
        result == (word_views(a@) == word_views(b@)),
{
    assert(word_views(a@).len() == a@.len() && word_views(b@).len() == b@.len());
    if a.len() != b.len() {
        return false;
    }
    let mut i: usize = 0;
    while i < a.len()
        invariant
            i <= a@.len(),
            a@.len() == b@.len(),
            forall|j: int| 0 <= j < i ==> (#[trigger] a@[j])@ == b@[j]@,
        decreases a.len() - i,
    {
        if !same_word(&a[i], &b[i]) {
            assert(word_views(a@)[i as int] != word_views(b@)[i as int]);
            return false;
        }
        i += 1;
    }
    assert(word_views(a@) =~= word_views(b@));
    true
}

fn same_line(a: &LyricLine, b: &LyricLine) -> (result: bool)
    ensures
        result == (a@ == b@),
{
    a.start.as_nanos() == b.start.as_nanos() && a.text.eq(&b.text) && same_words(&a.words, &b.words)
        && same_text(&a.translation, &b.translation)
}

/// Whether both say the same.
pub fn same_lyrics(a: &ParsedLyrics, b: &ParsedLyrics) -> (result: bool)
    ensures
        result == (a@ == b@),
{
    assert(a@.len() == a.lines@.len() && b@.len() == b.lines@.len());
    if a.lines.len() != b.lines.len() {
        return false;
    }
    let mut i: usize = 0;
    while i < a.lines.len()
        invariant
            i <= a.lines@.len(),
            a.lines@.len() == b.lines@.len(),
            forall|j: int| 0 <= j < i ==> (#[trigger] a.lines@[j])@ == b.lines@[j]@,
        decreases a.lines.len() - i,
    {
        if !same_line(&a.lines[i], &b.lines[i]) {
            assert(a@[i as int] != b@[i as int]);
            return false;
        }
        i += 1;
    }
    assert(a@ =~= b@);
    true
}

/// What is known of the lyrics of one track.
#[derive(Debug)]
pub struct TrackLyrics {
    /// The lyrics that are shown.
    pub cached: Option<MemoryLyrics>,
    /// Newer lyrics, which wait until the track is no longer the current one.
    pub pending: Option<MemoryLyrics>,
    pub loading: bool,
    pub error: Option<String>,
}

pub open spec fn is_up_to_date(lyrics: Option<MemoryLyrics>, now_secs: u64) -> bool {
    lyrics is Some && lyrics.unwrap().up_to_date(now_secs)
}

fn check_fresh(lyrics: &Option<MemoryLyrics>, now_secs: u64) -> (result: bool)
    ensures
        result == is_up_to_date(*lyrics, now_secs),
{
    match lyrics {
        Some(lyrics) => lyrics.is_fresh(now_secs),
        None => false,
    }
}

impl TrackLyrics {
    pub fn new() -> (lyrics: Self)
        ensures
            lyrics.cached is None,
            lyrics.pending is None,
            !lyrics.loading,
            lyrics.error is None,
    {
        TrackLyrics { cached: None, pending: None, loading: false, error: None }
    }

    /// The state once the track is to be shown: lyrics that waited are taken, unless
    /// the track has been the current one all along.
    pub open spec fn settled(self, is_current: bool) -> TrackLyrics {
        if !is_current && self.pending is Some {
            TrackLyrics { cached: self.pending, pending: None, ..self }
        } else {
            self
        }
    }

    /// There is nothing to load: what is known is fresh, or is being loaded.
    pub open spec fn satisfied(self, is_current: bool, now_secs: u64) -> bool {
        ||| (is_current && is_up_to_date(self.pending, now_secs))
        ||| is_up_to_date(self.cached, now_secs)
        ||| self.loading
    }

    /// Prepares the lyrics of a track that is about to play. Says whether they are to
    /// be loaded, and then whether older ones are there. A track without an id has none.
    pub fn ensure(&mut self, mid: &str, is_current: bool, now_secs: u64) -> (load: Option<bool>)
        ensures
            mid@.len() == 0 ==> load is None && *final(self) == *old(self),
            mid@.len() > 0 ==> ({
                let before = old(self).settled(is_current);
                if before.satisfied(is_current, now_secs) {
                    load is None && *final(self) == before
                } else {
                    load == Some(before.cached is Some) && *final(self) == (TrackLyrics {
                        loading: true,
                        error: None,
                        ..before
                    })
                }
            }),
    {
        if mid.is_empty() {
            return None;
        }
        if !is_current && self.pending.is_some() {
            let newer = self.pending.take();
            self.cached = newer;
        }
        let had_cached = self.cached.is_some();
        if (is_current && check_fresh(&self.pending, now_secs)) || check_fresh(
            &self.cached,
            now_secs,
        ) || self.loading {
            return None;
        }
        self.loading = true;
        self.error = None;
        Some(had_cached)
    }

    /// Takes in lyrics from the disk; fresh ones end the loading.
    pub fn on_disk(&mut self, lyrics: MemoryLyrics, is_fresh: bool)
        ensures
            *final(self) == (TrackLyrics {
                cached: Some(lyrics),
                error: None,
                loading: old(self).loading && !is_fresh,
                ..*old(self)
            }),
    {
        self.error = None;
        self.cached = Some(lyrics);
        if is_fresh {
            self.loading = false;
        }
    }

    /// The state once lyrics came from the service. While the track plays with older
    /// lyrics, new ones wait; the same ones only count as fetched anew.
    pub open spec fn renewed(
        self,
        lyrics: MemoryLyrics,
        had_cached: bool,
        is_current: bool,
    ) -> TrackLyrics {
        let done = TrackLyrics { loading: false, error: None, ..self };
        if had_cached && is_current {
            if self.cached is Some && self.cached.unwrap().parsed@ == lyrics.parsed@ {
                TrackLyrics {
                    cached: Some(
                        MemoryLyrics {
                            fetched_at_secs: lyrics.fetched_at_secs,
                            ..self.cached.unwrap()
                        },
                    ),
                    pending: None,
                    ..done
                }
            } else {
                TrackLyrics { pending: Some(lyrics), ..done }
            }
        } else {
            TrackLyrics { cached: Some(lyrics), pending: None, ..done }
        }
    }

    /// Takes in the answer of the service; an error counts only without older lyrics.
    pub fn on_network(
        &mut self,
        result: Result<MemoryLyrics, String>,
        had_cached: bool,
        is_current: bool,
    )
        ensures
            match result {
                Ok(lyrics) => *final(self) == old(self).renewed(lyrics, had_cached, is_current),
                Err(error) => *final(self) == (TrackLyrics {
                    loading: false,
                    error: if had_cached {
                        None
                    } else {
                        Some(error)
                    },
                    ..*old(self)
                }),
            },
    {
        self.loading = false;
        match result {
            Err(error) => {
                self.error = if had_cached {
                    None
                } else {
                    Some(error)
                };
            },
            Ok(lyrics) => {
                self.error = None;
                let unchanged: bool = match &self.cached {
                    Some(cached) => same_lyrics(&cached.parsed, &lyrics.parsed),
                    None => false,
                };
                if had_cached && is_current {
                    if unchanged {
                        if let Some(cached) = &mut self.cached {
                            cached.fetched_at_secs = lyrics.fetched_at_secs;
                        }
                        self.pending = None;
                    } else {
                        self.pending = Some(lyrics);
                    }
                } else {
                    self.pending = None;
                    self.cached = Some(lyrics);
                }
            },
        }
    }

    /// The loader is gone: without lyrics nothing is loading any more.
    pub fn on_closed(&mut self) -> (changed: bool)
        ensures
            changed == (old(self).cached is None && old(self).loading),
            *final(self) == (if changed {
                TrackLyrics { loading: false, ..*old(self) }
            } else {
                *old(self)
            }),
    {
        if self.cached.is_none() && self.loading {
            self.loading = false;
            return true;
        }
        false
    }
}

/// While a track plays, the lyrics that are shown with it do not change under the
/// listener: only newly loaded first lyrics appear.
pub proof fn shown_lyrics_stay_while_playing(state: TrackLyrics, lyrics: MemoryLyrics, now_secs: u64)
    requires
        state.cached is Some,
    ensures
        state.renewed(lyrics, true, true).cached.unwrap().parsed == state.cached.unwrap().parsed,
        state.settled(true).cached == state.cached,
{
}

/// Lyrics that came while the track played are shown the next time it plays.
pub proof fn newer_lyrics_show_next_time(state: TrackLyrics, lyrics: MemoryLyrics)
    requires
        state.cached is Some,
        state.cached.unwrap().parsed@ != lyrics.parsed@,
    ensures
        state.renewed(lyrics, true, true).settled(false).cached == Some(lyrics),
        state.renewed(lyrics, true, true).settled(false).pending is None,
{
}

/// Lyrics are fresh for thirty days, and those from the future are.
pub proof fn lyrics_stay_fresh_for_thirty_days(lyrics: MemoryLyrics, now_secs: u64)
    ensures
        lyrics.up_to_date(now_secs) <==> now_secs < lyrics.fetched_at_secs + 30 * 24 * 60 * 60,
{
}

/// Lyrics are loaded only where none are being loaded and none that are known are fresh;
/// those that wait count while the track plays.
pub proof fn fresh_lyrics_are_not_loaded_again(state: TrackLyrics, is_current: bool, now_secs: u64)
    ensures
        state.loading ==> state.satisfied(is_current, now_secs),
        state.cached is Some && state.cached.unwrap().up_to_date(now_secs) ==> state.satisfied(
            is_current,
            now_secs,
        ),
        !state.loading && state.cached is None && state.pending is None ==> !state.satisfied(
            is_current,
            now_secs,
        ),
        !state.loading && (state.cached is Some ==> !state.cached.unwrap().up_to_date(now_secs))
            && !is_current ==> !state.satisfied(is_current, now_secs),
        !state.loading && is_current && (state.cached is Some
            ==> !state.cached.unwrap().up_to_date(now_secs)) ==> (state.satisfied(
            is_current,
            now_secs,
        ) <==> state.pending is Some && state.pending.unwrap().up_to_date(now_secs)),
{
}

/// Lyrics that came are shown at once unless older ones show while the track plays; then
/// they wait, or where they say the same only renew the others. Either way nothing is
/// being loaded any more, and no error stays.
pub proof fn lyrics_that_came_are_kept(
    state: TrackLyrics,
    lyrics: MemoryLyrics,
    had_cached: bool,
    is_current: bool,
)
    ensures
        ({
            let after = state.renewed(lyrics, had_cached, is_current);
            &&& !after.loading && after.error is None
            &&& !had_cached || !is_current ==> after.cached == Some(lyrics) && after.pending is None
            &&& had_cached && is_current ==> ({
                let same = state.cached is Some && state.cached.unwrap().parsed@
                    == lyrics.parsed@;
                &&& same ==> after.cached is Some && after.pending is None
                    && after.cached.unwrap().parsed == state.cached.unwrap().parsed
                    && after.cached.unwrap().fetched_at_secs == lyrics.fetched_at_secs
                &&& !same ==> after.cached == state.cached && after.pending == Some(lyrics)
            })
        }),
{
}

/// Lyrics that waited are taken once the track is shown anew, and not before; all else of
/// the state stays.
pub proof fn lyrics_that_waited_are_taken(state: TrackLyrics)
    ensures
        state.settled(true) == state,
        state.pending is None ==> state.settled(false) == state,
        state.pending is Some ==> state.settled(false).cached == state.pending && state.settled(
            false,
        ).pending is None,
        state.settled(false).loading == state.loading && state.settled(false).error == state.error,
{
}

} // verus!
