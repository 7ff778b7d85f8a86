//! A line cut into the stretches that are drawn one by one.

use crate::catalog::share;
use crate::lyrics::line::{copy_text, text_of, words_follow, Line, LyricLine, Word};
use crate::lyrics::timing::{adjacent_lyric_timing, stretch_times, times_of};
use crate::offset::{
    index_at_bounds, index_at_grows, index_of_offset, is_offset, offset_of, offset_of_grows,
    slice_at, slice_text,
};
use crate::text::{byte_len, from_chars, utf8_len};
use crate::time::Duration;
use std::sync::Arc;
use vstd::prelude::*;

verus! {

/// How a line is drawn: the one that is sung, or another.
#[derive(Clone, Copy, Debug, PartialEq, Eq, Structural)]
pub enum LyricLayoutStyle {
    Normal,
    Active,
}

/// The sizes of a line, in pixels.
#[derive(Clone, Copy, Debug, PartialEq, Eq, Structural)]
pub struct LyricMetrics {
    pub font_size: u32,
    pub ruby_font_size: u32,
    pub ruby_line_height: u32,
    pub translation_font_size: u32,
    pub translation_line_height: u32,
}

pub open spec fn metrics(style: LyricLayoutStyle, compact: bool, narrow: bool) -> LyricMetrics {
    LyricMetrics {
        font_size: match style {
            LyricLayoutStyle::Active => if compact {
                24
            } else {
                28
            },
            LyricLayoutStyle::Normal => if compact {
                17
            } else {
                19
            },
        },
        ruby_font_size: if narrow {
            11
        } else {
            12
        },
        ruby_line_height: if narrow {
            13
        } else {
            15
        },
        translation_font_size: if narrow {
            13
        } else {
            14
        },
        translation_line_height: if narrow {
            18
        } else {
            20
        },
    }
}

pub fn lyric_metrics(style: LyricLayoutStyle, compact: bool, narrow: bool) -> (result: LyricMetrics)
    ensures
        result == metrics(style, compact, narrow),
{
    LyricMetrics {
        font_size: match style {
            LyricLayoutStyle::Active => if compact {
                24
            } else {
                28
            },
            LyricLayoutStyle::Normal => if compact {
                17
            } else {
                19
            },
        },
        ruby_font_size: if narrow {
            11
        } else {
            12
        },
        ruby_line_height: if narrow {
            13
        } else {
            15
        },
        translation_font_size: if narrow {
            13
        } else {
            14
        },
        translation_line_height: if narrow {
            18
        } else {
            20
        },
    }
}

/// A stretch of a line with the reading above it and the time in which it is lit.
#[derive(Debug)]
pub struct LyricFragment {
    pub text: String,
    pub ruby: Option<String>,
    pub timing: Option<(Duration, Duration)>,
}

/// What a `LyricFragment` says.
pub struct Fragment {
    pub text: Seq<char>,
    pub ruby: Option<Seq<char>>,
    pub timing: Option<(nat, nat)>,
}

impl View for LyricFragment {
    type V = Fragment;

    open spec fn view(&self) -> Fragment {
        Fragment { text: self.text@, ruby: text_of(self.ruby), timing: times_of(self.timing) }
    }
}

pub open spec fn fragment_views(fragments: Seq<LyricFragment>) -> Seq<Fragment> {
    fragments.map_values(|f: LyricFragment| f@)
}

pub open spec fn has_ruby(words: Seq<Word>) -> bool {
    exists|i: int| 0 <= i < words.len() && (#[trigger] words[i]).ruby is Some
}

/// One fragment, and none for an empty text.
pub open spec fn fragment(
    text: Seq<char>,
    ruby: Option<Seq<char>>,
    timing: Option<(nat, nat)>,
) -> Seq<Fragment> {
    if text.len() == 0 {
        Seq::empty()
    } else {
        seq![Fragment { text, ruby, timing }]
    }
}

pub open spec fn only_if(active: bool, times: (nat, nat)) -> Option<(nat, nat)> {
    if active {
        Some(times)
    } else {
        None
    }
}

/// The fragments from the word at `i` on, where the text up to `cursor` is behind
/// and `previous` gives the times of the word in front: what stands between two words
/// is a fragment of its own.
pub open spec fn fragments_from(
    line: Line,
    line_end: nat,
    active: bool,
    i: int,
    cursor: int,
    previous: Option<(nat, nat)>,
) -> Seq<Fragment>
    decreases line.words.len() - i,
{
    if i < 0 || i >= line.words.len() {
        if cursor < byte_len(line.text) {
            fragment(
                slice_at(line.text, cursor, byte_len(line.text) as int),
                None,
                only_if(active, stretch_times(previous, None, line.start, line_end)),
            )
        } else {
            Seq::empty()
        }
    } else {
        let word = line.words[i];
        let times = (word.start, word.end);
        let between = if cursor < word.from {
            fragment(
                slice_at(line.text, cursor, word.from),
                None,
                only_if(active, stretch_times(previous, Some(times), line.start, line_end)),
            )
        } else {
            Seq::empty()
        };
        between + fragment(line.word_text(i), word.ruby, only_if(active, times)) + fragments_from(
            line,
            line_end,
            active,
            i + 1,
            word.to,
            Some(times),
        )
    }
}

/// The fragments of a line: by its words where they are lit or carry readings, and
/// else the whole line.
pub open spec fn line_fragments(line: Line, line_end: nat, style: LyricLayoutStyle) -> Seq<
    Fragment,
> {
    let active = style == LyricLayoutStyle::Active;
    if (active && line.words.len() > 0) || has_ruby(line.words) {
        fragments_from(line, line_end, active, 0, 0, None)
    } else {
        fragment(line.text, None, None)
    }
}

/// What the fragments say together.
pub open spec fn fragments_text(fragments: Seq<Fragment>) -> Seq<char>
    decreases fragments.len(),
{
    if fragments.len() == 0 {
        Seq::empty()
    } else {
        fragments_text(fragments.drop_last()) + fragments.last().text
    }
}

proof fn text_of_concat(a: Seq<Fragment>, b: Seq<Fragment>)
    ensures
        fragments_text(a + b) == fragments_text(a) + fragments_text(b),
    decreases b.len(),
{
    if b.len() == 0 {
        assert(a + b =~= a);
        assert(fragments_text(a) + fragments_text(b) =~= fragments_text(a));
    } else {
        assert((a + b).drop_last() =~= a + b.drop_last());
        text_of_concat(a, b.drop_last());
        assert(fragments_text(a + b) =~= fragments_text(a) + fragments_text(b));
    }
}

proof fn text_of_fragment(text: Seq<char>, ruby: Option<Seq<char>>, timing: Option<(nat, nat)>)
    ensures
        fragments_text(fragment(text, ruby, timing)) == text,
{
    let all = fragment(text, ruby, timing);
    if text.len() == 0 {
        assert(text =~= Seq::empty());
    } else {
        assert(all.drop_last() =~= Seq::empty());
        assert(fragments_text(all.drop_last()) =~= Seq::empty());
        assert(fragments_text(all) =~= text);
    }
}

proof fn slices_join(text: Seq<char>, a: int, b: int, c: int)
    requires
        a <= b <= c,
    ensures
        slice_at(text, a, b) + slice_at(text, b, c) == slice_at(text, a, c),
{
    index_at_bounds(text, a);
    index_at_bounds(text, c);
    index_at_grows(text, a, b);
    index_at_grows(text, b, c);
    assert(slice_at(text, a, b) + slice_at(text, b, c) =~= slice_at(text, a, c));
}

proof fn offset_within(text: Seq<char>, offset: int)
    requires
        is_offset(text, offset),
    ensures
        0 <= offset <= byte_len(text),
{
    let index = choose|index: int|
        0 <= index <= text.len() && #[trigger] offset_of(text, index) == offset;
    offset_of_grows(text, index, text.len() as int);
}

proof fn fragments_cover_from(
    line: Line,
    line_end: nat,
    active: bool,
    i: int,
    cursor: int,
    previous: Option<(nat, nat)>,
)
    requires
        line.words_fit(),
        words_follow(line.words),
        0 <= i <= line.words.len(),
        0 <= cursor <= byte_len(line.text),
        i < line.words.len() ==> cursor <= line.words[i].from,
    ensures
        fragments_text(fragments_from(line, line_end, active, i, cursor, previous)) == slice_at(
            line.text,
            cursor,
            byte_len(line.text) as int,
        ),
    decreases line.words.len() - i,
{
    let end = byte_len(line.text) as int;
    let text = line.text;
    index_at_bounds(text, cursor);
    if i == line.words.len() {
        let times = only_if(active, stretch_times(previous, None, line.start, line_end));
        text_of_fragment(slice_at(text, cursor, end), None, times);
        if cursor == end {
            assert(slice_at(text, cursor, end) =~= Seq::empty());
        }
    } else {
        let word = line.words[i];
        let times = (word.start, word.end);
        offset_within(text, word.from);
        offset_within(text, word.to);
        if i + 1 < line.words.len() {
            assert(line.words[i].to <= line.words[i + 1].from);
        }
        fragments_cover_from(line, line_end, active, i + 1, word.to, Some(times));
        let stretch = only_if(active, stretch_times(previous, Some(times), line.start, line_end));
        let between = if cursor < word.from {
            fragment(slice_at(text, cursor, word.from), None, stretch)
        } else {
            Seq::empty()
        };
        let own = fragment(line.word_text(i), word.ruby, only_if(active, times));
        let rest = fragments_from(line, line_end, active, i + 1, word.to, Some(times));
        text_of_fragment(slice_at(text, cursor, word.from), None, stretch);
        text_of_fragment(line.word_text(i), word.ruby, only_if(active, times));
        if cursor == word.from {
            assert(slice_at(text, cursor, word.from) =~= Seq::empty());
        }
        text_of_concat(between, own);
        text_of_concat(between + own, rest);
        slices_join(text, cursor, word.from, word.to);
        slices_join(text, cursor, word.to, end);
    }
}

/// The fragments of a line say together exactly what the line says.
pub proof fn fragments_cover_line(line: Line, line_end: nat, style: LyricLayoutStyle)
    requires
        line.wf(),
    ensures
        fragments_text(line_fragments(line, line_end, style)) == line.text,
{
    let active = style == LyricLayoutStyle::Active;
    let text = line.text;
    assert(line.words_fit()) by {
        assert forall|i: int| 0 <= i < line.words.len() implies (
        #[trigger] line.words[i]).lies_in(text) by {}
    }
    if line.words.len() > 0 {
        offset_within(text, line.words[0].from);
    }
    fragments_cover_from(line, line_end, active, 0, 0, None);
    offset_of_grows(text, 0, text.len() as int);
    index_of_offset(text, text.len() as int);
    assert(slice_at(text, 0, byte_len(text) as int) =~= text);
    text_of_fragment(text, None, None);
}

fn push_fragment(
    fragments: &mut Vec<LyricFragment>,
    text: Vec<char>,
    ruby: Option<String>,
    timing: Option<(Duration, Duration)>,
)
    ensures
        fragment_views(final(fragments)@) == fragment_views(old(fragments)@) + fragment(
            text@,
            text_of(ruby),
            times_of(timing),
        ),
{
    let ghost before = fragments@;
    if text.len() > 0 {
        let piece = LyricFragment { text: from_chars(text.as_slice()), ruby, timing };
        fragments.push(piece);
        assert(fragment_views(fragments@) =~= fragment_views(before) + seq![piece@]);
    } else {
        assert(fragment_views(before) + Seq::<Fragment>::empty() =~= fragment_views(before));
    }
}

fn any_ruby(line: &LyricLine) -> (result: bool)
    ensures
        result == has_ruby(line@.words),
{
    let mut i: usize = 0;
    while i < line.words.len()
        invariant
            i <= line.words@.len(),
            forall|j: int| 0 <= j < i ==> (#[trigger] line@.words[j]).ruby is None,
        decreases line.words.len() - i,
    {
        assert(line@.words[i as int] == line.words@[i as int]@);
        if line.words[i].ruby.is_some() {
            return true;
        }
        i += 1;
    }
    false
}

/// Cuts a line into the fragments that are drawn one by one.
pub fn prepare_fragments(line: &LyricLine, line_end: Duration, style: LyricLayoutStyle) -> (result:
    Vec<LyricFragment>)
    requires
        line@.words_fit(),
    ensures
        fragment_views(result@) == line_fragments(line@, line_end@, style),
{
    let active = style == LyricLayoutStyle::Active;
    let mut fragments: Vec<LyricFragment> = Vec::new();
    assert(fragment_views(fragments@) =~= Seq::empty());
    let length: usize = utf8_len(line.text.as_str());
    if !((active && line.words.len() > 0) || any_ruby(line)) {
        let chars = crate::text::to_chars(line.text.as_str());
        push_fragment(&mut fragments, chars, None, None);
        assert(fragment_views(fragments@) =~= fragment(line@.text, None, None));
        return fragments;
    }
    let ghost all = fragments_from(line@, line_end@, active, 0, 0, None);
    let mut cursor: usize = 0;
    let mut previous: Option<(Duration, Duration)> = None;
    let mut i: usize = 0;
    assert(fragment_views(fragments@) + all =~= all);
    while i < line.words.len()
        invariant
            i <= line.words@.len(),
            line@.words_fit(),
            fragment_views(fragments@) + fragments_from(
                line@,
                line_end@,
                active,
                i as int,
                cursor as int,
                times_of(previous),
            ) == all,
        decreases line.words.len() - i,
    {
        let word = &line.words[i];
        assert(line@.words[i as int] == word@);
        let ghost before = fragment_views(fragments@);
        let timing = (word.start, word.end);
        let ghost between = if cursor < word.range.start {
            fragment(
                slice_at(line@.text, cursor as int, word.range.start as int),
                None,
                only_if(
                    active,
                    stretch_times(
                        times_of(previous),
                        Some((word.start@, word.end@)),
                        line.start@,
                        line_end@,
                    ),
                ),
            )
        } else {
            Seq::empty()
        };
        if cursor < word.range.start {
            let gap = slice_text(line.text.as_str(), cursor, word.range.start);
            let times = adjacent_lyric_timing(previous, Some(timing), line.start, line_end);
            push_fragment(
                &mut fragments,
                gap,
                None,
                if active {
                    Some(times)
                } else {
                    None
                },
            );
        }
        assert(fragment_views(fragments@) =~= before + between);
        let text = slice_text(line.text.as_str(), word.range.start, word.range.end);
        push_fragment(
            &mut fragments,
            text,
            copy_text(&word.ruby),
            if active {
                Some(timing)
            } else {
                None
            },
        );
        cursor = word.range.end;
        previous = Some(timing);
        proof {
            let own = fragment(
                line@.word_text(i as int),
                word@.ruby,
                only_if(active, (word@.start, word@.end)),
            );
            let rest = fragments_from(
                line@,
                line_end@,
                active,
                i + 1,
                cursor as int,
                times_of(previous),
            );
            assert(fragment_views(fragments@) =~= before + between + own);
            assert(before + between + own + rest =~= before + (between + own + rest));
        }
        i += 1;
    }
    let ghost before = fragment_views(fragments@);
    if cursor < length {
        let tail = slice_text(line.text.as_str(), cursor, length);
        let times = adjacent_lyric_timing(previous, None, line.start, line_end);
        push_fragment(
            &mut fragments,
            tail,
            None,
            if active {
                Some(times)
            } else {
                None
            },
        );
    } else {
        assert(before + Seq::<Fragment>::empty() =~= before);
    }
    fragments
}

/// Where the song stands in a row of fragments.
#[derive(Clone, Copy, Debug, PartialEq, Eq, Structural)]
pub enum Playhead {
    /// At the start of a fragment that is still to come.
    Before(usize),
    Inside(usize),
    /// At the end of the last fragment that was sung.
    After(usize),
}

pub open spec fn behind(last: Option<usize>) -> Option<Playhead> {
    match last {
        Some(i) => Some(Playhead::After(i)),
        None => None,
    }
}

/// Where the song stands at `position`, from the fragment at `i` on, where `last` is
/// the last timed fragment in front of it.
pub open spec fn playhead_from(
    fragments: Seq<Fragment>,
    position: nat,
    i: int,
    last: Option<usize>,
) -> Option<Playhead>
    decreases fragments.len() - i,
{
    if i < 0 || i >= fragments.len() {
        behind(last)
    } else {
        match fragments[i].timing {
            None => playhead_from(fragments, position, i + 1, last),
            Some((start, end)) => if position < start {
                match last {
                    Some(k) => Some(Playhead::After(k)),
                    None => Some(Playhead::Before(i as usize)),
                }
            } else if position < end {
                Some(Playhead::Inside(i as usize))
            } else {
                playhead_from(fragments, position, i + 1, Some(i as usize))
            },
        }
    }
}

/// Finds where the song stands in a row of fragments.
pub fn timed_playhead(fragments: &Vec<LyricFragment>, position: Duration) -> (playhead: Option<
    Playhead,
>)
    ensures
        playhead == playhead_from(fragment_views(fragments@), position@, 0, None),
{
    let ghost views = fragment_views(fragments@);
    let mut last: Option<usize> = None;
    let mut i: usize = 0;
    while i < fragments.len()
        invariant
            i <= fragments@.len(),
            views == fragment_views(fragments@),
            playhead_from(views, position@, 0, None) == playhead_from(
                views,
                position@,
                i as int,
                last,
            ),
        decreases fragments.len() - i,
    {
        assert(views[i as int] == fragments@[i as int]@);
        if let Some((start, end)) = fragments[i].timing {
            if position.is_below(start) {
                return match last {
                    Some(k) => Some(Playhead::After(k)),
                    None => Some(Playhead::Before(i)),
                };
            }
            if position.is_below(end) {
                return Some(Playhead::Inside(i));
            }
            last = Some(i);
        }
        i += 1;
    }
    match last {
        Some(k) => Some(Playhead::After(k)),
        None => None,
    }
}

/// What prepared lines were made for: they serve as long as all of it stays the same.
#[derive(Debug)]
pub struct LyricLayoutCacheSource {
    /// Tells one set of lyrics from another.
    pub lyrics: usize,
    pub mid: String,
    pub compact: bool,
    pub narrow: bool,
    pub font: String,
}

impl LyricLayoutCacheSource {
    pub open spec fn same(self, other: Self) -> bool {
        self.lyrics == other.lyrics && self.mid@ == other.mid@ && self.compact == other.compact
            && self.narrow == other.narrow && self.font@ == other.font@
    }

    pub fn matches(&self, other: &Self) -> (result: bool)
        ensures
            result == self.same(*other),
    {
        self.lyrics == other.lyrics && self.mid.eq(&other.mid) && self.compact == other.compact
            && self.narrow == other.narrow && self.font.eq(&other.font)
    }
}

/// What was prepared for a line, in either style, and for its translation.
#[derive(Debug)]
pub struct CachedLyricRow<L, T> {
    pub normal: Option<Arc<L>>,
    pub active: Option<Arc<L>>,
    pub translation: Option<Arc<T>>,
    /// The translation was looked at, whether there is one or not.
    pub translation_prepared: bool,
}

impl<L, T> CachedLyricRow<L, T> {
    pub open spec fn empty() -> Self {
        CachedLyricRow {
            normal: None,
            active: None,
            translation: None,
            translation_prepared: false,
        }
    }

    pub open spec fn line(self, style: LyricLayoutStyle) -> Option<Arc<L>> {
        match style {
            LyricLayoutStyle::Normal => self.normal,
            LyricLayoutStyle::Active => self.active,
        }
    }

    pub open spec fn with_line(self, style: LyricLayoutStyle, line: Arc<L>) -> Self {
        match style {
            LyricLayoutStyle::Normal => CachedLyricRow { normal: Some(line), ..self },
            LyricLayoutStyle::Active => CachedLyricRow { active: Some(line), ..self },
        }
    }
}

/// The lines that were prepared for drawing.
#[derive(Debug)]
pub struct LyricLayoutCache<L, T> {
    pub source: Option<LyricLayoutCacheSource>,
    pub rows: Vec<CachedLyricRow<L, T>>,
}

impl<L, T> LyricLayoutCache<L, T> {
    pub fn new() -> (cache: Self)
        ensures
            cache.source is None,
            cache.rows@.len() == 0,
    {
        LyricLayoutCache { source: None, rows: Vec::new() }
    }

    /// What is prepared serves for `source`.
    pub open spec fn serves(self, source: LyricLayoutCacheSource) -> bool {
        match self.source {
            Some(prepared) => prepared.same(source),
            None => false,
        }
    }

    /// Forgets what was prepared, unless it was prepared for the same lyrics in the
    /// same form.
    pub fn reset_if_needed(&mut self, source: LyricLayoutCacheSource, line_count: usize)
        ensures
            final(self).serves(source),
            old(self).serves(source) ==> *final(self) == *old(self),
            !old(self).serves(source) ==> final(self).rows@ == Seq::new(
                line_count as nat,
                |i: int| CachedLyricRow::<L, T>::empty(),
            ),
    {
        let matches: bool = match &self.source {
            Some(prepared) => prepared.matches(&source),
            None => false,
        };
        if matches {
            return;
        }
        self.source = Some(source);
        let mut rows: Vec<CachedLyricRow<L, T>> = Vec::new();
        while rows.len() < line_count
            invariant
                rows@.len() <= line_count,
                rows@ == Seq::new(rows@.len(), |i: int| CachedLyricRow::<L, T>::empty()),
            decreases line_count - rows.len(),
        {
            rows.push(
                CachedLyricRow {
                    normal: None,
                    active: None,
                    translation: None,
                    translation_prepared: false,
                },
            );
        }
        self.rows = rows;
    }

    /// A line in a style; it is prepared when it is asked for first.
    pub fn line<F: FnOnce() -> L>(&mut self, index: usize, style: LyricLayoutStyle, prepare: F) -> (line:
        Arc<L>)
        requires
            index < old(self).rows@.len(),
            prepare.requires(()),
        ensures
            match old(self).rows@[index as int].line(style) {
                Some(prepared) => line == prepared && *final(self) == *old(self),
                None => {
                    &&& prepare.ensures((), *line)
                    &&& final(self).source == old(self).source
                    &&& final(self).rows@ == old(self).rows@.update(
                        index as int,
                        old(self).rows@[index as int].with_line(style, line),
                    )
                },
            },
    {
        let cached: &Option<Arc<L>> = match style {
            LyricLayoutStyle::Normal => &self.rows[index].normal,
            LyricLayoutStyle::Active => &self.rows[index].active,
        };
        if let Some(line) = cached {
            return share(line);
        }
        let line = Arc::new(prepare());
        match style {
            LyricLayoutStyle::Normal => {
                self.rows[index].normal = Some(share(&line));
            },
            LyricLayoutStyle::Active => {
                self.rows[index].active = Some(share(&line));
            },
        }
        line
    }

    /// The translation of a line; it is prepared when it is asked for first.
    pub fn translation<F: FnOnce() -> Option<T>>(&mut self, index: usize, prepare: F) -> (translation:
        Option<Arc<T>>)
        requires
            index < old(self).rows@.len(),
            prepare.requires(()),
        ensures
            ({
                let row = old(self).rows@[index as int];
                if row.translation_prepared {
                    translation == row.translation && *final(self) == *old(self)
                } else {
                    &&& match translation {
                        Some(prepared) => prepare.ensures((), Some(*prepared)),
                        None => prepare.ensures((), None),
                    }
                    &&& final(self).source == old(self).source
                    &&& final(self).rows@ == old(self).rows@.update(
                        index as int,
                        CachedLyricRow { translation, translation_prepared: true, ..row },
                    )
                }
            }),
    {
        if !self.rows[index].translation_prepared {
            let translation: Option<Arc<T>> = match prepare() {
                Some(translation) => Some(Arc::new(translation)),
                None => None,
            };
            self.rows[index].translation = translation;
            self.rows[index].translation_prepared = true;
        }
        match &self.rows[index].translation {
            Some(translation) => Some(share(translation)),
            None => None,
        }
    }
}

/// The times of what stands in front of the word at `w`, or behind the last word: from
/// the end of the word before, or the start of the line, to the start of the word, or the
/// end of the line, but never back.
pub open spec fn gap_times(line: Line, line_end: nat, w: int) -> (nat, nat) {
    let start = if 0 < w <= line.words.len() {
        line.words[w - 1].end
    } else {
        line.start
    };
    let end = if 0 <= w < line.words.len() {
        line.words[w].start
    } else {
        line_end
    };
    (
        start,
        if end < start {
            start
        } else {
            end
        },
    )
}

/// The fragment is the word at `w`.
pub open spec fn is_word(fragment: Fragment, line: Line, active: bool, w: int) -> bool {
    &&& 0 <= w < line.words.len()
    &&& fragment.text == line.word_text(w) && fragment.ruby == line.words[w].ruby
    &&& active ==> fragment.timing == Some((line.words[w].start, line.words[w].end))
    &&& !active ==> fragment.timing is None
}

/// The fragment stands in front of the word at `w`, or behind the last word.
pub open spec fn is_gap(fragment: Fragment, line: Line, line_end: nat, active: bool, w: int) -> bool {
    &&& 0 <= w <= line.words.len()
    &&& fragment.text == slice_at(
        line.text,
        if w > 0 {
            line.words[w - 1].to
        } else {
            0
        },
        if w < line.words.len() {
            line.words[w].from
        } else {
            byte_len(line.text) as int
        },
    )
    &&& fragment.ruby is None
    &&& active ==> fragment.timing == Some(gap_times(line, line_end, w))
    &&& !active ==> fragment.timing is None
}

/// The fragment is the word at `w` or stands in front of it.
pub open spec fn is_part(fragment: Fragment, line: Line, line_end: nat, active: bool, w: int) -> bool {
    is_word(fragment, line, active, w) || is_gap(fragment, line, line_end, active, w)
}

proof fn fragments_are_words_and_gaps(
    line: Line,
    line_end: nat,
    active: bool,
    i: int,
    cursor: int,
    previous: Option<(nat, nat)>,
    k: int,
)
    requires
        0 <= i <= line.words.len(),
        i == 0 ==> previous is None,
        i > 0 ==> previous == Some((line.words[i - 1].start, line.words[i - 1].end)),
        cursor == (if i > 0 {
            line.words[i - 1].to
        } else {
            0
        }),
        0 <= k < fragments_from(line, line_end, active, i, cursor, previous).len(),
    ensures
        ({
            let fragment = fragments_from(line, line_end, active, i, cursor, previous)[k];
            exists|w: int| #[trigger] is_part(fragment, line, line_end, active, w)
        }),
    decreases line.words.len() - i,
{
    let all = fragments_from(line, line_end, active, i, cursor, previous);
    if i < line.words.len() {
        let word = line.words[i];
        let times = (word.start, word.end);
        let between = if cursor < word.from {
            fragment(
                slice_at(line.text, cursor, word.from),
                None,
                only_if(active, stretch_times(previous, Some(times), line.start, line_end)),
            )
        } else {
            Seq::empty()
        };
        let here = fragment(line.word_text(i), word.ruby, only_if(active, times));
        let rest = fragments_from(line, line_end, active, i + 1, word.to, Some(times));
        assert(all == between + here + rest);
        if k < between.len() {
            assert(all[k] == between[k]);
            assert(is_part(all[k], line, line_end, active, i));
        } else if k < between.len() + here.len() {
            assert(all[k] == here[k - between.len()]);
            assert(is_part(all[k], line, line_end, active, i));
        } else {
            let at = k - between.len() - here.len();
            assert(all[k] == rest[at]);
            fragments_are_words_and_gaps(
                line,
                line_end,
                active,
                i + 1,
                word.to,
                Some(times),
                at,
            );
        }
    } else {
        assert(is_part(all[k], line, line_end, active, i));
    }
}

proof fn words_become_fragments(
    line: Line,
    line_end: nat,
    active: bool,
    i: int,
    cursor: int,
    previous: Option<(nat, nat)>,
    w: int,
)
    requires
        0 <= i <= w < line.words.len(),
        line.word_text(w).len() > 0,
    ensures
        ({
            let all = fragments_from(line, line_end, active, i, cursor, previous);
            exists|k: int| 0 <= k < all.len() && is_word(#[trigger] all[k], line, active, w)
        }),
    decreases line.words.len() - i,
{
    let all = fragments_from(line, line_end, active, i, cursor, previous);
    let word = line.words[i];
    let times = (word.start, word.end);
    let between = if cursor < word.from {
        fragment(
            slice_at(line.text, cursor, word.from),
            None,
            only_if(active, stretch_times(previous, Some(times), line.start, line_end)),
        )
    } else {
        Seq::empty()
    };
    let here = fragment(line.word_text(i), word.ruby, only_if(active, times));
    let rest = fragments_from(line, line_end, active, i + 1, word.to, Some(times));
    assert(all == between + here + rest);
    if w == i {
        assert(all[between.len() as int] == here[0]);
        assert(is_word(all[between.len() as int], line, active, w));
    } else {
        words_become_fragments(line, line_end, active, i + 1, word.to, Some(times), w);
        let k = choose|k: int| 0 <= k < rest.len() && is_word(#[trigger] rest[k], line, active, w);
        assert(all[between.len() + here.len() + k] == rest[k]);
    }
}

/// The line is drawn word by word: it is the one that is sung, or has readings.
pub open spec fn cut_at_words(line: Line, style: LyricLayoutStyle) -> bool {
    (style == LyricLayoutStyle::Active && line.words.len() > 0) || exists|i: int|
        0 <= i < line.words.len() && (#[trigger] line.words[i]).ruby is Some
}

/// The line that is sung, and any line with readings, is cut at its words: each fragment
/// is a word with its reading, or stands between words and has none, and in the line that
/// is sung each has its time. Any other line is one fragment.
pub proof fn lines_are_cut_at_their_words(
    line: Line,
    line_end: nat,
    style: LyricLayoutStyle,
    k: int,
)
    requires
        0 <= k < line_fragments(line, line_end, style).len(),
    ensures
        ({
            let all = line_fragments(line, line_end, style);
            let active = style == LyricLayoutStyle::Active;
            &&& cut_at_words(line, style) ==> exists|w: int| #[trigger]
                is_part(all[k], line, line_end, active, w)
            &&& !cut_at_words(line, style) ==> all.len() == 1 && all[0].text == line.text
                && all[0].ruby is None && all[0].timing is None
        }),
{
    if cut_at_words(line, style) {
        assert(has_ruby(line.words) || style == LyricLayoutStyle::Active);
        let active = style == LyricLayoutStyle::Active;
        fragments_are_words_and_gaps(line, line_end, active, 0, 0, None, k);
    }
}

/// Every word of a line that is cut at its words is a fragment of it.
pub proof fn every_word_is_a_fragment(line: Line, line_end: nat, style: LyricLayoutStyle, w: int)
    requires
        0 <= w < line.words.len(),
        line.word_text(w).len() > 0,
        cut_at_words(line, style),
    ensures
        ({
            let all = line_fragments(line, line_end, style);
            let active = style == LyricLayoutStyle::Active;
            exists|k: int| 0 <= k < all.len() && is_word(#[trigger] all[k], line, active, w)
        }),
{
    let active = style == LyricLayoutStyle::Active;
    assert(has_ruby(line.words) || active);
    words_become_fragments(line, line_end, active, 0, 0, None, w);
    let all = line_fragments(line, line_end, style);
    let parts = fragments_from(line, line_end, active, 0, 0, None);
    assert(all == parts);
    let k = choose|k: int| 0 <= k < parts.len() && is_word(#[trigger] parts[k], line, active, w);
    assert(is_word(all[k], line, active, w));
}

/// The fragment at `k` was sung before `position`.
pub open spec fn is_over(fragments: Seq<Fragment>, position: nat, k: int) -> bool {
    fragments[k].timing matches Some((start, end)) ==> start <= position && end <= position
}

/// The playhead is where the description says.
pub open spec fn stands_at(
    fragments: Seq<Fragment>,
    position: nat,
    playhead: Option<Playhead>,
) -> bool {
    match playhead {
        None => forall|j: int| 0 <= j < fragments.len() ==> (#[trigger] fragments[j]).timing is None,
        Some(Playhead::Inside(i)) => {
            &&& i < fragments.len() && fragments[i as int].timing is Some
            &&& fragments[i as int].timing.unwrap().0 <= position
                < fragments[i as int].timing.unwrap().1
            &&& forall|j: int| 0 <= j < i ==> #[trigger] is_over(fragments, position, j)
        },
        Some(Playhead::Before(i)) => {
            &&& i < fragments.len() && fragments[i as int].timing is Some
            &&& position < fragments[i as int].timing.unwrap().0
            &&& forall|j: int| 0 <= j < i ==> (#[trigger] fragments[j]).timing is None
        },
        Some(Playhead::After(k)) => {
            &&& k < fragments.len() && fragments[k as int].timing is Some
            &&& forall|j: int| 0 <= j <= k ==> #[trigger] is_over(fragments, position, j)
            &&& (forall|j: int| k < j < fragments.len() ==> (#[trigger] fragments[j]).timing is None)
                || exists|n: int|
                k < n < fragments.len() && (#[trigger] fragments[n]).timing is Some && position
                    < fragments[n].timing.unwrap().0 && forall|j: int|
                    k < j < n ==> (#[trigger] fragments[j]).timing is None
        },
    }
}

proof fn playhead_stands(
    fragments: Seq<Fragment>,
    position: nat,
    i: int,
    last: Option<usize>,
)
    requires
        0 <= i <= fragments.len() <= usize::MAX,
        forall|j: int| 0 <= j < i ==> #[trigger] is_over(fragments, position, j),
        match last {
            None => forall|j: int| 0 <= j < i ==> (#[trigger] fragments[j]).timing is None,
            Some(k) => k < i && fragments[k as int].timing is Some && forall|j: int|
                k < j < i ==> (#[trigger] fragments[j]).timing is None,
        },
    ensures
        stands_at(fragments, position, playhead_from(fragments, position, i, last)),
    decreases fragments.len() - i,
{
    if i < fragments.len() {
        match fragments[i].timing {
            None => {
                assert(is_over(fragments, position, i));
                playhead_stands(fragments, position, i + 1, last);
            },
            Some((start, end)) => {
                if start <= position && end <= position {
                    assert(is_over(fragments, position, i));
                    playhead_stands(fragments, position, i + 1, Some(i as usize));
                }
            },
        }
    }
}

/// The song stands inside the fragment that is sung; before the first in front of it; in
/// a pause, and at the end, behind the last that was sung; and nowhere where nothing has a
/// time.
pub proof fn playhead_follows_the_song(fragments: Seq<Fragment>, position: nat)
    requires
        fragments.len() <= usize::MAX,
    ensures
        stands_at(fragments, position, playhead_from(fragments, position, 0, None)),
{
    playhead_stands(fragments, position, 0, None);
}

/// The line that is sung is set larger than the others, and all smaller in a smaller
/// window.
pub proof fn the_sung_line_is_larger(compact: bool, narrow: bool)
    ensures
        ({
            let active = metrics(LyricLayoutStyle::Active, compact, narrow);
            let normal = metrics(LyricLayoutStyle::Normal, compact, narrow);
            &&& active.font_size == (if compact {
                24u32
            } else {
                28u32
            })
            &&& normal.font_size == (if compact {
                17u32
            } else {
                19u32
            })
            &&& active.ruby_font_size == normal.ruby_font_size && active.ruby_line_height
                == normal.ruby_line_height
            &&& narrow ==> active.ruby_font_size == 11 && active.ruby_line_height == 13
                && active.translation_font_size == 13 && active.translation_line_height == 18
            &&& !narrow ==> active.ruby_font_size == 12 && active.ruby_line_height == 15
                && active.translation_font_size == 14 && active.translation_line_height == 20
            &&& active.translation_font_size == normal.translation_font_size
                && active.translation_line_height == normal.translation_line_height
        }),
{
}

/// What was prepared serves for the same lyrics of the same track in the same layout and
/// font alone.
pub proof fn prepared_lines_serve_their_own_source(a: LyricLayoutCacheSource, b: LyricLayoutCacheSource)
    ensures
        a.same(b) <==> a.lyrics == b.lyrics && a.mid@ == b.mid@ && a.compact == b.compact
            && a.narrow == b.narrow && a.font@ == b.font@,
{
}

/// A line that was prepared in a style is found in that style, and in no other.
pub proof fn prepared_lines_are_found_in_their_style<L, T>(
    row: CachedLyricRow<L, T>,
    style: LyricLayoutStyle,
    other: LyricLayoutStyle,
    line: Arc<L>,
)
    ensures
        row.with_line(style, line).line(style) == Some(line),
        other != style ==> row.with_line(style, line).line(other) == row.line(other),
        row.with_line(style, line).translation == row.translation && row.with_line(
            style,
            line,
        ).translation_prepared == row.translation_prepared,
{
}

/// Nothing serves where nothing was prepared.
pub proof fn an_empty_cache_serves_nothing<L, T>(
    cache: LyricLayoutCache<L, T>,
    source: LyricLayoutCacheSource,
)
    ensures
        cache.source is None ==> !cache.serves(source),
        cache.source matches Some(prepared) ==> (cache.serves(source) <==> prepared.same(source)),
{
}

} // verus!
