//! From what providers send to the lyrics of a song.

use crate::lyrics::align::{
    align_lyric_lines, alignment, alignment_keeps_order, attach_translations, index_views,
    match_for, matches_from, with_translations,
};
use crate::lyrics::line::{all_wf, in_order, line_views, ordered_lines, Line, LyricLine};
use crate::lyrics::lrc::{lrc, lrc_lines, lrc_wf, parse_lrc};
use crate::lyrics::qrc::{parse_qrc, qrc, qrc_lines, qrc_wf};
use crate::lyrics::relaxed::{extract_qrc_content, provider_content};
use crate::lyrics::ruby::{attach_ruby, with_ruby};
use crate::scan::text_lines;
use crate::text::to_chars;
use crate::time::Duration;
use vstd::prelude::*;

verus! {

/// The lyrics of a song, its lines in the order in which they start.
#[derive(Debug)]
pub struct ParsedLyrics {
    pub lines: Vec<LyricLine>,
}

impl View for ParsedLyrics {
    type V = Seq<Line>;

    open spec fn view(&self) -> Seq<Line> {
        line_views(self.lines@)
    }
}

impl ParsedLyrics {
    pub open spec fn wf(self) -> bool {
        in_order(self@)
    }

    /// The line that is sung at `position`: the last one that has started.
    pub fn active_index(&self, position: Duration) -> (index: Option<usize>)
        requires
            self.wf(),
        ensures
            match index {
                Some(i) => i < self@.len() && self@[i as int].start <= position@ && (i + 1
                    < self@.len() ==> self@[i + 1].start > position@),
                None => self@.len() > 0 ==> self@[0].start > position@,
            },
    {
        let mut low: usize = 0;
        let mut high: usize = self.lines.len();
        while low < high
            invariant
                self.wf(),
                low <= high <= self.lines@.len(),
                low > 0 ==> self@[low - 1].start <= position@,
                high < self@.len() ==> self@[high as int].start > position@,
            decreases high - low,
        {
            let middle: usize = low + (high - low) / 2;
            assert(self@[middle as int] == self.lines@[middle as int]@);
            if self.lines[middle].start.is_at_most(position) {
                low = middle + 1;
            } else {
                high = middle;
            }
        }
        if low == 0 {
            None
        } else {
            Some(low - 1)
        }
    }
}

/// The line at the position's index is sung then, and it alone: any two indices that
/// meet the description of the active line are the same.
pub proof fn active_line_is_unique(lines: Seq<Line>, position: nat, i: int, j: int)
    requires
        in_order(lines),
        0 <= i < lines.len(),
        0 <= j < lines.len(),
        lines[i].start <= position,
        i + 1 < lines.len() ==> lines[i + 1].start > position,
        lines[j].start <= position,
        j + 1 < lines.len() ==> lines[j + 1].start > position,
    ensures
        i == j,
{
    if i < j {
        assert(i + 1 == j || lines[i + 1].start <= lines[j].start);
    } else if j < i {
        assert(j + 1 == i || lines[j + 1].start <= lines[i].start);
    }
}

/// The lines in what a provider sent: with word times where it has some, and else
/// with line times.
pub open spec fn timed(raw: Seq<char>) -> Seq<Line> {
    timed_content(provider_content(raw), raw)
}

/// The lines in the content that was found in `raw`.
pub open spec fn timed_content(content: Option<Seq<char>>, raw: Seq<char>) -> Seq<Line> {
    match content {
        None => lrc(raw),
        Some(content) => if qrc(content).len() == 0 {
            lrc(content)
        } else {
            qrc(content)
        },
    }
}

proof fn timed_content_wf(content: Option<Seq<char>>, raw: Seq<char>)
    ensures
        all_wf(timed_content(content, raw)),
        in_order(timed_content(content, raw)),
{
    lrc_wf(raw);
    ordered_lines(lrc_lines(text_lines(raw)));
    if let Some(content) = content {
        lrc_wf(content);
        ordered_lines(lrc_lines(text_lines(content)));
        qrc_wf(content);
        ordered_lines(qrc_lines(text_lines(content)));
    }
}

/// Reads the lines of the content that was found in `raw`.
pub fn parse_content(content: Option<String>, raw: &str) -> (lines: Vec<LyricLine>)
    ensures
        line_views(lines@) == timed_content(crate::lyrics::line::text_of(content), raw@),
        all_wf(line_views(lines@)),
        in_order(line_views(lines@)),
{
    proof {
        timed_content_wf(crate::lyrics::line::text_of(content), raw@);
    }
    match content {
        None => parse_lrc(raw),
        Some(content) => {
            let lines = parse_qrc(content.as_str());
            if lines.len() == 0 {
                parse_lrc(content.as_str())
            } else {
                lines
            }
        },
    }
}

pub fn parse_timed_lyrics(raw: &str) -> (lines: Vec<LyricLine>)
    ensures
        line_views(lines@) == timed(raw@),
        all_wf(line_views(lines@)),
        in_order(line_views(lines@)),
{
    parse_content(extract_qrc_content(raw), raw)
}

pub open spec fn kana(c: char) -> bool {
    0x3040 <= c as u32 <= 0x30ff
}

pub open spec fn line_has_kana(line: Line) -> bool {
    exists|i: int| 0 <= i < line.text.len() && kana(#[trigger] line.text[i])
}

/// A song is Japanese where some line holds kana.
pub open spec fn japanese(lines: Seq<Line>) -> bool {
    exists|i: int| 0 <= i < lines.len() && line_has_kana(#[trigger] lines[i])
}

fn text_has_kana(line: &LyricLine) -> (result: bool)
    ensures
        result == line_has_kana(line@),
{
    let chars = to_chars(line.text.as_str());
    let mut i: usize = 0;
    while i < chars.len()
        invariant
            i <= chars@.len(),
            chars@ == line@.text,
            forall|j: int| 0 <= j < i ==> !kana(#[trigger] chars@[j]),
        decreases chars.len() - i,
    {
        let v: u32 = chars[i] as u32;
        if 0x3040 <= v && v <= 0x30ff {
            assert(kana(line@.text[i as int]));
            return true;
        }
        i += 1;
    }
    false
}

fn is_japanese(lines: &Vec<LyricLine>) -> (result: bool)
    ensures
        result == japanese(line_views(lines@)),
{
    let ghost views = line_views(lines@);
    let mut i: usize = 0;
    while i < lines.len()
        invariant
            i <= lines@.len(),
            views == line_views(lines@),
            forall|j: int| 0 <= j < i ==> !line_has_kana(#[trigger] views[j]),
        decreases lines.len() - i,
    {
        assert(views[i as int] == lines@[i as int]@);
        if text_has_kana(&lines[i]) {
            return true;
        }
        i += 1;
    }
    false
}

/// The lines, each with the readings that its match gives.
pub open spec fn with_readings(lines: Seq<Line>, romanized: Seq<Line>) -> Seq<Line> {
    let matches = alignment(lines, romanized);
    Seq::new(
        lines.len(),
        |i: int|
            match matches[i] {
                Some(k) => with_ruby(lines[i], romanized[k]),
                None => lines[i],
            },
    )
}

proof fn wf_words_fit(lines: Seq<Line>)
    requires
        all_wf(lines),
    ensures
        forall|i: int| 0 <= i < lines.len() ==> (#[trigger] lines[i]).words_fit(),
{
    assert forall|i: int| 0 <= i < lines.len() implies (#[trigger] lines[i]).words_fit() by {
        assert(lines[i].wf());
        assert forall|j: int| 0 <= j < lines[i].words.len() implies (
        #[trigger] lines[i].words[j]).lies_in(lines[i].text) by {}
    }
}

/// Gives each line the readings of its match.
pub fn attach_readings(lines: &mut Vec<LyricLine>, romanized: &Vec<LyricLine>)
    requires
        forall|i: int|
            0 <= i < old(lines)@.len() ==> (#[trigger] old(lines)@[i])@.words_fit(),
        forall|i: int| 0 <= i < romanized@.len() ==> (#[trigger] romanized@[i])@.words_fit(),
    ensures
        line_views(final(lines)@) == with_readings(
            line_views(old(lines)@),
            line_views(romanized@),
        ),
{
    let ghost before = line_views(lines@);
    let ghost others = line_views(romanized@);
    let ghost after = with_readings(before, others);
    let matches = align_lyric_lines(lines, romanized);
    proof {
        alignment_keeps_order(before, others);
        assert(index_views(matches@).len() == matches@.len());
    }
    let mut i: usize = 0;
    while i < lines.len()
        invariant
            i <= lines@.len(),
            lines@.len() == before.len(),
            matches@.len() == before.len(),
            others == line_views(romanized@),
            after == with_readings(before, others),
            index_views(matches@) == alignment(before, others),
            forall|j: int|
                0 <= j < before.len() ==> match #[trigger] alignment(before, others)[j] {
                    Some(k) => 0 <= k < others.len(),
                    None => true,
                },
            forall|j: int| 0 <= j < before.len() ==> (#[trigger] before[j]).words_fit(),
            forall|j: int| 0 <= j < romanized@.len() ==> (#[trigger] romanized@[j])@.words_fit(),
            forall|j: int| 0 <= j < i ==> (#[trigger] lines@[j])@ == after[j],
            forall|j: int| i <= j < lines@.len() ==> (#[trigger] lines@[j])@ == before[j],
        decreases lines.len() - i,
    {
        let ghost current = lines@;
        assert(index_views(matches@)[i as int] == alignment(before, others)[i as int]);
        if let Some(k) = matches[i] {
            assert(alignment(before, others)[i as int] == Some(k as int));
            assert(others[k as int] == romanized@[k as int]@);
            assert(current[i as int]@ == before[i as int]);
            let mut line = lines[i].clone();
            attach_ruby(&mut line, &romanized[k]);
            lines.set(i, line);
        }
        assert(lines@[i as int]@ == after[i as int]);
        assert(forall|j: int| 0 <= j < lines@.len() && j != i ==> lines@[j] == current[j]);
        i += 1;
    }
    assert(line_views(lines@) =~= after);
}

/// A song's lines with their translations and, for a Japanese song, with readings.
/// Where the song has no lines of its own the translation takes their place.
pub open spec fn merged(
    original: Seq<Line>,
    translated: Seq<Line>,
    romanized: Seq<Line>,
) -> Seq<Line> {
    if original.len() == 0 {
        translated
    } else {
        let lines = with_translations(original, translated);
        if japanese(original) {
            with_readings(lines, romanized)
        } else {
            lines
        }
    }
}

/// Merging keeps what each line says and when: it adds translations and readings only.
pub proof fn merging_keeps_lines(
    original: Seq<Line>,
    translated: Seq<Line>,
    romanized: Seq<Line>,
)
    requires
        original.len() > 0,
    ensures
        merged(original, translated, romanized).len() == original.len(),
        forall|i: int|
            0 <= i < original.len() ==> {
                let line = #[trigger] merged(original, translated, romanized)[i];
                &&& line.start == original[i].start
                &&& line.text == original[i].text
                &&& line.words.len() == original[i].words.len()
                &&& forall|j: int|
                    0 <= j < line.words.len() ==> {
                        let word = #[trigger] line.words[j];
                        &&& word.from == original[i].words[j].from
                        &&& word.to == original[i].words[j].to
                        &&& word.start == original[i].words[j].start
                        &&& word.end == original[i].words[j].end
                    }
            },
{
}

proof fn merged_wf(original: Seq<Line>, translated: Seq<Line>, romanized: Seq<Line>)
    requires
        all_wf(original),
        in_order(original),
        all_wf(translated),
        in_order(translated),
    ensures
        all_wf(merged(original, translated, romanized)),
        in_order(merged(original, translated, romanized)),
{
    if original.len() > 0 {
        let lines = merged(original, translated, romanized);
        merging_keeps_lines(original, translated, romanized);
        assert forall|i: int| 0 <= i < lines.len() implies (#[trigger] lines[i]).wf() by {
            assert(original[i].wf());
            assert forall|j: int| 0 <= j < lines[i].words.len() implies (
            #[trigger] lines[i].words[j]).lies_in(lines[i].text) by {
                assert(original[i].words[j].lies_in(original[i].text));
            }
            assert forall|j: int, k: int| 0 <= j < k < lines[i].words.len() implies (
            #[trigger] lines[i].words[j]).to <= (#[trigger] lines[i].words[k]).from by {
                assert(original[i].words[j].to <= original[i].words[k].from);
            }
        }
        assert forall|i: int, j: int| 0 <= i < j < lines.len() implies (
        #[trigger] lines[i]).start <= (#[trigger] lines[j]).start by {
            assert(original[i].start <= original[j].start);
        }
    }
}

/// Puts the lines of a song, of its translation and of its romanization together.
pub fn merge_lyrics(
    original: Vec<LyricLine>,
    translated: Vec<LyricLine>,
    romanized: Vec<LyricLine>,
) -> (lyrics: ParsedLyrics)
    requires
        all_wf(line_views(original@)),
        in_order(line_views(original@)),
        all_wf(line_views(translated@)),
        in_order(line_views(translated@)),
        all_wf(line_views(romanized@)),
    ensures
        lyrics@ == merged(line_views(original@), line_views(translated@), line_views(romanized@)),
        all_wf(lyrics@),
        lyrics.wf(),
{
    proof {
        merged_wf(line_views(original@), line_views(translated@), line_views(romanized@));
    }
    if original.len() == 0 {
        return ParsedLyrics { lines: translated };
    }
    let japanese_song = is_japanese(&original);
    let mut lines = original;
    let ghost before = line_views(lines@);
    attach_translations(&mut lines, &translated);
    if japanese_song {
        proof {
            let now = line_views(lines@);
            assert(all_wf(now)) by {
                merged_wf(before, line_views(translated@), Seq::empty());
                assert forall|i: int| 0 <= i < now.len() implies (#[trigger] now[i]).wf() by {
                    assert(before[i].wf());
                    assert(now[i].words == before[i].words);
                    assert forall|j: int| 0 <= j < now[i].words.len() implies (
                    #[trigger] now[i].words[j]).lies_in(now[i].text) by {
                        assert(before[i].words[j].lies_in(before[i].text));
                    }
                }
            }
            wf_words_fit(now);
            assert forall|i: int| 0 <= i < lines@.len() implies (
            #[trigger] lines@[i])@.words_fit() by {
                assert(now[i] == lines@[i]@);
            }
            wf_words_fit(line_views(romanized@));
            assert forall|i: int| 0 <= i < romanized@.len() implies (
            #[trigger] romanized@[i])@.words_fit() by {
                assert(line_views(romanized@)[i] == romanized@[i]@);
            }
        }
        attach_readings(&mut lines, &romanized);
    }
    ParsedLyrics { lines }
}

/// The lines of a part that may be missing.
pub open spec fn timed_part(raw: Option<&str>) -> Seq<Line> {
    match raw {
        Some(raw) => timed(raw@),
        None => Seq::empty(),
    }
}

fn parse_part(raw: Option<&str>) -> (lines: Vec<LyricLine>)
    ensures
        line_views(lines@) == timed_part(raw),
        all_wf(line_views(lines@)),
        in_order(line_views(lines@)),
{
    match raw {
        Some(raw) => parse_timed_lyrics(raw),
        None => {
            let lines: Vec<LyricLine> = Vec::new();
            assert(line_views(lines@) =~= Seq::empty());
            lines
        },
    }
}

/// Reads the lyrics of a song with its translation and its romanization.
pub fn parse_lyrics(original: &str, translated: Option<&str>, romanized: Option<&str>) -> (lyrics:
    ParsedLyrics)
    ensures
        lyrics@ == merged(timed(original@), timed_part(translated), timed_part(romanized)),
        all_wf(lyrics@),
        lyrics.wf(),
{
    let original = parse_timed_lyrics(original);
    let translated = parse_part(translated);
    let romanized = parse_part(romanized);
    merge_lyrics(original, translated, romanized)
}

/// Word times are taken where there are any: what was found is read with word times, with
/// line times where that gives nothing, and what was sent is read with line times where
/// nothing was found in it.
pub proof fn word_times_come_first(content: Seq<char>, raw: Seq<char>)
    ensures
        qrc(content).len() > 0 ==> timed_content(Some(content), raw) == qrc(content),
        qrc(content).len() == 0 ==> timed_content(Some(content), raw) == lrc(content),
        timed_content(None, raw) == lrc(raw),
{
}

/// A song with a hiragana or a katakana is Japanese; one of other letters alone is not.
pub proof fn kana_make_a_song_japanese(lines: Seq<Line>)
    ensures
        (exists|i: int, j: int|
            0 <= i < lines.len() && 0 <= j < lines[i].text.len() && '\u{3040}' <= (
            #[trigger] lines[i].text[j]) <= '\u{30ff}') <==> japanese(lines),
{
    if exists|i: int, j: int|
        0 <= i < lines.len() && 0 <= j < lines[i].text.len() && '\u{3040}' <= (
        #[trigger] lines[i].text[j]) <= '\u{30ff}' {
        let (i, j) = choose|i: int, j: int|
            0 <= i < lines.len() && 0 <= j < lines[i].text.len() && '\u{3040}' <= (
            #[trigger] lines[i].text[j]) <= '\u{30ff}';
        assert(kana(lines[i].text[j]));
        assert(line_has_kana(lines[i]));
    }
    if japanese(lines) {
        let i = choose|i: int| 0 <= i < lines.len() && line_has_kana(#[trigger] lines[i]);
        let j = choose|j: int| 0 <= j < lines[i].text.len() && kana(#[trigger] lines[i].text[j]);
        one_kana(lines[i].text[j]);
        assert('\u{3040}' <= lines[i].text[j] <= '\u{30ff}');
    }
}

proof fn one_kana(c: char)
    ensures
        kana(c) <==> '\u{3040}' <= c <= '\u{30ff}',
{
}

/// A song without lines of its own is shown by its translation; any other gets its
/// translations, and readings only where it is Japanese.
pub proof fn readings_are_for_japanese_songs(
    original: Seq<Line>,
    translated: Seq<Line>,
    romanized: Seq<Line>,
    i: int,
)
    requires
        0 <= i < original.len(),
    ensures
        merged(Seq::empty(), translated, romanized) == translated,
        merged(original, translated, romanized).len() == original.len(),
        merged(original, translated, romanized)[i].translation == with_translations(
            original,
            translated,
        )[i].translation,
        !japanese(original) ==> merged(original, translated, romanized)[i].words
            == original[i].words,
        japanese(original) && alignment(original, romanized)[i] is None ==> merged(
            original,
            translated,
            romanized,
        )[i].words == original[i].words,
        japanese(original) && alignment(original, romanized)[i] is Some ==> merged(
            original,
            translated,
            romanized,
        )[i].words == with_ruby(
            original[i],
            romanized[alignment(original, romanized)[i].unwrap()],
        ).words,
{
    let lines = with_translations(original, translated);
    alignment_by_starts(original, lines, romanized);
    if japanese(original) && alignment(original, romanized)[i] is Some {
        let k = alignment(original, romanized)[i].unwrap();
        assert forall|w: int| 0 <= w < original[i].words.len() implies lines[i].word_text(w)
            == original[i].word_text(w) by {}
        assert(with_ruby(lines[i], romanized[k]).words =~= with_ruby(
            original[i],
            romanized[k],
        ).words);
    }
}

/// Matching looks at the starts alone.
proof fn alignment_by_starts(a: Seq<Line>, b: Seq<Line>, auxiliary: Seq<Line>)
    requires
        a.len() == b.len(),
        forall|i: int| 0 <= i < a.len() ==> (#[trigger] a[i]).start == b[i].start,
    ensures
        alignment(a, auxiliary) == alignment(b, auxiliary),
{
    matches_by_starts(a, b, auxiliary, 0);
}

proof fn matches_by_starts(a: Seq<Line>, b: Seq<Line>, auxiliary: Seq<Line>, from: int)
    requires
        a.len() == b.len(),
        forall|i: int| 0 <= i < a.len() ==> (#[trigger] a[i]).start == b[i].start,
    ensures
        matches_from(a, auxiliary, from) == matches_from(b, auxiliary, from),
    decreases a.len(),
{
    if a.len() > 0 {
        assert(a[0].start == b[0].start);
        let rest = a.drop_first();
        assert forall|i: int| 0 <= i < rest.len() implies (#[trigger] rest[i]).start
            == b.drop_first()[i].start by {
            assert(rest[i] == a[i + 1]);
        }
        match match_for(auxiliary, from, a[0].start) {
            Some(k) => matches_by_starts(rest, b.drop_first(), auxiliary, k + 1),
            None => matches_by_starts(rest, b.drop_first(), auxiliary, from),
        }
    }
}

} // verus!
