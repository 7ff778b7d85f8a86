//! Readings above kanji, taken from a romanization that is timed syllable by
//! syllable.

use crate::lyrics::line::{text_of, word_views, Line, LyricLine, LyricWord, Word};
use crate::offset::{is_offset, slice_at, slice_text};
use crate::text::{from_chars, is_whitespace, push_chars, to_chars, whitespace};
use crate::time::{at_least, at_most, Duration};
use vstd::math::{max, min};
use vstd::prelude::*;
use wana_kana::{ConvertJapanese, IsJapaneseStr};

verus! {

/// The ideographs that `wana_kana` counts as kanji.
pub open spec fn kanji(c: char) -> bool {
    0x4e00 <= c as u32 <= 0x9faf
}

/// `IsJapaneseStr::contains_kanji` of `wana_kana`: some character of the text is a
/// kanji.
#[verifier::external_body]
fn contains_kanji(text: &str) -> (result: bool)
    ensures
        result == has_kanji(text@),
{
    text.contains_kanji()
}

/// What `wana_kana` makes of a text by its conversion to hiragana.
pub uninterp spec fn hiragana(text: Seq<char>) -> Seq<char>;

/// `ConvertJapanese::to_hiragana` of `wana_kana`, with its default options.
#[verifier::external_body]
fn to_hiragana(text: &str) -> (result: String)
    ensures
        result@ == hiragana(text@),
{
    text.to_hiragana()
}

pub open spec fn has_kanji(text: Seq<char>) -> bool {
    exists|i: int| 0 <= i < text.len() && kanji(#[trigger] text[i])
}

pub open spec fn hiragana_or_mark(c: char) -> bool {
    0x3040 <= c as u32 <= 0x309f || c as u32 == 0x30fc
}

/// A reading that can stand above a word: hiragana and length marks only, and some.
pub open spec fn ruby_text(text: Seq<char>) -> bool {
    text.len() > 0 && forall|i: int| 0 <= i < text.len() ==> hiragana_or_mark(#[trigger] text[i])
}

/// Whether a reading can stand above a word.
pub fn is_ruby_text(text: &str) -> (result: bool)
    ensures
        result == ruby_text(text@),
{
    let chars = to_chars(text);
    if chars.len() == 0 {
        return false;
    }
    let mut i: usize = 0;
    while i < chars.len()
        invariant
            i <= chars@.len(),
            chars@ == text@,
            forall|j: int| 0 <= j < i ==> hiragana_or_mark(#[trigger] chars@[j]),
        decreases chars.len() - i,
    {
        let v: u32 = chars[i] as u32;
        if !((0x3040 <= v && v <= 0x309f) || v == 0x30fc) {
            return false;
        }
        i += 1;
    }
    true
}

impl Line {
    /// The words cover whole characters of the text.
    pub open spec fn words_fit(self) -> bool {
        forall|i: int|
            0 <= i < self.words.len() ==> (#[trigger] self.words[i]).from <= self.words[i].to
                && is_offset(self.text, self.words[i].from) && is_offset(
                self.text,
                self.words[i].to,
            )
    }

    /// The characters of the line's word at `i`.
    pub open spec fn word_text(self, i: int) -> Seq<char> {
        slice_at(self.text, self.words[i].from, self.words[i].to)
    }
}

/// How long two words are sung together.
pub open spec fn overlap(a: Word, b: Word) -> int {
    at_most(a.end, b.end) - at_least(a.start, b.start)
}

/// The better of two candidates for a syllable: a word that it overlaps, and for how
/// long. The later one wins a tie.
pub open spec fn better(best: Option<(int, int)>, word: int, shared: int) -> Option<(int, int)> {
    if shared <= 0 {
        best
    } else {
        match best {
            Some((_, most)) if most > shared => best,
            _ => Some((word, shared)),
        }
    }
}

/// Which word each syllable belongs to, as pairs of a word and a syllable, from the
/// word at `w` and the syllable at `s` on. Both rows are walked in time: what ends
/// first is left first. A syllable belongs to the word that it overlaps longest;
/// `best` is the best word for the syllable at `s` so far.
pub open spec fn assignments(
    words: Seq<Word>,
    syllables: Seq<Word>,
    w: int,
    s: int,
    best: Option<(int, int)>,
) -> Seq<(int, int)>
    decreases words.len() - w + (syllables.len() - s),
{
    if w < 0 || s < 0 || w >= words.len() || s >= syllables.len() {
        match best {
            Some((word, _)) if 0 <= s < syllables.len() => seq![(word, s)],
            _ => Seq::empty(),
        }
    } else {
        let now = better(best, w, overlap(words[w], syllables[s]));
        let next_word = if words[w].end <= syllables[s].end {
            w + 1
        } else {
            w
        };
        if syllables[s].end <= words[w].end {
            let given = match now {
                Some((word, _)) => seq![(word, s)],
                None => Seq::empty(),
            };
            given + assignments(words, syllables, next_word, s + 1, None)
        } else {
            assignments(words, syllables, next_word, s, now)
        }
    }
}

/// Every assigned syllable overlaps its word in time, and the syllables are assigned
/// in order, each at most once.
pub proof fn assignments_overlap(
    words: Seq<Word>,
    syllables: Seq<Word>,
    w: int,
    s: int,
    best: Option<(int, int)>,
)
    requires
        0 <= w,
        0 <= s,
        best matches Some((word, shared)) ==> 0 <= word < words.len() && s < syllables.len()
            && overlap(words[word], syllables[s]) > 0,
    ensures
        forall|i: int|
            0 <= i < assignments(words, syllables, w, s, best).len() ==> {
                let pair = #[trigger] assignments(words, syllables, w, s, best)[i];
                &&& 0 <= pair.0 < words.len()
                &&& s <= pair.1 < syllables.len()
                &&& overlap(words[pair.0], syllables[pair.1]) > 0
            },
        forall|i: int, j: int|
            0 <= i < j < assignments(words, syllables, w, s, best).len() ==> (
            #[trigger] assignments(words, syllables, w, s, best)[i]).1 < (#[trigger] assignments(
                words,
                syllables,
                w,
                s,
                best,
            )[j]).1,
    decreases words.len() - w + (syllables.len() - s),
{
    if w < words.len() && s < syllables.len() {
        let now = better(best, w, overlap(words[w], syllables[s]));
        let next_word = if words[w].end <= syllables[s].end {
            w + 1
        } else {
            w
        };
        if syllables[s].end <= words[w].end {
            assignments_overlap(words, syllables, next_word, s + 1, None);
            let all = assignments(words, syllables, w, s, best);
            let rest = assignments(words, syllables, next_word, s + 1, None);
            let first = all.len() - rest.len();
            assert forall|i: int| 0 <= i < all.len() implies {
                let pair = #[trigger] all[i];
                &&& 0 <= pair.0 < words.len()
                &&& s <= pair.1 < syllables.len()
                &&& overlap(words[pair.0], syllables[pair.1]) > 0
            } by {
                if i >= first {
                    assert(all[i] == rest[i - first]);
                }
            }
            assert forall|i: int, j: int| 0 <= i < j < all.len() implies (#[trigger] all[i]).1 < (
            #[trigger] all[j]).1 by {
                assert(all[j] == rest[j - first]);
                if i >= first {
                    assert(all[i] == rest[i - first]);
                }
            }
        } else {
            assignments_overlap(words, syllables, next_word, s, now);
            assert(assignments(words, syllables, w, s, best) == assignments(
                words,
                syllables,
                next_word,
                s,
                now,
            ));
        }
    } else {
        let all = assignments(words, syllables, w, s, best);
        assert(all.len() <= 1);
        assert(all.len() == 1 ==> best is Some && all[0] == (best.unwrap().0, s));
    }
}

/// The syllables assigned to a word, joined.
pub open spec fn reading(pairs: Seq<(int, int)>, romanized: Line, word: int) -> Seq<char>
    decreases pairs.len(),
{
    if pairs.len() == 0 {
        Seq::empty()
    } else {
        let before = reading(pairs.drop_last(), romanized, word);
        if pairs.last().0 == word {
            before + romanized.word_text(pairs.last().1)
        } else {
            before
        }
    }
}

pub open spec fn spoken(c: char) -> bool {
    !whitespace(c) && c != '\''
}

/// The ruby of a word with this text and this reading, and `before` where the
/// reading gives none.
pub open spec fn ruby_of(
    text: Seq<char>,
    reading: Seq<char>,
    before: Option<Seq<char>>,
) -> Option<Seq<char>> {
    if has_kanji(text) {
        converted_ruby(hiragana(reading.filter(|c: char| spoken(c))), before)
    } else {
        before
    }
}

/// The ruby that a converted reading gives.
pub open spec fn converted_ruby(converted: Seq<char>, before: Option<Seq<char>>) -> Option<
    Seq<char>,
> {
    if ruby_text(converted) {
        Some(converted)
    } else {
        before
    }
}

/// Takes a converted reading as ruby where it can stand above a word.
pub fn take_ruby(converted: String, before: Option<String>) -> (ruby: Option<String>)
    ensures
        text_of(ruby) == converted_ruby(converted@, text_of(before)),
{
    if is_ruby_text(converted.as_str()) {
        Some(converted)
    } else {
        before
    }
}

/// The line with the ruby that a romanized line gives its words.
pub open spec fn with_ruby(line: Line, romanized: Line) -> Line {
    let pairs = assignments(line.words, romanized.words, 0, 0, None);
    Line {
        words: Seq::new(
            line.words.len(),
            |i: int|
                Word {
                    ruby: ruby_of(
                        line.word_text(i),
                        reading(pairs, romanized, i),
                        line.words[i].ruby,
                    ),
                    ..line.words[i]
                },
        ),
        ..line
    }
}

fn only_spoken(text: &str) -> (result: String)
    ensures
        result@ == text@.filter(|c: char| spoken(c)),
{
    let chars = to_chars(text);
    let mut result = String::new();
    let mut i: usize = 0;
    proof {
        reveal(Seq::filter);
        assert(chars@.take(0) =~= Seq::empty());
        assert(result@ =~= Seq::empty());
    }
    while i < chars.len()
        invariant
            i <= chars@.len(),
            result@ == chars@.take(i as int).filter(|c: char| spoken(c)),
        decreases chars.len() - i,
    {
        proof {
            reveal(Seq::filter);
            assert(chars@.take(i + 1).drop_last() =~= chars@.take(i as int));
            assert(chars@.take(i + 1).last() == chars@[i as int]);
        }
        if !is_whitespace(chars[i]) && chars[i] != '\'' {
            result.push(chars[i]);
        }
        i += 1;
    }
    assert(chars@.take(chars@.len() as int) =~= chars@);
    result
}

proof fn reading_of_push(pairs: Seq<(int, int)>, pair: (int, int), romanized: Line, word: int)
    ensures
        reading(pairs.push(pair), romanized, word) == if pair.0 == word {
            reading(pairs, romanized, word) + romanized.word_text(pair.1)
        } else {
            reading(pairs, romanized, word)
        },
{
    assert(pairs.push(pair).drop_last() =~= pairs);
}

fn give_syllable(
    readings: &mut Vec<String>,
    romanized: &LyricLine,
    word: usize,
    syllable: usize,
    pairs: Ghost<Seq<(int, int)>>,
)
    requires
        word < old(readings)@.len(),
        syllable < romanized.words@.len(),
        romanized@.words_fit(),
        forall|k: int|
            0 <= k < old(readings)@.len() ==> (#[trigger] old(readings)@[k])@ == reading(
                pairs@,
                romanized@,
                k,
            ),
    ensures
        final(readings)@.len() == old(readings)@.len(),
        forall|k: int|
            0 <= k < final(readings)@.len() ==> (#[trigger] final(readings)@[k])@ == reading(
                pairs@.push((word as int, syllable as int)),
                romanized@,
                k,
            ),
{
    let ghost before = readings@;
    let range = &romanized.words[syllable].range;
    assert(romanized@.words[syllable as int] == romanized.words@[syllable as int]@);
    let part = slice_text(romanized.text.as_str(), range.start, range.end);
    let mut text = readings[word].clone();
    push_chars(&mut text, part.as_slice());
    readings.set(word, text);
    proof {
        assert forall|k: int| 0 <= k < readings@.len() implies (#[trigger] readings@[k])@
            == reading(pairs@.push((word as int, syllable as int)), romanized@, k) by {
            reading_of_push(pairs@, (word as int, syllable as int), romanized@, k);
            if k != word {
                assert(readings@[k] == before[k]);
            }
        }
    }
}

fn shared_time(a: &LyricWord, b: &LyricWord) -> (shared: Option<Duration>)
    ensures
        match shared {
            Some(span) => overlap(a@, b@) > 0 && span@ == overlap(a@, b@),
            None => overlap(a@, b@) <= 0,
        },
{
    let start = a.start.longer(b.start);
    let end = a.end.shorter(b.end);
    if start.is_below(end) {
        Some(end.saturating_sub(start))
    } else {
        None
    }
}

fn collect_readings(line: &LyricLine, romanized: &LyricLine) -> (readings: Vec<String>)
    requires
        romanized@.words_fit(),
    ensures
        readings@.len() == line.words@.len(),
        forall|k: int|
            0 <= k < readings@.len() ==> (#[trigger] readings@[k])@ == reading(
                assignments(line@.words, romanized@.words, 0, 0, None),
                romanized@,
                k,
            ),
{
    let ghost words = line@.words;
    let ghost syllables = romanized@.words;
    let ghost all = assignments(words, syllables, 0, 0, None);
    let ghost mut done: Seq<(int, int)> = Seq::empty();
    let mut readings: Vec<String> = Vec::new();
    while readings.len() < line.words.len()
        invariant
            readings@.len() <= line.words@.len(),
            done == Seq::<(int, int)>::empty(),
            forall|k: int|
                0 <= k < readings@.len() ==> (#[trigger] readings@[k])@ == reading(
                    done,
                    romanized@,
                    k,
                ),
        decreases line.words.len() - readings.len(),
    {
        let empty = String::new();
        assert(empty@ =~= Seq::empty());
        readings.push(empty);
    }
    let mut w: usize = 0;
    let mut s: usize = 0;
    let mut best: Option<(usize, Duration)> = None;
    let ghost mut best_now: Option<(int, int)> = None;
    assert(done + all =~= all);
    while w < line.words.len() && s < romanized.words.len()
        invariant
            w <= line.words@.len(),
            s <= romanized.words@.len(),
            words == line@.words,
            syllables == romanized@.words,
            words.len() == line.words@.len(),
            syllables.len() == romanized.words@.len(),
            romanized@.words_fit(),
            readings@.len() == line.words@.len(),
            match (best, best_now) {
                (Some((k, shared)), Some((word, most))) => k == word && shared@ == most && k
                    < line.words@.len(),
                (None, None) => true,
                _ => false,
            },
            done + assignments(words, syllables, w as int, s as int, best_now) == all,
            forall|k: int|
                0 <= k < readings@.len() ==> (#[trigger] readings@[k])@ == reading(
                    done,
                    romanized@,
                    k,
                ),
        decreases line.words.len() - w + (romanized.words.len() - s),
    {
        let word = &line.words[w];
        let syllable = &romanized.words[s];
        assert(words[w as int] == word@);
        assert(syllables[s as int] == syllable@);
        let ghost ahead = assignments(words, syllables, w as int, s as int, best_now);
        let ghost now = better(best_now, w as int, overlap(word@, syllable@));
        if let Some(shared) = shared_time(word, syllable) {
            let keep: bool = match best {
                Some((_, most)) => shared.is_below(most),
                None => false,
            };
            if !keep {
                best = Some((w, shared));
            }
        }
        let syllable_ends = syllable.end.is_at_most(word.end);
        let word_ends = word.end.is_at_most(syllable.end);
        if syllable_ends {
            if let Some((k, _)) = best {
                give_syllable(&mut readings, romanized, k, s, Ghost(done));
                proof {
                    let pair = (k as int, s as int);
                    let rest = assignments(
                        words,
                        syllables,
                        if word_ends {
                            w + 1
                        } else {
                            w as int
                        },
                        s + 1,
                        None,
                    );
                    assert(done.push(pair) + rest =~= done + (seq![pair] + rest));
                    done = done.push(pair);
                }
            } else {
                proof {
                    let rest = assignments(
                        words,
                        syllables,
                        if word_ends {
                            w + 1
                        } else {
                            w as int
                        },
                        s + 1,
                        None,
                    );
                    assert(Seq::<(int, int)>::empty() + rest =~= rest);
                }
            }
            best = None;
            s += 1;
            proof {
                best_now = None;
            }
        } else {
            proof {
                best_now = now;
            }
        }
        if word_ends {
            w += 1;
        }
    }
    if s < romanized.words.len() {
        if let Some((k, _)) = best {
            give_syllable(&mut readings, romanized, k, s, Ghost(done));
            assert(done.push((k as int, s as int)) =~= done + seq![(k as int, s as int)]);
        } else {
            assert(done + Seq::<(int, int)>::empty() =~= done);
        }
    } else {
        assert(done + Seq::<(int, int)>::empty() =~= done);
    }
    readings
}

/// Gives the words of a line the readings of a romanized line.
pub fn attach_ruby(line: &mut LyricLine, romanized: &LyricLine)
    requires
        old(line)@.words_fit(),
        romanized@.words_fit(),
    ensures
        final(line)@ == with_ruby(old(line)@, romanized@),
{
    let ghost before = line@;
    let ghost after = with_ruby(before, romanized@);
    let readings = collect_readings(line, romanized);
    let mut words: Vec<LyricWord> = Vec::new();
    let mut i: usize = 0;
    while i < line.words.len()
        invariant
            i <= line.words@.len(),
            line@ == before,
            before.words_fit(),
            after == with_ruby(before, romanized@),
            readings@.len() == line.words@.len(),
            forall|k: int|
                0 <= k < readings@.len() ==> (#[trigger] readings@[k])@ == reading(
                    assignments(before.words, romanized@.words, 0, 0, None),
                    romanized@,
                    k,
                ),
            word_views(words@) =~= after.words.take(i as int),
        decreases line.words.len() - i,
    {
        assert(before.words[i as int] == line.words@[i as int]@);
        let mut word = line.words[i].clone();
        let chars = slice_text(line.text.as_str(), word.range.start, word.range.end);
        let text = from_chars(chars.as_slice());
        if contains_kanji(text.as_str()) {
            let spoken_part = only_spoken(readings[i].as_str());
            let converted = to_hiragana(spoken_part.as_str());
            word = LyricWord {
                range: word.range.start..word.range.end,
                start: word.start,
                end: word.end,
                ruby: take_ruby(converted, word.ruby),
            };
        }
        let ghost earlier = words@;
        words.push(word);
        proof {
            assert(word@ == after.words[i as int]);
            assert(word_views(words@) =~= word_views(earlier).push(word@));
        }
        i += 1;
    }
    assert(word_views(words@) =~= after.words);
    line.words = words;
}

/// For how long two words are sung at once; below zero where a pause lies between them.
pub open spec fn time_together(a: Word, b: Word) -> int {
    min(a.end as int, b.end as int) - max(a.start as int, b.start as int)
}

/// The words are sung one after the other.
pub open spec fn one_after_the_other(words: Seq<Word>) -> bool {
    &&& forall|i: int| 0 <= i < words.len() ==> (#[trigger] words[i]).start <= words[i].end
    &&& forall|i: int, j: int|
        0 <= i < j < words.len() ==> (#[trigger] words[i]).end <= (#[trigger] words[j]).start
}

/// The word is sung together with the syllable, no other word before `until` for longer,
/// and none behind it for as long.
pub open spec fn longest_together(words: Seq<Word>, syllable: Word, until: int, word: int) -> bool {
    &&& 0 <= word < until
    &&& time_together(words[word], syllable) > 0
    &&& forall|v: int|
        0 <= v < until ==> time_together(#[trigger] words[v], syllable) <= time_together(
            words[word],
            syllable,
        ) && (v > word ==> time_together(words[v], syllable) < time_together(
            words[word],
            syllable,
        ))
}

spec fn best_until(words: Seq<Word>, syllable: Word, until: int, best: Option<(int, int)>) -> bool {
    match best {
        None => forall|v: int|
            0 <= v < until ==> time_together(#[trigger] words[v], syllable) <= 0,
        Some((word, shared)) => longest_together(words, syllable, until, word) && shared
            == time_together(words[word], syllable),
    }
}

proof fn longest_is_unique(words: Seq<Word>, syllable: Word, until: int, a: int, b: int)
    requires
        longest_together(words, syllable, until, a),
        longest_together(words, syllable, until, b),
    ensures
        a == b,
{
    assert(time_together(words[a], syllable) <= time_together(words[b], syllable));
    assert(time_together(words[b], syllable) <= time_together(words[a], syllable));
}

proof fn better_goes_on(words: Seq<Word>, syllable: Word, w: int, best: Option<(int, int)>)
    requires
        0 <= w < words.len(),
        best_until(words, syllable, w, best),
    ensures
        best_until(words, syllable, w + 1, better(best, w, overlap(words[w], syllable))),
{
    assert(overlap(words[w], syllable) == time_together(words[w], syllable));
}

proof fn assigned_to_longest(
    words: Seq<Word>,
    syllables: Seq<Word>,
    w: int,
    s: int,
    best: Option<(int, int)>,
    t: int,
    word: int,
)
    requires
        one_after_the_other(words),
        one_after_the_other(syllables),
        0 <= w <= words.len(),
        0 <= s <= t < syllables.len(),
        best_until(words, syllables[s], w, best),
        forall|v: int| 0 <= v < w ==> (#[trigger] words[v]).end <= syllables[s].end,
        longest_together(words, syllables[t], words.len() as int, word),
    ensures
        assignments(words, syllables, w, s, best).contains((word, t)),
    decreases words.len() - w + (syllables.len() - s),
{
    let all = assignments(words, syllables, w, s, best);
    if w >= words.len() {
        if t > s {
            assert(words[word].end <= syllables[s].end);
            assert(syllables[s].end <= syllables[t].start);
            assert(time_together(words[word], syllables[t]) <= 0);
        } else {
            assert(best is Some) by {
                if best is None {
                    assert(time_together(words[word], syllables[t]) <= 0);
                }
            }
            longest_is_unique(words, syllables[t], w, word, best.unwrap().0);
            assert(all[0] == (word, t));
        }
    } else {
        let now = better(best, w, overlap(words[w], syllables[s]));
        better_goes_on(words, syllables[s], w, best);
        let next_word = if words[w].end <= syllables[s].end {
            w + 1
        } else {
            w
        };
        if syllables[s].end <= words[w].end {
            let given = match now {
                Some((found, _)) => seq![(found, s)],
                None => Seq::empty(),
            };
            let rest = assignments(words, syllables, next_word, s + 1, None);
            assert(all == given + rest);
            if t == s {
                assert(word <= w) by {
                    if word > w {
                        assert(words[w].end <= words[word].start);
                    }
                }
                assert(now is Some) by {
                    if now is None {
                        assert(time_together(words[word], syllables[t]) <= 0);
                    }
                }
                assert(longest_together(words, syllables[t], w + 1, word));
                longest_is_unique(words, syllables[t], w + 1, word, now.unwrap().0);
                assert(all[0] == (word, t));
            } else {
                assert(syllables[s].end <= syllables[s + 1].start);
                assert(syllables[s + 1].start <= syllables[s + 1].end);
                assert forall|v: int| 0 <= v < next_word implies time_together(
                    #[trigger] words[v],
                    syllables[s + 1],
                ) <= 0 && words[v].end <= syllables[s + 1].end by {
                    assert(words[v].end <= syllables[s].end);
                }
                assigned_to_longest(words, syllables, next_word, s + 1, None, t, word);
                let i = choose|i: int| 0 <= i < rest.len() && rest[i] == (word, t);
                assert(all[given.len() + i] == (word, t));
            }
        } else {
            assert(next_word == w + 1);
            assigned_to_longest(words, syllables, w + 1, s, now, t, word);
        }
    }
}

/// A syllable belongs to the word that it is sung together with for the longest time, the
/// later one of two that are equal, and to no word where it is sung together with none.
pub proof fn syllables_belong_to_the_longest(
    words: Seq<Word>,
    syllables: Seq<Word>,
    syllable: int,
    word: int,
)
    requires
        one_after_the_other(words),
        one_after_the_other(syllables),
        0 <= syllable < syllables.len(),
        0 <= word < words.len(),
    ensures
        assignments(words, syllables, 0, 0, None).contains((word, syllable)) <==> longest_together(
            words,
            syllables[syllable],
            words.len() as int,
            word,
        ),
{
    let pairs = assignments(words, syllables, 0, 0, None);
    assignments_overlap(words, syllables, 0, 0, None);
    if longest_together(words, syllables[syllable], words.len() as int, word) {
        assigned_to_longest(words, syllables, 0, 0, None, syllable, word);
    }
    if pairs.contains((word, syllable)) {
        let i = choose|i: int| 0 <= i < pairs.len() && pairs[i] == (word, syllable);
        assert(time_together(words[word], syllables[syllable]) > 0);
        let best = longest_exists(words, syllables[syllable], words.len() as int, word);
        assigned_to_longest(words, syllables, 0, 0, None, syllable, best);
        let j = choose|j: int| 0 <= j < pairs.len() && pairs[j] == (best, syllable);
        if i < j {
            assert(pairs[i].1 < pairs[j].1);
        } else if j < i {
            assert(pairs[j].1 < pairs[i].1);
        }
    }
}

proof fn longest_exists(words: Seq<Word>, syllable: Word, until: int, word: int) -> (best: int)
    requires
        0 <= word < until <= words.len(),
        time_together(words[word], syllable) > 0,
    ensures
        longest_together(words, syllable, until, best),
    decreases until,
{
    let last = until - 1;
    if forall|v: int| 0 <= v < last ==> time_together(#[trigger] words[v], syllable) <= 0 {
        assert(word == last);
        last
    } else {
        let some = choose|v: int|
            0 <= v < last && time_together(#[trigger] words[v], syllable) > 0;
        let before = longest_exists(words, syllable, last, some);
        if time_together(words[last], syllable) >= time_together(words[before], syllable) {
            last
        } else {
            before
        }
    }
}

/// The reading of a word is made of its syllables, in their order, and of no other's.
pub proof fn readings_are_made_of_syllables(
    pairs: Seq<(int, int)>,
    romanized: Line,
    word: int,
    other: int,
    syllable: int,
)
    requires
        other != word,
    ensures
        reading(Seq::empty(), romanized, word) == Seq::<char>::empty(),
        reading(pairs.push((word, syllable)), romanized, word) == reading(pairs, romanized, word)
            + romanized.word_text(syllable),
        reading(pairs.push((other, syllable)), romanized, word) == reading(pairs, romanized, word),
{
    assert(pairs.push((word, syllable)).drop_last() =~= pairs);
    assert(pairs.push((other, syllable)).drop_last() =~= pairs);
}

/// Readings stand above kanji alone, and are hiragana alone: a word without kanji keeps
/// what it had, and so does one whose reading is anything else.
pub proof fn ruby_is_hiragana_above_kanji(
    text: Seq<char>,
    reading: Seq<char>,
    converted: Seq<char>,
    before: Option<Seq<char>>,
)
    ensures
        (forall|i: int| 0 <= i < text.len() ==> !('\u{4e00}' <= #[trigger] text[i] <= '\u{9faf}'))
            ==> ruby_of(text, reading, before) == before,
        (exists|i: int| 0 <= i < text.len() && '\u{4e00}' <= #[trigger] text[i] <= '\u{9faf}')
            ==> ruby_of(text, reading, before) == converted_ruby(
            hiragana(reading.filter(|c: char| spoken(c))),
            before,
        ),
        converted.len() == 0 ==> converted_ruby(converted, before) == before,
        converted.len() > 0 && (forall|i: int|
            0 <= i < converted.len() ==> ('\u{3040}' <= #[trigger] converted[i] <= '\u{309f}'
                || converted[i] == '\u{30fc}')) ==> converted_ruby(converted, before) == Some(
            converted,
        ),
        (exists|i: int|
            0 <= i < converted.len() && !('\u{3040}' <= #[trigger] converted[i] <= '\u{309f}'
                || converted[i] == '\u{30fc}')) ==> converted_ruby(converted, before) == before,
{
    if forall|i: int| 0 <= i < text.len() ==> !('\u{4e00}' <= #[trigger] text[i] <= '\u{9faf}') {
        assert forall|i: int| 0 <= i < text.len() implies !kanji(#[trigger] text[i]) by {
            one_kanji(text[i]);
        }
    }
    if exists|i: int| 0 <= i < text.len() && '\u{4e00}' <= #[trigger] text[i] <= '\u{9faf}' {
        let i = choose|i: int| 0 <= i < text.len() && '\u{4e00}' <= #[trigger] text[i] <= '\u{9faf}';
        one_kanji(text[i]);
        assert(kanji(text[i]));
    }
    if forall|i: int|
        0 <= i < converted.len() ==> ('\u{3040}' <= #[trigger] converted[i] <= '\u{309f}'
            || converted[i] == '\u{30fc}') {
        assert forall|i: int| 0 <= i < converted.len() implies hiragana_or_mark(
            #[trigger] converted[i],
        ) by {
            one_hiragana(converted[i]);
        }
    } else {
        let i = choose|i: int|
            0 <= i < converted.len() && !('\u{3040}' <= #[trigger] converted[i] <= '\u{309f}'
                || converted[i] == '\u{30fc}');
        one_hiragana(converted[i]);
        assert(!hiragana_or_mark(converted[i]));
    }
}

proof fn one_kanji(c: char)
    ensures
        kanji(c) <==> '\u{4e00}' <= c <= '\u{9faf}',
{
}

proof fn one_hiragana(c: char)
    ensures
        hiragana_or_mark(c) <==> '\u{3040}' <= c <= '\u{309f}' || c == '\u{30fc}',
{
}

/// Readings change nothing but the ruby of words: each word gets that of its own reading.
pub proof fn readings_go_to_their_words(line: Line, romanized: Line, i: int)
    requires
        0 <= i < line.words.len(),
    ensures
        with_ruby(line, romanized).words.len() == line.words.len(),
        with_ruby(line, romanized).text == line.text,
        with_ruby(line, romanized).start == line.start,
        with_ruby(line, romanized).translation == line.translation,
        with_ruby(line, romanized).words[i] == (Word {
            ruby: ruby_of(
                line.word_text(i),
                reading(
                    assignments(line.words, romanized.words, 0, 0, None),
                    romanized,
                    i,
                ),
                line.words[i].ruby,
            ),
            ..line.words[i]
        }),
{
}

} // verus!
