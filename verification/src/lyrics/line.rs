//! A line of lyrics and its words.

use crate::offset::is_offset;
use crate::time::Duration;
use std::ops::Range;
use vstd::prelude::*;

verus! {

/// A word of a line: the bytes it covers in the line's text and when it is sung.
#[derive(Debug, PartialEq, Eq)]
pub struct LyricWord {
    pub range: Range<usize>,
    pub start: Duration,
    pub end: Duration,
    /// The reading that stands above the word.
    pub ruby: Option<String>,
}

#[derive(Debug, PartialEq, Eq)]
pub struct LyricLine {
    pub start: Duration,
    pub text: String,
    pub words: Vec<LyricWord>,
    pub translation: Option<String>,
}

/// What a `LyricWord` says, times in nanoseconds.
pub struct Word {
    pub from: int,
    pub to: int,
    pub start: nat,
    pub end: nat,
    pub ruby: Option<Seq<char>>,
}

/// What a `LyricLine` says, times in nanoseconds.
pub struct Line {
    pub start: nat,
    pub text: Seq<char>,
    pub words: Seq<Word>,
    pub translation: Option<Seq<char>>,
}

pub open spec fn text_of(text: Option<String>) -> Option<Seq<char>> {
    match text {
        Some(s) => Some(s@),
        None => None,
    }
}

impl View for LyricWord {
    type V = Word;

    open spec fn view(&self) -> Word {
        Word {
            from: self.range.start as int,
            to: self.range.end as int,
            start: self.start@,
            end: self.end@,
            ruby: text_of(self.ruby),
        }
    }
}

pub open spec fn word_views(words: Seq<LyricWord>) -> Seq<Word> {
    words.map_values(|word: LyricWord| word@)
}

impl View for LyricLine {
    type V = Line;

    open spec fn view(&self) -> Line {
        Line {
            start: self.start@,
            text: self.text@,
            words: word_views(self.words@),
            translation: text_of(self.translation),
        }
    }
}

pub open spec fn line_views(lines: Seq<LyricLine>) -> Seq<Line> {
    lines.map_values(|line: LyricLine| line@)
}

impl Clone for LyricWord {
    fn clone(&self) -> (copy: Self)
        ensures
            copy@ == self@,
    {
        LyricWord {
            range: self.range.start..self.range.end,
            start: self.start,
            end: self.end,
            ruby: copy_text(&self.ruby),
        }
    }
}

impl Clone for LyricLine {
    fn clone(&self) -> (copy: Self)
        ensures
            copy@ == self@,
    {
        let mut words: Vec<LyricWord> = Vec::new();
        let mut i: usize = 0;
        while i < self.words.len()
            invariant
                i <= self.words@.len(),
                word_views(words@) == word_views(self.words@).take(i as int),
            decreases self.words.len() - i,
        {
            let word = self.words[i].clone();
            let ghost before = words@;
            words.push(word);
            assert(word_views(words@) =~= word_views(before).push(word@));
            assert(word_views(self.words@).take(i + 1) =~= word_views(self.words@).take(
                i as int,
            ).push(self.words@[i as int]@));
            i += 1;
        }
        assert(word_views(self.words@).take(i as int) =~= word_views(self.words@));
        LyricLine {
            start: self.start,
            text: self.text.clone(),
            words,
            translation: copy_text(&self.translation),
        }
    }
}

impl Word {
    /// The word covers some characters of `text`, and whole ones.
    pub open spec fn lies_in(self, text: Seq<char>) -> bool {
        self.from < self.to && is_offset(text, self.from) && is_offset(text, self.to)
    }
}

/// No word reaches into one behind it.
pub open spec fn words_follow(words: Seq<Word>) -> bool {
    forall|i: int, j: int|
        0 <= i < j < words.len() ==> (#[trigger] words[i]).to <= (#[trigger] words[j]).from
}

impl Line {
    /// The line says something, and its words are parts of what it says, one behind
    /// the other.
    pub open spec fn wf(self) -> bool {
        &&& self.text.len() > 0
        &&& forall|i: int|
            0 <= i < self.words.len() ==> (#[trigger] self.words[i]).lies_in(self.text)
        &&& words_follow(self.words)
    }
}

pub open spec fn all_wf(lines: Seq<Line>) -> bool {
    forall|i: int| 0 <= i < lines.len() ==> (#[trigger] lines[i]).wf()
}

/// The lines stand in the order in which they start.
pub open spec fn in_order(lines: Seq<Line>) -> bool {
    forall|i: int, j: int|
        0 <= i < j < lines.len() ==> (#[trigger] lines[i]).start <= (#[trigger] lines[j]).start
}

/// How many of the lines stand before a line that starts at `start` and comes after
/// all lines with the same start.
pub open spec fn place_for(lines: Seq<Line>, start: nat) -> int
    decreases lines.len(),
{
    if lines.len() > 0 && lines.last().start > start {
        place_for(lines.drop_last(), start)
    } else {
        lines.len() as int
    }
}

/// The lines ordered by their start; those that start together keep their order.
pub open spec fn by_start(lines: Seq<Line>) -> Seq<Line>
    decreases lines.len(),
{
    if lines.len() == 0 {
        Seq::empty()
    } else {
        let before = by_start(lines.drop_last());
        before.insert(place_for(before, lines.last().start), lines.last())
    }
}

pub proof fn place_for_bounds(lines: Seq<Line>, start: nat)
    ensures
        0 <= place_for(lines, start) <= lines.len(),
        forall|i: int|
            place_for(lines, start) <= i < lines.len() ==> (#[trigger] lines[i]).start > start,
        place_for(lines, start) > 0 ==> lines[place_for(lines, start) - 1].start <= start,
    decreases lines.len(),
{
    if lines.len() > 0 && lines.last().start > start {
        place_for_bounds(lines.drop_last(), start);
        assert forall|i: int| place_for(lines, start) <= i < lines.len() implies (
        #[trigger] lines[i]).start > start by {
            if i < lines.len() - 1 {
                assert(lines.drop_last()[i] == lines[i]);
            }
        }
    }
}

/// Ordering lines gives every line its place in time, and neither adds nor drops one.
pub proof fn ordered_lines(lines: Seq<Line>)
    ensures
        in_order(by_start(lines)),
        by_start(lines).len() == lines.len(),
        by_start(lines).to_multiset() == lines.to_multiset(),
        all_wf(lines) ==> all_wf(by_start(lines)),
    decreases lines.len(),
{
    broadcast use vstd::seq_lib::group_to_multiset_ensures;

    if lines.len() > 0 {
        let rest = lines.drop_last();
        let line = lines.last();
        ordered_lines(rest);
        let before = by_start(rest);
        place_for_bounds(before, line.start);
        let at = place_for(before, line.start);
        let after = before.insert(at, line);
        assert(rest.push(line) =~= lines);
        assert(after.to_multiset() =~= before.to_multiset().insert(line));
        assert forall|i: int, j: int| 0 <= i < j < after.len() implies (
        #[trigger] after[i]).start <= (#[trigger] after[j]).start by {
            if at > 0 && i < at {
                assert(before[i].start <= before[at - 1].start || i == at - 1);
            }
        }
        if all_wf(lines) {
            assert forall|i: int| 0 <= i < rest.len() implies (#[trigger] rest[i]).wf() by {
                assert(rest[i] == lines[i]);
            }
            assert(line == lines[lines.len() - 1]);
        }
    }
}

/// The lines that start at `start`, in their order.
pub open spec fn starting_at(lines: Seq<Line>, start: nat) -> Seq<Line> {
    lines.filter(|line: Line| line.start == start)
}

proof fn starting_at_insert(lines: Seq<Line>, line: Line, start: nat)
    requires
        in_order(lines),
    ensures
        starting_at(lines.insert(place_for(lines, line.start), line), start) == starting_at(
            lines.push(line),
            start,
        ),
    decreases lines.len(),
{
    let at = place_for(lines, line.start);
    place_for_bounds(lines, line.start);
    let keep = |l: Line| l.start == start;
    if lines.len() > 0 && lines.last().start > line.start {
        let rest = lines.drop_last();
        let last = lines.last();
        assert forall|i: int, j: int| 0 <= i < j < rest.len() implies (
        #[trigger] rest[i]).start <= (#[trigger] rest[j]).start by {
            assert(rest[i] == lines[i] && rest[j] == lines[j]);
        }
        starting_at_insert(rest, line, start);
        let inserted = lines.insert(at, line);
        assert(inserted.drop_last() =~= rest.insert(at, line));
        assert(inserted.last() == last);
        reveal(Seq::filter);
        assert(lines.push(line).drop_last() =~= lines);
        assert(rest.push(line).drop_last() =~= rest);
        assert(starting_at(rest.push(line), start) =~= if line.start == start {
            rest.filter(keep).push(line)
        } else {
            rest.filter(keep)
        });
        assert(starting_at(lines, start) =~= if last.start == start {
            rest.filter(keep).push(last)
        } else {
            rest.filter(keep)
        });
    } else {
        assert(lines.insert(at, line) =~= lines.push(line));
    }
}

/// Lines that start together keep their order when lines are ordered.
pub proof fn ordering_is_stable(lines: Seq<Line>, start: nat)
    ensures
        starting_at(by_start(lines), start) == starting_at(lines, start),
    decreases lines.len(),
{
    if lines.len() > 0 {
        let rest = lines.drop_last();
        let line = lines.last();
        let before = by_start(rest);
        ordering_is_stable(rest, start);
        ordered_lines(rest);
        starting_at_insert(before, line, start);
        reveal(Seq::filter);
        assert(before.push(line).drop_last() =~= before);
        assert(rest.push(line) =~= lines);
    } else {
        assert(by_start(lines) =~= lines);
    }
}

/// Orders the lines by their start.
pub fn sort_by_start(lines: Vec<LyricLine>) -> (sorted: Vec<LyricLine>)
    ensures
        line_views(sorted@) == by_start(line_views(lines@)),
{
    let ghost all = line_views(lines@);
    let mut sorted: Vec<LyricLine> = Vec::new();
    let mut left: Vec<LyricLine> = lines;
    let mut waiting: Vec<LyricLine> = Vec::new();
    let ghost original = lines@;
    assert(original.take(original.len() as int) =~= original);
    while left.len() > 0
        invariant
            left@.len() <= original.len(),
            left@ == original.take(left@.len() as int),
            waiting@ =~= original.skip(left@.len() as int).reverse(),
        decreases left.len(),
    {
        let ghost n = left@.len() as int;
        let line = left.pop().unwrap();
        waiting.push(line);
        assert(original.take(n).drop_last() =~= original.take(n - 1));
        assert(original.skip(n - 1) =~= seq![line] + original.skip(n));
    }
    assert(waiting@ =~= original.reverse());
    assert(all.take(0) =~= Seq::empty());
    assert(line_views(sorted@) =~= Seq::empty());
    while waiting.len() > 0
        invariant
            waiting@.len() <= original.len(),
            all == line_views(original),
            waiting@ == original.reverse().take(waiting@.len() as int),
            line_views(sorted@) == by_start(all.take(original.len() - waiting@.len())),
        decreases waiting.len(),
    {
        let ghost n = waiting@.len() as int;
        let ghost done = original.len() - n;
        let ghost before = sorted@;
        let line = waiting.pop().unwrap();
        assert(original.reverse().take(n).drop_last() =~= original.reverse().take(n - 1));
        assert(line == original[done]);
        let mut at: usize = sorted.len();
        assert(line_views(before).take(at as int) =~= line_views(before));
        while at > 0 && line.start.is_below(sorted[at - 1].start)
            invariant
                sorted@ == before,
                at <= sorted@.len(),
                place_for(line_views(before), line.start@) == place_for(
                    line_views(before).take(at as int),
                    line.start@,
                ),
            decreases at,
        {
            assert(line_views(before).take(at as int).drop_last() =~= line_views(before).take(
                at - 1,
            ));
            assert(line_views(before).take(at as int).last() == before[at - 1]@);
            at -= 1;
        }
        assert(at == place_for(line_views(before), line.start@)) by {
            if at > 0 {
                assert(line_views(before).take(at as int).last() == before[at - 1]@);
            }
        }
        sorted.insert(at, line);
        proof {
            assert(line_views(sorted@) =~= line_views(before).insert(at as int, line@));
            assert(all.take(done + 1).drop_last() =~= all.take(done));
            assert(all.take(done + 1).last() == line@);
        }
    }
    assert(all.take(original.len() as int) =~= all);
    sorted
}

/// A copy of `text`.
pub fn copy_text(text: &Option<String>) -> (copy: Option<String>)
    ensures
        text_of(copy) == text_of(*text),
{
    match text {
        Some(s) => Some(s.clone()),
        None => None,
    }
}

} // verus!
