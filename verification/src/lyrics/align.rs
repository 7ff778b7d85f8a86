//! Matching the lines of a translation or a romanization to the lines of a song.

use crate::lyrics::line::{in_order, line_views, text_of, Line, LyricLine};
use crate::lyrics::relaxed::same_chars;
use crate::scan::{trim, trimmed};
use crate::text::{from_chars, to_chars};
use crate::time::{capped_nanos, distance, Duration};
use vstd::math::abs;
use vstd::prelude::*;

verus! {

/// Half a second, in nanoseconds: how far apart two matching lines may start.
pub const ALIGNMENT_TOLERANCE: u64 = 500_000_000;

pub open spec fn gap(line: Line, start: nat) -> nat {
    distance(start, line.start)
}

pub open spec fn near(line: Line, start: nat) -> bool {
    gap(line, start) <= ALIGNMENT_TOLERANCE
}

/// Where the lines from `from` on first start too late to match a line at `start`.
pub open spec fn reach(lines: Seq<Line>, from: int, start: nat) -> int
    decreases lines.len() - from,
{
    if 0 <= from < lines.len() && lines[from].start <= capped_nanos(start + ALIGNMENT_TOLERANCE) {
        reach(lines, from + 1, start)
    } else {
        from
    }
}

/// The line among those from `from` up to `until` that starts closest to `start`,
/// within the tolerance. Of two that start equally close it is the first.
pub open spec fn nearest(lines: Seq<Line>, from: int, until: int, start: nat) -> Option<int>
    decreases until - from,
{
    if until <= from {
        None
    } else {
        let last = until - 1;
        match nearest(lines, from, last, start) {
            None => if near(lines[last], start) {
                Some(last)
            } else {
                None
            },
            Some(best) => if gap(lines[last], start) < gap(lines[best], start) {
                Some(last)
            } else {
                Some(best)
            },
        }
    }
}

/// The nearest line is within the tolerance, and none is nearer; there is one
/// wherever a line is within the tolerance.
pub proof fn nearest_is_closest(lines: Seq<Line>, from: int, until: int, start: nat)
    requires
        0 <= from,
        until <= lines.len(),
    ensures
        match nearest(lines, from, until, start) {
            Some(k) => from <= k < until && near(lines[k], start) && forall|j: int|
                from <= j < until ==> gap(lines[k], start) <= gap(#[trigger] lines[j], start) && (j
                    < k ==> gap(lines[k], start) < gap(lines[j], start)),
            None => forall|j: int| from <= j < until ==> !near(#[trigger] lines[j], start),
        },
    decreases until - from,
{
    if from < until {
        nearest_is_closest(lines, from, until - 1, start);
    }
}

proof fn reach_bounds(lines: Seq<Line>, from: int, start: nat)
    requires
        0 <= from <= lines.len(),
    ensures
        from <= reach(lines, from, start) <= lines.len(),
    decreases lines.len() - from,
{
    if from < lines.len() && lines[from].start <= capped_nanos(start + ALIGNMENT_TOLERANCE) {
        reach_bounds(lines, from + 1, start);
    }
}

/// The line that matches one that starts at `start`, among those from `from` on.
pub open spec fn match_for(lines: Seq<Line>, from: int, start: nat) -> Option<int> {
    nearest(lines, from, reach(lines, from, start), start)
}

/// For each line its match among the auxiliary lines from `from` on: each line looks
/// behind the match of the line before it.
pub open spec fn matches_from(lines: Seq<Line>, auxiliary: Seq<Line>, from: int) -> Seq<Option<int>>
    decreases lines.len(),
{
    if lines.len() == 0 {
        Seq::empty()
    } else {
        match match_for(auxiliary, from, lines[0].start) {
            Some(k) => seq![Some(k)] + matches_from(lines.drop_first(), auxiliary, k + 1),
            None => seq![None] + matches_from(lines.drop_first(), auxiliary, from),
        }
    }
}

/// For each line its match among the auxiliary lines: line by line where there are
/// equally many, and by their starts otherwise.
pub open spec fn alignment(lines: Seq<Line>, auxiliary: Seq<Line>) -> Seq<Option<int>> {
    if lines.len() == auxiliary.len() {
        Seq::new(lines.len(), |i: int| Some(i))
    } else {
        matches_from(lines, auxiliary, 0)
    }
}

proof fn matches_ascend(lines: Seq<Line>, auxiliary: Seq<Line>, from: int)
    requires
        0 <= from <= auxiliary.len(),
    ensures
        matches_from(lines, auxiliary, from).len() == lines.len(),
        forall|i: int|
            0 <= i < lines.len() ==> match #[trigger] matches_from(lines, auxiliary, from)[i] {
                Some(k) => from <= k < auxiliary.len() && near(auxiliary[k], lines[i].start),
                None => true,
            },
        forall|i: int, j: int|
            0 <= i < j < lines.len() ==> match (
                #[trigger] matches_from(lines, auxiliary, from)[i],
                #[trigger] matches_from(lines, auxiliary, from)[j],
            ) {
                (Some(a), Some(b)) => a < b,
                _ => true,
            },
    decreases lines.len(),
{
    if lines.len() > 0 {
        let rest = lines.drop_first();
        let start = lines[0].start;
        reach_bounds(auxiliary, from, start);
        nearest_is_closest(auxiliary, from, reach(auxiliary, from, start), start);
        let next = match match_for(auxiliary, from, start) {
            Some(k) => k + 1,
            None => from,
        };
        matches_ascend(rest, auxiliary, next);
        let all = matches_from(lines, auxiliary, from);
        let tail = matches_from(rest, auxiliary, next);
        assert forall|i: int| 0 <= i < lines.len() implies match #[trigger] all[i] {
            Some(k) => from <= k < auxiliary.len() && near(auxiliary[k], lines[i].start),
            None => true,
        } by {
            if i > 0 {
                assert(all[i] == tail[i - 1]);
                assert(rest[i - 1] == lines[i]);
            }
        }
        assert forall|i: int, j: int| 0 <= i < j < lines.len() implies match (
            #[trigger] all[i],
            #[trigger] all[j],
        ) {
            (Some(a), Some(b)) => a < b,
            _ => true,
        } by {
            assert(all[j] == tail[j - 1]);
            if i > 0 {
                assert(all[i] == tail[i - 1]);
            }
        }
    }
}

/// Matching keeps the order of both sides: no auxiliary line is used twice, and a
/// later line never gets an earlier match. Where the two sides differ in length a
/// match starts within the tolerance.
pub proof fn alignment_keeps_order(lines: Seq<Line>, auxiliary: Seq<Line>)
    ensures
        alignment(lines, auxiliary).len() == lines.len(),
        forall|i: int|
            0 <= i < lines.len() ==> match #[trigger] alignment(lines, auxiliary)[i] {
                Some(k) => 0 <= k < auxiliary.len() && (lines.len() != auxiliary.len() ==> near(
                    auxiliary[k],
                    lines[i].start,
                )),
                None => true,
            },
        forall|i: int, j: int|
            0 <= i < j < lines.len() ==> match (
                #[trigger] alignment(lines, auxiliary)[i],
                #[trigger] alignment(lines, auxiliary)[j],
            ) {
                (Some(a), Some(b)) => a < b,
                _ => true,
            },
{
    matches_ascend(lines, auxiliary, 0);
}

pub open spec fn index_views(matches: Seq<Option<usize>>) -> Seq<Option<int>> {
    matches.map_values(
        |m: Option<usize>|
            match m {
                Some(k) => Some(k as int),
                None => None,
            },
    )
}

fn find_match(auxiliary: &Vec<LyricLine>, from: usize, start: Duration) -> (found: Option<usize>)
    requires
        from <= auxiliary@.len(),
    ensures
        match found {
            Some(k) => match_for(line_views(auxiliary@), from as int, start@) == Some(k as int)
                && from <= k < auxiliary@.len(),
            None => match_for(line_views(auxiliary@), from as int, start@) is None,
        },
{
    let ghost lines = line_views(auxiliary@);
    let tolerance = Duration::from_nanos(ALIGNMENT_TOLERANCE);
    let latest = start.saturating_add(tolerance);
    let mut best: Option<usize> = None;
    let mut i: usize = from;
    while i < auxiliary.len() && auxiliary[i].start.is_at_most(latest)
        invariant
            from <= i <= auxiliary@.len(),
            lines == line_views(auxiliary@),
            tolerance@ == ALIGNMENT_TOLERANCE,
            latest@ == capped_nanos(start@ + ALIGNMENT_TOLERANCE),
            reach(lines, from as int, start@) == reach(lines, i as int, start@),
            match best {
                Some(k) => nearest(lines, from as int, i as int, start@) == Some(k as int) && from
                    <= k < i,
                None => nearest(lines, from as int, i as int, start@) is None,
            },
        decreases auxiliary.len() - i,
    {
        let distance = start.abs_diff(auxiliary[i].start);
        assert(lines[i as int] == auxiliary@[i as int]@);
        match best {
            None => {
                if distance.is_at_most(tolerance) {
                    best = Some(i);
                }
            },
            Some(k) => {
                assert(lines[k as int] == auxiliary@[k as int]@);
                if distance.is_below(start.abs_diff(auxiliary[k].start)) {
                    best = Some(i);
                }
            },
        }
        i += 1;
    }
    best
}

/// Finds for each line its match among the auxiliary lines.
pub fn align_lyric_lines(original: &Vec<LyricLine>, auxiliary: &Vec<LyricLine>) -> (matches: Vec<
    Option<usize>,
>)
    ensures
        index_views(matches@) == alignment(line_views(original@), line_views(auxiliary@)),
{
    let mut matches: Vec<Option<usize>> = Vec::new();
    let ghost lines = line_views(original@);
    let ghost others = line_views(auxiliary@);
    let ghost all = alignment(lines, others);
    if original.len() == auxiliary.len() {
        let mut i: usize = 0;
        while i < original.len()
            invariant
                i <= original@.len(),
                all == Seq::new(original@.len(), |i: int| Some(i)),
                index_views(matches@) == all.take(i as int),
            decreases original.len() - i,
        {
            let ghost before = matches@;
            matches.push(Some(i));
            assert(index_views(matches@) =~= index_views(before).push(Some(i as int)));
            assert(all.take(i + 1) =~= all.take(i as int).push(Some(i as int)));
            i += 1;
        }
        assert(all.take(all.len() as int) =~= all);
        return matches;
    }
    let count: usize = auxiliary.len();
    let mut from: usize = 0;
    let mut i: usize = 0;
    assert(index_views(matches@) + matches_from(lines.skip(0), others, 0) =~= matches_from(
        lines.skip(0),
        others,
        0,
    ));
    assert(lines.skip(0) =~= lines);
    while i < original.len()
        invariant
            i <= original@.len(),
            from <= count,
            count == auxiliary@.len(),
            lines == line_views(original@),
            others == line_views(auxiliary@),
            index_views(matches@) + matches_from(lines.skip(i as int), others, from as int) == all,
        decreases original.len() - i,
    {
        let ghost before = index_views(matches@);
        let ghost here = lines.skip(i as int);
        assert(here.drop_first() =~= lines.skip(i + 1));
        assert(here[0] == original@[i as int]@);
        let found = find_match(auxiliary, from, original[i].start);
        matches.push(found);
        let ghost entry = match found {
            Some(k) => Some(k as int),
            None => None,
        };
        assert(index_views(matches@) =~= before.push(entry));
        if let Some(k) = found {
            from = k + 1;
        }
        proof {
            let tail = matches_from(lines.skip(i + 1), others, from as int);
            assert(before.push(entry) + tail =~= before + (seq![entry] + tail));
        }
        i += 1;
    }
    assert(index_views(matches@) + Seq::<Option<int>>::empty() =~= index_views(matches@));
    matches
}

/// A translation that says something: providers send `//` for none.
pub open spec fn translation_text(text: Seq<char>) -> Option<Seq<char>> {
    if trim(text).len() == 0 || trim(text) == "//"@ {
        None
    } else {
        Some(text)
    }
}

pub fn provider_translation(text: &str) -> (translation: Option<String>)
    ensures
        text_of(translation) == translation_text(text@),
{
    let chars = to_chars(text);
    let placeholder = to_chars("//");
    let inner = trimmed(chars.as_slice());
    if inner.len() == 0 || same_chars(inner, placeholder.as_slice()) {
        None
    } else {
        Some(from_chars(chars.as_slice()))
    }
}

/// The lines, each with the translation that its match gives.
pub open spec fn with_translations(lines: Seq<Line>, auxiliary: Seq<Line>) -> Seq<Line> {
    let matches = alignment(lines, auxiliary);
    Seq::new(
        lines.len(),
        |i: int|
            match matches[i] {
                Some(k) => Line { translation: translation_text(auxiliary[k].text), ..lines[i] },
                None => lines[i],
            },
    )
}

/// Gives each line the translation of its match.
pub fn attach_translations(lines: &mut Vec<LyricLine>, auxiliary: &Vec<LyricLine>)
    ensures
        line_views(final(lines)@) == with_translations(
            line_views(old(lines)@),
            line_views(auxiliary@),
        ),
{
    let ghost before = line_views(lines@);
    let ghost others = line_views(auxiliary@);
    let ghost after = with_translations(before, others);
    let matches = align_lyric_lines(lines, auxiliary);
    proof {
        alignment_keeps_order(before, others);
        assert(index_views(matches@).len() == matches@.len());
    }
    let mut i: usize = 0;
    while i < lines.len()
        invariant
            i <= lines@.len(),
            lines@.len() == before.len(),
            matches@.len() == before.len(),
            others == line_views(auxiliary@),
            after == with_translations(before, others),
            index_views(matches@) == alignment(before, others),
            alignment(before, others).len() == before.len(),
            forall|j: int|
                0 <= j < before.len() ==> match #[trigger] alignment(before, others)[j] {
                    Some(k) => 0 <= k < others.len(),
                    None => true,
                },
            forall|j: int| 0 <= j < i ==> (#[trigger] lines@[j])@ == after[j],
            forall|j: int| i <= j < lines@.len() ==> (#[trigger] lines@[j])@ == before[j],
        decreases lines.len() - i,
    {
        let ghost current = lines@;
        let found = matches[i];
        assert(index_views(matches@)[i as int] == alignment(before, others)[i as int]);
        if let Some(k) = found {
            assert(alignment(before, others)[i as int] == Some(k as int));
            let translation = provider_translation(auxiliary[k].text.as_str());
            lines[i].translation = translation;
            assert(lines@[i as int]@ == after[i as int]);
        }
        assert(lines@[i as int]@ == after[i as int]);
        assert(forall|j: int| 0 <= j < lines@.len() && j != i ==> lines@[j] == current[j]);
        i += 1;
    }
    assert(line_views(lines@) =~= after);
}

/// The auxiliary line `j` stands behind the matches of all lines before line `i`.
pub open spec fn unclaimed(matches: Seq<Option<int>>, i: int, j: int) -> bool {
    forall|h: int|
        0 <= h < i ==> match #[trigger] matches[h] {
            Some(k) => k < j,
            None => true,
        }
}

/// Among the auxiliary lines from `from` on, none that line `i` may still have starts,
/// up to line `j`, more than half a second later than it.
pub open spec fn within_reach(
    matches: Seq<Option<int>>,
    i: int,
    start: nat,
    auxiliary: Seq<Line>,
    from: int,
    j: int,
) -> bool {
    forall|h: int|
        from <= h <= j && unclaimed(matches, i, h) ==> (#[trigger] auxiliary[h]).start <= start
            + 500_000_000
}

/// What line `i` has for a match, held against the auxiliary line `j`.
pub open spec fn best_beside(
    found: Option<int>,
    start: nat,
    auxiliary: Seq<Line>,
    j: int,
) -> bool {
    match found {
        None => abs(auxiliary[j].start - start) > 500_000_000,
        Some(k) => abs(auxiliary[k].start - start) <= 500_000_000 && abs(
            auxiliary[k].start - start,
        ) <= abs(auxiliary[j].start - start) && (j < k ==> abs(auxiliary[k].start - start) < abs(
            auxiliary[j].start - start,
        )),
    }
}

/// The longest span, in nanoseconds: every line starts within it.
pub open spec fn starts_fit(lines: Seq<Line>) -> bool {
    forall|i: int|
        0 <= i < lines.len() ==> (#[trigger] lines[i]).start
            <= 18_446_744_073_709_551_615_999_999_999
}

proof fn reach_is_whole(lines: Seq<Line>, from: int, start: nat, j: int)
    requires
        0 <= from <= j < lines.len(),
        starts_fit(lines),
        forall|h: int| from <= h <= j ==> (#[trigger] lines[h]).start <= start + 500_000_000,
    ensures
        reach(lines, from, start) > j,
    decreases j - from,
{
    assert(lines[from].start <= start + 500_000_000);
    assert(lines[from].start <= capped_nanos(start + ALIGNMENT_TOLERANCE));
    if from < j {
        reach_is_whole(lines, from + 1, start, j);
    } else {
        reach_bounds(lines, from + 1, start);
    }
}

proof fn matches_are_best(
    lines: Seq<Line>,
    auxiliary: Seq<Line>,
    from: int,
    i: int,
    j: int,
)
    requires
        0 <= from <= j < auxiliary.len(),
        0 <= i < lines.len(),
        starts_fit(auxiliary),
        unclaimed(matches_from(lines, auxiliary, from), i, j),
        within_reach(
            matches_from(lines, auxiliary, from),
            i,
            lines[i].start,
            auxiliary,
            from,
            j,
        ),
    ensures
        best_beside(matches_from(lines, auxiliary, from)[i], lines[i].start, auxiliary, j),
    decreases lines.len(),
{
    let all = matches_from(lines, auxiliary, from);
    let start = lines[0].start;
    let until = reach(auxiliary, from, start);
    reach_bounds(auxiliary, from, start);
    nearest_is_closest(auxiliary, from, until, start);
    matches_ascend(lines, auxiliary, from);
    if i == 0 {
        assert forall|h: int| from <= h <= j implies (#[trigger] auxiliary[h]).start <= start
            + 500_000_000 by {
            assert(unclaimed(all, 0, h));
        }
        reach_is_whole(auxiliary, from, start, j);
        assert(all[0] == match_for(auxiliary, from, start));
        assert(gap(auxiliary[j], start) == abs(auxiliary[j].start - start));
    } else {
        let rest = lines.drop_first();
        let next = match match_for(auxiliary, from, start) {
            Some(k) => k + 1,
            None => from,
        };
        let tail = matches_from(rest, auxiliary, next);
        assert(all[0] == match_for(auxiliary, from, start));
        assert(next <= j);
        assert forall|h: int| 0 <= h < i - 1 implies match #[trigger] tail[h] {
            Some(k) => k < j,
            None => true,
        } by {
            assert(all[h + 1] == tail[h]);
        }
        assert(all[i] == tail[i - 1]);
        assert(rest[i - 1] == lines[i]);
        assert forall|h: int| next <= h <= j && unclaimed(tail, i - 1, h) implies (
        #[trigger] auxiliary[h]).start <= lines[i].start + 500_000_000 by {
            assert forall|g: int| 0 <= g < i implies match #[trigger] all[g] {
                Some(k) => k < h,
                None => true,
            } by {
                if g > 0 {
                    assert(all[g] == tail[g - 1]);
                }
            }
            assert(unclaimed(all, i, h));
        }
        matches_are_best(rest, auxiliary, next, i - 1, j);
    }
}

/// Matching is complete. Take any auxiliary line that stands behind the matches of all
/// lines before line `i`, with none in between that starts too late. Where line `i` has
/// no match, that auxiliary line starts more than half a second from it. Where it has
/// one, the match is within half a second and at least as close, and closer than any
/// that stands before it.
pub proof fn matching_is_complete(lines: Seq<Line>, auxiliary: Seq<Line>, i: int, j: int)
    requires
        lines.len() != auxiliary.len(),
        0 <= i < lines.len(),
        0 <= j < auxiliary.len(),
        starts_fit(auxiliary),
        unclaimed(alignment(lines, auxiliary), i, j),
        within_reach(alignment(lines, auxiliary), i, lines[i].start, auxiliary, 0, j),
    ensures
        best_beside(alignment(lines, auxiliary)[i], lines[i].start, auxiliary, j),
{
    matches_are_best(lines, auxiliary, 0, i, j);
}

/// Matching against auxiliary lines in order is complete without a further condition:
/// a line without a match has no auxiliary line within half a second behind the match of
/// the last matched line before it, and a match is the closest of those.
pub proof fn matching_lines_in_order_is_complete(
    lines: Seq<Line>,
    auxiliary: Seq<Line>,
    i: int,
    j: int,
)
    requires
        lines.len() != auxiliary.len(),
        0 <= i < lines.len(),
        0 <= j < auxiliary.len(),
        starts_fit(auxiliary),
        in_order(auxiliary),
        unclaimed(alignment(lines, auxiliary), i, j),
    ensures
        best_beside(alignment(lines, auxiliary)[i], lines[i].start, auxiliary, j),
{
    let matches = alignment(lines, auxiliary);
    let start = lines[i].start;
    if auxiliary[j].start <= start + 500_000_000 {
        assert(within_reach(matches, i, start, auxiliary, 0, j));
        matching_is_complete(lines, auxiliary, i, j);
    } else {
        alignment_keeps_order(lines, auxiliary);
        if matches[i] is Some {
            let k = matches[i].unwrap();
            assert(near(auxiliary[k], start));
            if j < k {
                assert(auxiliary[j].start <= auxiliary[k].start);
            }
        }
    }
}

/// Where there are equally many lines on both sides, each goes with the one at its place.
pub proof fn equally_many_lines_go_in_pairs(lines: Seq<Line>, auxiliary: Seq<Line>, i: int)
    requires
        lines.len() == auxiliary.len(),
        0 <= i < lines.len(),
    ensures
        alignment(lines, auxiliary)[i] == Some(i),
{
}

/// A line gets the text of its match for a translation, unless that is blank or the
/// placeholder for none; without a match, and in all else, it stays as it was.
pub proof fn translations_come_from_the_matches(lines: Seq<Line>, auxiliary: Seq<Line>, i: int)
    requires
        0 <= i < lines.len(),
    ensures
        with_translations(lines, auxiliary).len() == lines.len(),
        ({
            let line = with_translations(lines, auxiliary)[i];
            &&& line.start == lines[i].start && line.text == lines[i].text && line.words
                == lines[i].words
            &&& match alignment(lines, auxiliary)[i] {
                None => line.translation == lines[i].translation,
                Some(k) => {
                    let text = auxiliary[k].text;
                    &&& trim(text).len() == 0 || trim(text) =~= seq!['/', '/']
                        ==> line.translation is None
                    &&& trim(text).len() > 0 && trim(text) !~= seq!['/', '/']
                        ==> line.translation == Some(text)
                },
            }
        }),
{
    reveal_strlit("//");
    assert("//"@ =~= seq!['/', '/']);
}

} // verus!
