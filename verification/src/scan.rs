//! Searching, trimming and splitting a sequence of characters.

use crate::text::{
    ascii_alphanumeric, ascii_whitespace, copy_range, is_ascii_alphanumeric, is_ascii_whitespace,
    is_whitespace, whitespace,
};
use vstd::prelude::*;
use vstd::slice::slice_subrange;

verus! {

/// A set of characters to skip.
#[derive(Clone, Copy)]
pub enum CharClass {
    Whitespace,
    AsciiWhitespace,
    /// What an XML name is made of, as far as it is ASCII.
    XmlName,
    ByteOrderMark,
}

impl CharClass {
    pub open spec fn holds(self, c: char) -> bool {
        match self {
            CharClass::Whitespace => whitespace(c),
            CharClass::AsciiWhitespace => ascii_whitespace(c),
            CharClass::XmlName => ascii_alphanumeric(c) || c == '_' || c == '-' || c == '.' || c
                == ':',
            CharClass::ByteOrderMark => c == '\u{feff}',
        }
    }

    pub fn contains(self, c: char) -> (result: bool)
        ensures
            result == self.holds(c),
    {
        match self {
            CharClass::Whitespace => is_whitespace(c),
            CharClass::AsciiWhitespace => is_ascii_whitespace(c),
            CharClass::XmlName => is_ascii_alphanumeric(c) || c == '_' || c == '-' || c == '.' || c
                == ':',
            CharClass::ByteOrderMark => c == '\u{feff}',
        }
    }
}

/// Where `c` first stands in `s` at or after `from`.
pub open spec fn find_char(s: Seq<char>, c: char, from: int) -> Option<int>
    decreases s.len() - from,
{
    if from < 0 || from >= s.len() {
        None
    } else if s[from] == c {
        Some(from)
    } else {
        find_char(s, c, from + 1)
    }
}

/// `find_char` gives the first position that holds the character, and none only
/// where no position does.
pub proof fn find_char_is_first(s: Seq<char>, c: char, from: int)
    requires
        0 <= from,
    ensures
        find_char(s, c, from) matches Some(i) ==> from <= i < s.len() && s[i] == c && (forall|
            j: int,
        |
            from <= j < i ==> s[j] != c),
        find_char(s, c, from) is None ==> (forall|j: int| from <= j < s.len() ==> s[j] != c),
    decreases s.len() - from,
{
    if from < s.len() && s[from] != c {
        find_char_is_first(s, c, from + 1);
    }
}

pub fn index_of(chars: &[char], c: char, from: usize) -> (found: Option<usize>)
    ensures
        match found {
            Some(i) => find_char(chars@, c, from as int) == Some(i as int) && from <= i
                < chars@.len() && chars@[i as int] == c,
            None => find_char(chars@, c, from as int) is None,
        },
{
    let mut i: usize = from;
    while i < chars.len()
        invariant
            from <= i,
            find_char(chars@, c, from as int) == find_char(chars@, c, i as int),
        decreases chars.len() - i,
    {
        if chars[i] == c {
            return Some(i);
        }
        i += 1;
    }
    None
}

/// The parts of `s` before and behind the first `c`.
pub open spec fn split_once(s: Seq<char>, c: char) -> Option<(Seq<char>, Seq<char>)> {
    match find_char(s, c, 0) {
        Some(i) => Some((s.take(i), s.skip(i + 1))),
        None => None,
    }
}

pub fn split_at_first<'a>(chars: &'a [char], c: char) -> (parts: Option<(&'a [char], &'a [char])>)
    ensures
        match parts {
            Some((before, behind)) => split_once(chars@, c) == Some((before@, behind@)),
            None => split_once(chars@, c) is None,
        },
{
    let length: usize = chars.len();
    match index_of(chars, c, 0) {
        Some(i) => {
            let before = slice_subrange(chars, 0, i);
            let behind = slice_subrange(chars, i + 1, length);
            assert(before@ =~= chars@.take(i as int));
            assert(behind@ =~= chars@.skip(i + 1));
            Some((before, behind))
        },
        None => None,
    }
}

/// The first position at or after `from` whose character is outside `class`.
pub open spec fn skip_class(s: Seq<char>, class: CharClass, from: int) -> int
    decreases s.len() - from,
{
    if 0 <= from < s.len() && class.holds(s[from]) {
        skip_class(s, class, from + 1)
    } else {
        from
    }
}

pub proof fn skip_class_stops(s: Seq<char>, class: CharClass, from: int)
    requires
        0 <= from <= s.len(),
    ensures
        from <= skip_class(s, class, from) <= s.len(),
        skip_class(s, class, from) < s.len() ==> !class.holds(s[skip_class(s, class, from)]),
        forall|j: int| from <= j < skip_class(s, class, from) ==> class.holds(s[j]),
    decreases s.len() - from,
{
    if from < s.len() && class.holds(s[from]) {
        skip_class_stops(s, class, from + 1);
    }
}

pub fn skip(chars: &[char], class: CharClass, from: usize) -> (end: usize)
    requires
        from <= chars@.len(),
    ensures
        end == skip_class(chars@, class, from as int),
        from <= end <= chars@.len(),
        end < chars@.len() ==> !class.holds(chars@[end as int]),
{
    let mut i: usize = from;
    while i < chars.len() && class.contains(chars[i])
        invariant
            from <= i <= chars@.len(),
            skip_class(chars@, class, from as int) == skip_class(chars@, class, i as int),
        decreases chars.len() - i,
    {
        i += 1;
    }
    i
}

/// The length of `s` without the run of `class` at its end.
pub open spec fn end_without(s: Seq<char>, class: CharClass) -> int
    decreases s.len(),
{
    if s.len() > 0 && class.holds(s.last()) {
        end_without(s.drop_last(), class)
    } else {
        s.len() as int
    }
}

pub proof fn end_without_stops(s: Seq<char>, class: CharClass)
    ensures
        0 <= end_without(s, class) <= s.len(),
        end_without(s, class) > 0 ==> !class.holds(s[end_without(s, class) - 1]),
        forall|j: int| end_without(s, class) <= j < s.len() ==> class.holds(s[j]),
    decreases s.len(),
{
    if s.len() > 0 && class.holds(s.last()) {
        end_without_stops(s.drop_last(), class);
        assert forall|j: int| end_without(s, class) <= j < s.len() implies class.holds(s[j]) by {
            if j < s.len() - 1 {
                assert(s.drop_last()[j] == s[j]);
            }
        }
    }
}

pub open spec fn trim_start(s: Seq<char>) -> Seq<char> {
    s.skip(skip_class(s, CharClass::Whitespace, 0))
}

pub open spec fn trim_end(s: Seq<char>) -> Seq<char> {
    s.take(end_without(s, CharClass::Whitespace))
}

/// `s` without the whitespace at its two ends.
pub open spec fn trim(s: Seq<char>) -> Seq<char> {
    trim_end(trim_start(s))
}

pub fn trimmed_start(chars: &[char]) -> (rest: &[char])
    ensures
        rest@ == trim_start(chars@),
{
    let start = skip(chars, CharClass::Whitespace, 0);
    let rest = slice_subrange(chars, start, chars.len());
    assert(rest@ =~= trim_start(chars@));
    rest
}

pub fn trimmed_end(chars: &[char]) -> (rest: &[char])
    ensures
        rest@ == trim_end(chars@),
{
    let mut end: usize = chars.len();
    assert(chars@.take(end as int) =~= chars@);
    while end > 0 && is_whitespace(chars[end - 1])
        invariant
            end <= chars@.len(),
            end_without(chars@, CharClass::Whitespace) == end_without(
                chars@.take(end as int),
                CharClass::Whitespace,
            ),
        decreases end,
    {
        proof {
            assert(chars@.take(end as int).drop_last() =~= chars@.take(end - 1));
        }
        end -= 1;
    }
    let rest = slice_subrange(chars, 0, end);
    assert(rest@ =~= trim_end(chars@));
    rest
}

pub fn trimmed(chars: &[char]) -> (rest: &[char])
    ensures
        rest@ == trim(chars@),
{
    trimmed_end(trimmed_start(chars))
}

/// What trimming leaves neither starts nor ends with whitespace.
pub proof fn trim_leaves_no_outer_whitespace(s: Seq<char>)
    ensures
        trim(s).len() > 0 ==> !whitespace(trim(s)[0]) && !whitespace(trim(s).last()),
        trim(trim(s)) == trim(s),
{
    let started = trim_start(s);
    skip_class_stops(s, CharClass::Whitespace, 0);
    end_without_stops(started, CharClass::Whitespace);
    let t = trim(s);
    if t.len() > 0 {
        assert(t[0] == started[0]);
    }
    assert(trim_start(t) =~= t);
    assert(trim_end(t) =~= t);
}

/// The values of a sequence of character vectors.
pub open spec fn chars_views(parts: Seq<Vec<char>>) -> Seq<Seq<char>> {
    Seq::new(parts.len(), |i: int| parts[i]@)
}

/// A line without the carriage return at its end.
pub open spec fn without_carriage_return(line: Seq<char>) -> Seq<char> {
    if line.len() > 0 && line.last() == '\r' {
        line.drop_last()
    } else {
        line
    }
}

/// The lines of `s` from `from` on: each ends at a line feed, which takes a carriage
/// return in front of it along. What follows the last line feed is a line where it
/// is not empty.
pub open spec fn lines_from(s: Seq<char>, from: int) -> Seq<Seq<char>>
    decreases s.len() - from,
    via lines_from_decreases
{
    if from < 0 || from >= s.len() {
        Seq::empty()
    } else {
        match find_char(s, '\n', from) {
            None => seq![s.skip(from)],
            Some(i) => seq![without_carriage_return(s.subrange(from, i))] + lines_from(s, i + 1),
        }
    }
}

#[via_fn]
proof fn lines_from_decreases(s: Seq<char>, from: int) {
    if 0 <= from {
        find_char_is_first(s, '\n', from);
    }
}

pub open spec fn text_lines(s: Seq<char>) -> Seq<Seq<char>> {
    lines_from(s, 0)
}

pub fn lines(chars: &[char]) -> (result: Vec<Vec<char>>)
    ensures
        chars_views(result@) == text_lines(chars@),
{
    let mut result: Vec<Vec<char>> = Vec::new();
    let mut from: usize = 0;
    assert(chars_views(result@) + lines_from(chars@, 0) =~= lines_from(chars@, 0));
    while from < chars.len()
        invariant
            from <= chars@.len(),
            chars_views(result@) + lines_from(chars@, from as int) == text_lines(chars@),
        decreases chars.len() - from,
    {
        let ghost before = chars_views(result@);
        match index_of(chars, '\n', from) {
            None => {
                let line = copy_range(chars, from, chars.len());
                result.push(line);
                proof {
                    assert(line@ =~= chars@.skip(from as int));
                    assert(chars_views(result@) =~= before + lines_from(chars@, from as int));
                    assert(lines_from(chars@, chars@.len() as int) =~= Seq::empty());
                }
                from = chars.len();
                assert(chars_views(result@) + lines_from(chars@, from as int) =~= chars_views(
                    result@,
                ));
            },
            Some(i) => {
                let end: usize = if i > from && chars[i - 1] == '\r' {
                    i - 1
                } else {
                    i
                };
                let line = copy_range(chars, from, end);
                result.push(line);
                proof {
                    let whole = chars@.subrange(from as int, i as int);
                    assert(line@ =~= without_carriage_return(whole));
                    assert(chars_views(result@) =~= before + seq![without_carriage_return(whole)]);
                    assert(chars_views(result@) + lines_from(chars@, i + 1) =~= before
                        + lines_from(chars@, from as int));
                }
                from = i + 1;
            },
        }
    }
    assert(chars_views(result@) + lines_from(chars@, from as int) =~= chars_views(result@));
    result
}

/// No `c` stands in `s`.
pub open spec fn lacks(s: Seq<char>, c: char) -> bool {
    forall|i: int| 0 <= i < s.len() ==> #[trigger] s[i] != c
}

/// A text that is made of two parts with a mark between them splits into the two, as long
/// as the first does not hold the mark; one without the mark does not split.
pub proof fn splitting_undoes_joining(before: Seq<char>, c: char, behind: Seq<char>)
    requires
        lacks(before, c),
    ensures
        split_once(before.push(c) + behind, c) == Some((before, behind)),
        split_once(before, c) is None,
{
    let s = before.push(c) + behind;
    find_char_is_first(s, c, 0);
    find_char_is_first(before, c, 0);
    assert(s[before.len() as int] == c);
    if let Some(i) = find_char(s, c, 0) {
        if i < before.len() {
            assert(s[i] == before[i]);
        }
        assert(i == before.len());
        assert(s.take(i) =~= before);
        assert(s.skip(i + 1) =~= behind);
    }
}

/// Trimming takes away whitespace alone: what is left stands between two stretches of it.
pub proof fn trimming_takes_whitespace_alone(front: Seq<char>, s: Seq<char>, behind: Seq<char>)
    requires
        forall|i: int| 0 <= i < front.len() ==> whitespace(#[trigger] front[i]),
        forall|i: int| 0 <= i < behind.len() ==> whitespace(#[trigger] behind[i]),
        s.len() > 0 ==> !whitespace(s[0]) && !whitespace(s.last()),
    ensures
        trim(front + s + behind) == s,
{
    let ws = CharClass::Whitespace;
    let all = front + s + behind;
    skip_class_stops(all, ws, 0);
    let at = skip_class(all, ws, 0);
    let started = trim_start(all);
    end_without_stops(started, ws);
    let end = end_without(started, ws);
    if s.len() > 0 {
        assert(at == front.len()) by {
            if at < front.len() {
                assert(all[at] == front[at]);
            } else if at > front.len() {
                assert(ws.holds(all[front.len() as int]));
                assert(all[front.len() as int] == s[0]);
            }
        }
        assert(started =~= s + behind);
        assert(end == s.len()) by {
            if end > s.len() {
                assert(started[end - 1] == behind[end - 1 - s.len()]);
            } else if end < s.len() {
                assert(ws.holds(started[s.len() - 1]));
                assert(started[s.len() - 1] == s.last());
            }
        }
        assert(trim(all) =~= s);
    } else {
        assert(at == all.len()) by {
            if at < all.len() {
                if at < front.len() {
                    assert(all[at] == front[at]);
                } else {
                    assert(all[at] == behind[at - front.len()]);
                }
            }
        }
        assert(trim(all) =~= s);
    }
}

/// The rows with a line feed behind each.
pub open spec fn fed_lines(rows: Seq<Seq<char>>) -> Seq<char>
    decreases rows.len(),
{
    if rows.len() == 0 {
        Seq::empty()
    } else {
        fed_lines(rows.drop_last()) + rows.last().push('\n')
    }
}

proof fn lines_of_appended(front: Seq<char>, from: int, row: Seq<char>)
    requires
        0 <= from <= front.len(),
        from < front.len() ==> front.last() == '\n',
        lacks(row, '\n'),
        row.len() > 0 ==> row.last() != '\r',
    ensures
        lines_from(front + row.push('\n'), from) == lines_from(front, from).push(row),
    decreases front.len() - from,
{
    let s = front + row.push('\n');
    find_char_is_first(s, '\n', from);
    if from == front.len() {
        let at = (front.len() + row.len()) as int;
        assert(s[at] == '\n');
        let found = find_char(s, '\n', from).unwrap();
        if found < at {
            assert(s[found] == row[found - front.len()]);
        }
        assert(found == at);
        assert(s.subrange(from, at) =~= row);
        assert(lines_from(s, at + 1) =~= Seq::empty());
        assert(lines_from(s, from) =~= seq![row]);
        assert(lines_from(front, from) =~= Seq::empty());
        assert(lines_from(front, from).push(row) =~= seq![row]);
    } else {
        find_char_is_first(front, '\n', from);
        assert(front[front.len() - 1] == '\n');
        let i = find_char(front, '\n', from).unwrap();
        assert(s[i] == front[i]);
        let found = find_char(s, '\n', from).unwrap();
        assert(found <= i);
        assert(s[found] == front[found]);
        assert(found == i);
        assert(s.subrange(from, i) =~= front.subrange(from, i));
        lines_of_appended(front, i + 1, row);
        assert(lines_from(s, from) =~= lines_from(front, from).push(row));
    }
}

/// Rows that are written with a line feed behind each are read as the same rows.
pub proof fn written_lines_read_back(rows: Seq<Seq<char>>)
    requires
        forall|i: int|
            0 <= i < rows.len() ==> lacks(#[trigger] rows[i], '\n') && (rows[i].len() > 0
                ==> rows[i].last() != '\r'),
    ensures
        text_lines(fed_lines(rows)) == rows,
        rows.len() > 0 ==> fed_lines(rows).len() > 0 && fed_lines(rows).last() == '\n',
    decreases rows.len(),
{
    if rows.len() == 0 {
        assert(text_lines(fed_lines(rows)) =~= rows);
    } else {
        let rest = rows.drop_last();
        let row = rows.last();
        assert forall|i: int| 0 <= i < rest.len() implies lacks(#[trigger] rest[i], '\n') && (
        rest[i].len() > 0 ==> rest[i].last() != '\r') by {
            assert(rest[i] == rows[i]);
        }
        assert(rows[rows.len() - 1] == row);
        written_lines_read_back(rest);
        lines_of_appended(fed_lines(rest), 0, row);
        assert(rest.push(row) =~= rows);
    }
}

/// A carriage return in front of a line feed belongs to it.
pub proof fn carriage_return_goes_with_the_feed(row: Seq<char>, rest: Seq<char>)
    requires
        lacks(row, '\n'),
    ensures
        text_lines(row.push('\r').push('\n') + rest).len() > 0,
        text_lines(row.push('\r').push('\n') + rest)[0] == row,
{
    let s = row.push('\r').push('\n') + rest;
    find_char_is_first(s, '\n', 0);
    let at = row.len() as int + 1;
    assert(s[at] == '\n');
    let found = find_char(s, '\n', 0).unwrap();
    if found < at {
        if found < row.len() {
            assert(s[found] == row[found]);
        }
    }
    assert(s.subrange(0, at) =~= row.push('\r'));
    assert(row.push('\r').drop_last() =~= row);
}

/// A last row without a line feed behind it is a row as well.
pub proof fn the_last_row_needs_no_feed(rows: Seq<Seq<char>>, last: Seq<char>)
    requires
        forall|i: int|
            0 <= i < rows.len() ==> lacks(#[trigger] rows[i], '\n') && (rows[i].len() > 0
                ==> rows[i].last() != '\r'),
        lacks(last, '\n'),
        last.len() > 0,
    ensures
        text_lines(fed_lines(rows) + last) == rows.push(last),
{
    written_lines_read_back(rows);
    last_row_is_read(fed_lines(rows), 0, last);
}

proof fn last_row_is_read(front: Seq<char>, from: int, last: Seq<char>)
    requires
        0 <= from <= front.len(),
        from < front.len() ==> front.last() == '\n',
        lacks(last, '\n'),
        last.len() > 0,
    ensures
        lines_from(front + last, from) == lines_from(front, from).push(last),
    decreases front.len() - from,
{
    let s = front + last;
    find_char_is_first(s, '\n', from);
    if from == front.len() {
        if let Some(i) = find_char(s, '\n', from) {
            assert(s[i] == last[i - front.len()]);
        }
        assert(s.skip(from) =~= last);
        assert(lines_from(front, from).push(last) =~= seq![last]);
    } else {
        find_char_is_first(front, '\n', from);
        assert(front[front.len() - 1] == '\n');
        let i = find_char(front, '\n', from).unwrap();
        assert(s[i] == front[i]);
        let found = find_char(s, '\n', from).unwrap();
        assert(found <= i);
        assert(s[found] == front[found]);
        assert(found == i);
        assert(s.subrange(from, i) =~= front.subrange(from, i));
        last_row_is_read(front, i + 1, last);
        assert(lines_from(s, from) =~= lines_from(front, from).push(last));
    }
}

/// Trimming at one end leaves the other as it is.
pub proof fn trimming_at_one_end(front: Seq<char>, s: Seq<char>)
    requires
        forall|i: int| 0 <= i < front.len() ==> whitespace(#[trigger] front[i]),
    ensures
        s.len() > 0 && !whitespace(s[0]) ==> trim_start(front + s) == s,
        s.len() > 0 && !whitespace(s.last()) ==> trim_end(s + front) == s,
        trim_start(front).len() == 0,
        trim_end(front).len() == 0,
{
    let ws = CharClass::Whitespace;
    skip_class_stops(front + s, ws, 0);
    let at = skip_class(front + s, ws, 0);
    if s.len() > 0 && !whitespace(s[0]) {
        assert((front + s)[front.len() as int] == s[0]);
        if at < front.len() {
            assert((front + s)[at] == front[at]);
        }
        assert((front + s).skip(at) =~= s);
    }
    end_without_stops(s + front, ws);
    let end = end_without(s + front, ws);
    if s.len() > 0 && !whitespace(s.last()) {
        assert((s + front)[s.len() - 1] == s.last());
        if end > s.len() {
            assert((s + front)[end - 1] == front[end - 1 - s.len()]);
        }
        assert((s + front).take(end) =~= s);
    }
    skip_class_stops(front, ws, 0);
    end_without_stops(front, ws);
    if skip_class(front, ws, 0) < front.len() {
        assert(whitespace(front[skip_class(front, ws, 0)]));
    }
    if end_without(front, ws) > 0 {
        assert(whitespace(front[end_without(front, ws) - 1]));
    }
}

} // verus!
