//! Lists of font families as settings hold them and users type them.

use crate::scan::{
    end_without, end_without_stops, skip_class, skip_class_stops, trim, trim_end,
    trim_leaves_no_outer_whitespace, trim_start, trimmed, CharClass,
};
use crate::text::{copy_range, from_chars, push_text, to_chars, texts};
use vstd::prelude::*;

verus! {

/// The operating systems whose monospace fonts differ.
#[derive(Clone, Copy, Debug, PartialEq, Eq, Structural)]
pub enum Platform {
    MacOs,
    Windows,
    Other,
}

pub open spec fn monospace_family(platform: Platform) -> Seq<char> {
    match platform {
        Platform::MacOs => "Menlo"@,
        Platform::Windows => "Consolas"@,
        Platform::Other => "DejaVu Sans Mono"@,
    }
}

fn one(family: &str) -> (families: Vec<String>)
    ensures
        texts(families@) == seq![family@],
{
    let mut families: Vec<String> = Vec::new();
    families.push(family.to_owned());
    assert(texts(families@) =~= seq![family@]);
    families
}

pub fn default_ui_font_families() -> (families: Vec<String>)
    ensures
        texts(families@) == seq![".SystemUIFont"@],
{
    one(".SystemUIFont")
}

pub fn default_monospace_font_families(platform: Platform) -> (families: Vec<String>)
    ensures
        texts(families@) == seq![monospace_family(platform)],
{
    match platform {
        Platform::MacOs => one("Menlo"),
        Platform::Windows => one("Consolas"),
        Platform::Other => one("DejaVu Sans Mono"),
    }
}

pub fn default_lyric_font_families() -> (families: Vec<String>)
    ensures
        texts(families@) == seq![".SystemUIFont"@],
{
    one(".SystemUIFont")
}

/// An ASCII capital as a small letter, and any other character as it is.
pub open spec fn lower(c: char) -> int {
    if 0x41 <= c as u32 <= 0x5a {
        c as int + 32
    } else {
        c as int
    }
}

/// The names differ in nothing but ASCII capitals.
pub open spec fn same_family(a: Seq<char>, b: Seq<char>) -> bool {
    a.len() == b.len() && forall|i: int| 0 <= i < a.len() ==> lower(#[trigger] a[i]) == lower(b[i])
}

fn lower_of(c: char) -> (value: u32)
    ensures
        value == lower(c),
{
    let v: u32 = c as u32;
    if 0x41 <= v && v <= 0x5a {
        v + 32
    } else {
        v
    }
}

fn is_same_family(a: &[char], b: &[char]) -> (result: bool)
    ensures
        result == same_family(a@, b@),
{
    if a.len() != b.len() {
        return false;
    }
    let mut i: usize = 0;
    while i < a.len()
        invariant
            i <= a@.len(),
            a@.len() == b@.len(),
            forall|j: int| 0 <= j < i ==> lower(#[trigger] a@[j]) == lower(b@[j]),
        decreases a.len() - i,
    {
        if lower_of(a[i]) != lower_of(b[i]) {
            return false;
        }
        i += 1;
    }
    true
}

pub open spec fn listed(families: Seq<Seq<char>>, family: Seq<char>) -> bool {
    exists|i: int| 0 <= i < families.len() && same_family(#[trigger] families[i], family)
}

/// The families without outer whitespace, without empty names, and each only once,
/// where it stands first.
pub open spec fn distinct(families: Seq<Seq<char>>) -> Seq<Seq<char>>
    decreases families.len(),
{
    if families.len() == 0 {
        Seq::empty()
    } else {
        let before = distinct(families.drop_last());
        let family = trim(families.last());
        if family.len() > 0 && !listed(before, family) {
            before.push(family)
        } else {
            before
        }
    }
}

/// A list of families that needs no cleaning.
pub open spec fn clean(families: Seq<Seq<char>>) -> bool {
    &&& forall|i: int|
        0 <= i < families.len() ==> (#[trigger] families[i]).len() > 0 && trim(families[i])
            == families[i]
    &&& forall|i: int, j: int|
        0 <= i < j < families.len() ==> !same_family(#[trigger] families[i], #[trigger] families[j])
}

/// Cleaning a list leaves nothing to clean.
pub proof fn distinct_is_clean(families: Seq<Seq<char>>)
    ensures
        clean(distinct(families)),
    decreases families.len(),
{
    if families.len() > 0 {
        distinct_is_clean(families.drop_last());
        trim_leaves_no_outer_whitespace(families.last());
    }
}

/// A clean list stays as it is.
pub proof fn clean_stays(families: Seq<Seq<char>>)
    requires
        clean(families),
    ensures
        distinct(families) == families,
    decreases families.len(),
{
    if families.len() > 0 {
        let rest = families.drop_last();
        assert forall|i: int, j: int| 0 <= i < j < rest.len() implies !same_family(
            #[trigger] rest[i],
            #[trigger] rest[j],
        ) by {
            assert(rest[i] == families[i] && rest[j] == families[j]);
        }
        assert forall|i: int| 0 <= i < rest.len() implies (#[trigger] rest[i]).len() > 0 && trim(
            rest[i],
        ) == rest[i] by {
            assert(rest[i] == families[i]);
        }
        clean_stays(rest);
        let last = families[families.len() - 1];
        assert(!listed(rest, last)) by {
            assert forall|i: int| 0 <= i < rest.len() implies !same_family(
                #[trigger] rest[i],
                last,
            ) by {
                assert(rest[i] == families[i]);
            }
        }
        assert(rest.push(last) =~= families);
    }
}

/// The cleaned list, or the default where nothing is left.
pub open spec fn families_or(families: Seq<Seq<char>>, defaults: Seq<Seq<char>>) -> Seq<Seq<char>> {
    if distinct(families).len() == 0 {
        defaults
    } else {
        distinct(families)
    }
}

pub fn normalize_font_families(families: Vec<String>, defaults: Vec<String>) -> (result: Vec<
    String,
>)
    ensures
        texts(result@) == families_or(texts(families@), texts(defaults@)),
{
    let ghost all = texts(families@);
    let mut kept: Vec<String> = Vec::new();
    let mut i: usize = 0;
    assert(all.take(0) =~= Seq::empty());
    assert(texts(kept@) =~= Seq::empty());
    while i < families.len()
        invariant
            i <= families@.len(),
            all == texts(families@),
            texts(kept@) == distinct(all.take(i as int)),
        decreases families.len() - i,
    {
        assert(all.take(i + 1).drop_last() =~= all.take(i as int));
        assert(all.take(i + 1).last() == families@[i as int]@);
        let chars = to_chars(families[i].as_str());
        let family = trimmed(chars.as_slice());
        if family.len() > 0 && !is_listed(&kept, family) {
            let ghost before = kept@;
            let text = from_chars(family);
            kept.push(text);
            assert(texts(kept@) =~= texts(before).push(text@));
        }
        i += 1;
    }
    assert(all.take(all.len() as int) =~= all);
    if kept.len() == 0 {
        defaults
    } else {
        kept
    }
}

fn is_listed(families: &Vec<String>, family: &[char]) -> (result: bool)
    ensures
        result == listed(texts(families@), family@),
{
    let ghost all = texts(families@);
    let mut i: usize = 0;
    while i < families.len()
        invariant
            i <= families@.len(),
            all == texts(families@),
            forall|j: int| 0 <= j < i ==> !same_family(#[trigger] all[j], family@),
        decreases families.len() - i,
    {
        let existing = to_chars(families[i].as_str());
        assert(all[i as int] == existing@);
        if is_same_family(existing.as_slice(), family) {
            return true;
        }
        i += 1;
    }
    false
}

pub open spec fn separator(c: char) -> bool {
    c == ',' || c == '，'
}

/// The stretches of `s` between its separators, where the first begins at `start`
/// and no separator stands before `at`.
pub open spec fn pieces_between(s: Seq<char>, start: int, at: int) -> Seq<Seq<char>>
    decreases s.len() - at,
{
    if at >= s.len() || at < 0 {
        seq![s.subrange(start, s.len() as int)]
    } else if separator(s[at]) {
        seq![s.subrange(start, at)] + pieces_between(s, at + 1, at + 1)
    } else {
        pieces_between(s, start, at + 1)
    }
}

/// The families that a typed list names, between ASCII or full-width commas.
pub open spec fn typed_families(value: Seq<char>) -> Seq<Seq<char>> {
    distinct(pieces_between(value, 0, 0))
}

pub fn parse_font_families(value: &str) -> (families: Vec<String>)
    ensures
        texts(families@) == typed_families(value@),
{
    let chars = to_chars(value);
    let ghost all = pieces_between(chars@, 0, 0);
    let mut pieces: Vec<String> = Vec::new();
    let mut start: usize = 0;
    let mut at: usize = 0;
    assert(texts(pieces@) + all =~= all);
    while at < chars.len()
        invariant
            start <= at <= chars@.len(),
            texts(pieces@) + pieces_between(chars@, start as int, at as int) == all,
        decreases chars.len() - at,
    {
        let c = chars[at];
        if c == ',' || c == '，' {
            let piece = copy_range(chars.as_slice(), start, at);
            let text = from_chars(piece.as_slice());
            let ghost before = pieces@;
            pieces.push(text);
            proof {
                let rest = pieces_between(chars@, at + 1, at + 1);
                assert(texts(pieces@) =~= texts(before).push(text@));
                assert(texts(pieces@) + rest =~= texts(before) + (seq![text@] + rest));
            }
            start = at + 1;
        }
        at += 1;
    }
    let piece = copy_range(chars.as_slice(), start, at);
    let text = from_chars(piece.as_slice());
    let ghost before = pieces@;
    pieces.push(text);
    assert(texts(pieces@) =~= texts(before) + seq![text@]);
    let none: Vec<String> = Vec::new();
    assert(texts(none@) =~= Seq::empty());
    let families = normalize_font_families(pieces, none);
    proof {
        if distinct(all).len() == 0 {
            assert(distinct(all) =~= Seq::empty());
        }
    }
    families
}

/// The families with `joiner` between each two.
pub open spec fn joined_by(families: Seq<Seq<char>>, joiner: Seq<char>) -> Seq<char>
    decreases families.len(),
{
    if families.len() == 0 {
        Seq::empty()
    } else if families.len() == 1 {
        families[0]
    } else {
        joined_by(families.drop_last(), joiner) + joiner + families.last()
    }
}

/// The families with a comma and a space between each two.
pub open spec fn joined_families(families: Seq<Seq<char>>) -> Seq<char> {
    joined_by(families, ", "@)
}

/// A comma of either width, and any number of spaces behind it.
pub open spec fn is_joiner(joiner: Seq<char>) -> bool {
    joiner.len() > 0 && separator(joiner[0]) && forall|i: int|
        1 <= i < joiner.len() ==> #[trigger] joiner[i] == ' '
}

/// Writes a list of families for an input field.
pub fn join_font_families(families: &Vec<String>) -> (text: String)
    ensures
        text@ == joined_families(texts(families@)),
{
    let ghost all = texts(families@);
    let mut text = String::new();
    let mut i: usize = 0;
    assert(all.take(0) =~= Seq::empty());
    assert(text@ =~= Seq::empty());
    while i < families.len()
        invariant
            i <= families@.len(),
            all == texts(families@),
            text@ == joined_families(all.take(i as int)),
        decreases families.len() - i,
    {
        let ghost before = text@;
        if i > 0 {
            push_text(&mut text, ", ");
        }
        push_text(&mut text, families[i].as_str());
        proof {
            assert(all.take(i + 1).drop_last() =~= all.take(i as int));
            assert(all.take(i + 1).last() == families@[i as int]@);
            if i == 0 {
                assert(all.take(1)[0] == families@[0]@);
                assert(before =~= Seq::empty());
                assert(text@ =~= families@[0]@);
            } else {
                assert(text@ =~= before + ", "@ + families@[i as int]@);
            }
        }
        i += 1;
    }
    assert(all.take(all.len() as int) =~= all);
    text
}

proof fn pieces_skip(s: Seq<char>, start: int, at: int, end: int)
    requires
        0 <= at <= end <= s.len(),
        forall|i: int| at <= i < end ==> !separator(#[trigger] s[i]),
    ensures
        pieces_between(s, start, at) == pieces_between(s, start, end),
    decreases end - at,
{
    if at < end {
        pieces_skip(s, start, at + 1, end);
    }
}

proof fn pieces_of_appended(front: Seq<char>, comma: char, last: Seq<char>, start: int, at: int)
    requires
        separator(comma),
        0 <= start <= at <= front.len(),
        forall|i: int| 0 <= i < last.len() ==> !separator(#[trigger] last[i]),
    ensures
        pieces_between(front.push(comma) + last, start, at) == pieces_between(
            front,
            start,
            at,
        ).push(last),
    decreases front.len() - at,
{
    let s = front.push(comma) + last;
    if at == front.len() {
        let behind = at + 1;
        pieces_skip(s, behind, behind, s.len() as int);
        assert(s.subrange(behind, s.len() as int) =~= last);
        assert(s.subrange(start, at) =~= front.subrange(start, at));
        assert(pieces_between(s, behind, behind) =~= seq![last]);
        assert(pieces_between(s, start, at) =~= pieces_between(front, start, at).push(last));
    } else {
        assert(s[at] == front[at]);
        if separator(front[at]) {
            pieces_of_appended(front, comma, last, at + 1, at + 1);
            assert(s.subrange(start, at) =~= front.subrange(start, at));
            assert(pieces_between(s, start, at) =~= pieces_between(front, start, at).push(last));
        } else {
            pieces_of_appended(front, comma, last, start, at + 1);
        }
    }
}

proof fn distinct_by_trimmed(a: Seq<Seq<char>>, b: Seq<Seq<char>>)
    requires
        a.len() == b.len(),
        forall|i: int| 0 <= i < a.len() ==> trim(#[trigger] a[i]) == trim(b[i]),
    ensures
        distinct(a) == distinct(b),
    decreases a.len(),
{
    if a.len() > 0 {
        assert forall|i: int| 0 <= i < a.len() - 1 implies trim(#[trigger] a.drop_last()[i])
            == trim(b.drop_last()[i]) by {
            assert(a.drop_last()[i] == a[i]);
        }
        distinct_by_trimmed(a.drop_last(), b.drop_last());
        assert(trim(a[a.len() - 1]) == trim(b[b.len() - 1]));
    }
}

proof fn spaces_are_trimmed(spaces: Seq<char>, family: Seq<char>)
    requires
        forall|i: int| 0 <= i < spaces.len() ==> #[trigger] spaces[i] == ' ',
        family.len() > 0,
        trim(family) == family,
    ensures
        trim(spaces + family) == family,
{
    let ws = CharClass::Whitespace;
    let spaced = spaces + family;
    trim_leaves_no_outer_whitespace(family);
    skip_class_stops(spaced, ws, 0);
    let at = skip_class(spaced, ws, 0);
    assert(at == spaces.len()) by {
        if at < spaces.len() {
            assert(spaced[at] == spaces[at]);
            assert(ws.holds(spaced[at]));
        } else if at > spaces.len() {
            assert(ws.holds(spaced[spaces.len() as int]));
            assert(spaced[spaces.len() as int] == family[0]);
        }
    }
    assert(trim_start(spaced) =~= family);
    end_without_stops(family, ws);
    assert(trim_end(family) =~= family) by {
        let end = end_without(family, ws);
        if end < family.len() {
            assert(ws.holds(family[family.len() - 1]));
        }
    }
}

proof fn joined_pieces(families: Seq<Seq<char>>, joiner: Seq<char>) -> (pieces: Seq<Seq<char>>)
    requires
        is_joiner(joiner),
        families.len() > 0,
        clean(families),
        forall|i: int, j: int|
            0 <= i < families.len() && 0 <= j < families[i].len() ==> !separator(
                #[trigger] families[i][j],
            ),
    ensures
        pieces == pieces_between(joined_by(families, joiner), 0, 0),
        pieces.len() == families.len(),
        forall|i: int| 0 <= i < pieces.len() ==> trim(#[trigger] pieces[i]) == families[i],
    decreases families.len(),
{
    let s = joined_by(families, joiner);
    let last = families.last();
    let n = families.len() - 1;
    assert(families[n] == last);
    assert forall|j: int| 0 <= j < last.len() implies !separator(#[trigger] last[j]) by {
        assert(!separator(families[n][j]));
    }
    if families.len() == 1 {
        pieces_skip(s, 0, 0, s.len() as int);
        let pieces = pieces_between(s, 0, 0);
        assert(s.subrange(0, s.len() as int) =~= s);
        pieces
    } else {
        let rest = families.drop_last();
        assert forall|i: int, j: int| 0 <= i < rest.len() && 0 <= j < rest[i].len() implies !separator(
            #[trigger] rest[i][j],
        ) by {
            assert(rest[i] == families[i]);
            assert(!separator(families[i][j]));
        }
        assert(clean(rest)) by {
            assert forall|i: int| 0 <= i < rest.len() implies (#[trigger] rest[i]).len() > 0
                && trim(rest[i]) == rest[i] by {
                assert(rest[i] == families[i]);
            }
            assert forall|i: int, j: int| 0 <= i < j < rest.len() implies !same_family(
                #[trigger] rest[i],
                #[trigger] rest[j],
            ) by {
                assert(rest[i] == families[i] && rest[j] == families[j]);
            }
        }
        let before = joined_pieces(rest, joiner);
        let front = joined_by(rest, joiner);
        let spaces = joiner.skip(1);
        let spaced = spaces + last;
        assert(s =~= front.push(joiner[0]) + spaced);
        assert forall|i: int| 0 <= i < spaced.len() implies !separator(#[trigger] spaced[i]) by {
            if i >= spaces.len() {
                assert(spaced[i] == last[i - spaces.len()]);
            } else {
                assert(spaced[i] == joiner[i + 1]);
            }
        }
        pieces_of_appended(front, joiner[0], spaced, 0, 0);
        assert forall|i: int| 0 <= i < spaces.len() implies #[trigger] spaces[i] == ' ' by {
            assert(spaces[i] == joiner[i + 1]);
        }
        spaces_are_trimmed(spaces, last);
        let pieces = before.push(spaced);
        assert forall|i: int| 0 <= i < pieces.len() implies trim(#[trigger] pieces[i])
            == families[i] by {
            if i < before.len() {
                assert(pieces[i] == before[i]);
                assert(rest[i] == families[i]);
            }
        }
        pieces
    }
}

/// No family holds a comma.
pub open spec fn without_commas(families: Seq<Seq<char>>) -> bool {
    forall|i: int, j: int|
        0 <= i < families.len() && 0 <= j < families[i].len() ==> !separator(
            #[trigger] families[i][j],
        )
}

/// A list of families that is written with commas of either width, with spaces behind
/// them or without, is read as that list again, as long as no name holds a comma.
pub proof fn joined_families_read_back(families: Seq<Seq<char>>, joiner: Seq<char>)
    requires
        clean(families),
        without_commas(families),
        is_joiner(joiner),
    ensures
        typed_families(joined_by(families, joiner)) == families,
{
    if families.len() == 0 {
        let s = joined_by(families, joiner);
        let pieces = pieces_between(s, 0, 0);
        assert(s.subrange(0, 0) =~= Seq::empty());
        assert(pieces =~= seq![Seq::<char>::empty()]);
        assert(trim(Seq::<char>::empty()) =~= Seq::empty());
        assert(pieces.drop_last() =~= Seq::empty());
        assert(pieces.last() == Seq::<char>::empty());
        assert(distinct(pieces.drop_last()) == Seq::<Seq<char>>::empty());
        assert(distinct(pieces) == Seq::<Seq<char>>::empty());
        assert(families =~= Seq::empty());
    } else {
        let pieces = joined_pieces(families, joiner);
        assert forall|i: int| 0 <= i < pieces.len() implies trim(#[trigger] pieces[i]) == trim(
            families[i],
        ) by {}
        distinct_by_trimmed(pieces, families);
        clean_stays(families);
    }
}

/// What a field shows for a list of families is read as that list again, as long as no
/// name holds a comma.
pub proof fn shown_families_read_back(families: Seq<Seq<char>>)
    requires
        clean(families),
        without_commas(families),
    ensures
        typed_families(joined_families(families)) == families,
{
    reveal_strlit(", ");
    assert(is_joiner(", "@));
    joined_families_read_back(families, ", "@);
}

proof fn pieces_without_commas(s: Seq<char>, start: int, at: int)
    requires
        0 <= start <= at <= s.len(),
        forall|i: int| start <= i < at ==> !separator(#[trigger] s[i]),
    ensures
        without_commas(pieces_between(s, start, at)),
    decreases s.len() - at,
{
    let pieces = pieces_between(s, start, at);
    if at == s.len() {
        assert forall|i: int, j: int| 0 <= i < pieces.len() && 0 <= j < pieces[i].len() implies !separator(
            #[trigger] pieces[i][j],
        ) by {
            assert(pieces[i][j] == s[start + j]);
        }
    } else if separator(s[at]) {
        let rest = pieces_between(s, at + 1, at + 1);
        pieces_without_commas(s, at + 1, at + 1);
        assert forall|i: int, j: int| 0 <= i < pieces.len() && 0 <= j < pieces[i].len() implies !separator(
            #[trigger] pieces[i][j],
        ) by {
            if i == 0 {
                assert(pieces[i][j] == s[start + j]);
            } else {
                assert(pieces[i] == rest[i - 1]);
                assert(!separator(rest[i - 1][j]));
            }
        }
    } else {
        pieces_without_commas(s, start, at + 1);
    }
}

proof fn trimming_adds_nothing(s: Seq<char>) -> (from: int)
    ensures
        0 <= from,
        from + trim(s).len() <= s.len(),
        trim(s) == s.subrange(from, from + trim(s).len()),
{
    let ws = CharClass::Whitespace;
    skip_class_stops(s, ws, 0);
    let from = skip_class(s, ws, 0);
    let inner = trim_start(s);
    end_without_stops(inner, ws);
    assert(trim(s) =~= s.subrange(from, from + trim(s).len()));
    from
}

proof fn distinct_without_commas(families: Seq<Seq<char>>)
    requires
        without_commas(families),
    ensures
        without_commas(distinct(families)),
    decreases families.len(),
{
    if families.len() > 0 {
        let rest = families.drop_last();
        let n = families.len() - 1;
        assert forall|i: int, j: int| 0 <= i < rest.len() && 0 <= j < rest[i].len() implies !separator(
            #[trigger] rest[i][j],
        ) by {
            assert(!separator(families[i][j]));
        }
        distinct_without_commas(rest);
        let last = families.last();
        let from = trimming_adds_nothing(last);
        let all = distinct(families);
        assert forall|i: int, j: int| 0 <= i < all.len() && 0 <= j < all[i].len() implies !separator(
            #[trigger] all[i][j],
        ) by {
            if i < distinct(rest).len() {
                assert(all[i] == distinct(rest)[i]);
                assert(!separator(distinct(rest)[i][j]));
            } else {
                assert(all[i] == trim(last));
                assert(all[i][j] == last[from + j]);
                assert(!separator(families[n][from + j]));
            }
        }
    }
}

/// What was read is read again as the same list, with whichever comma it is written.
pub proof fn typed_families_read_back(value: Seq<char>, joiner: Seq<char>)
    requires
        is_joiner(joiner),
    ensures
        typed_families(joined_by(typed_families(value), joiner)) == typed_families(value),
{
    let pieces = pieces_between(value, 0, 0);
    pieces_without_commas(value, 0, 0);
    distinct_without_commas(pieces);
    distinct_is_clean(pieces);
    joined_families_read_back(typed_families(value), joiner);
}

/// A typed list that is written again with the comma, the full-width comma, or the comma
/// and a space is read as the same list.
pub proof fn rewritten_families_read_back(value: Seq<char>)
    ensures
        typed_families(joined_by(typed_families(value), ","@)) == typed_families(value),
        typed_families(joined_by(typed_families(value), "，"@)) == typed_families(value),
        typed_families(joined_by(typed_families(value), ", "@)) == typed_families(value),
{
    reveal_strlit(",");
    reveal_strlit("，");
    reveal_strlit(", ");
    typed_families_read_back(value, ","@);
    typed_families_read_back(value, "，"@);
    typed_families_read_back(value, ", "@);
}

/// Names of families are the same where they differ in ASCII capitals alone.
pub proof fn capitals_make_no_other_family(a: char, b: char)
    ensures
        same_family(seq![a], seq![b]) <==> a == b || ('A' <= a <= 'Z' && b as u32 == a as u32 + 32)
            || ('A' <= b <= 'Z' && a as u32 == b as u32 + 32),
{
    let one = seq![a];
    let other = seq![b];
    assert(one[0] == a && other[0] == b);
    if same_family(one, other) {
        assert(lower(one[0]) == lower(other[0]));
    }
}

/// Two names are the same where their characters are, one by one.
pub proof fn families_are_the_same_char_by_char(a: Seq<char>, b: Seq<char>, x: char, y: char)
    ensures
        same_family(a.push(x), b.push(y)) <==> same_family(a, b) && same_family(seq![x], seq![y]),
        same_family(Seq::empty(), b) <==> b.len() == 0,
{
    let p = a.push(x);
    let q = b.push(y);
    if same_family(p, q) {
        assert(lower(p[a.len() as int]) == lower(q[b.len() as int]));
        assert forall|i: int| 0 <= i < a.len() implies lower(#[trigger] a[i]) == lower(b[i]) by {
            assert(p[i] == a[i] && q[i] == b[i]);
        }
    }
    if same_family(a, b) && same_family(seq![x], seq![y]) {
        assert(lower(seq![x][0]) == lower(seq![y][0]));
        assert forall|i: int| 0 <= i < p.len() implies lower(#[trigger] p[i]) == lower(q[i]) by {
            if i < a.len() {
                assert(p[i] == a[i] && q[i] == b[i]);
            }
        }
    }
}

/// A list is cleaned name by name: one more is added without the whitespace around it,
/// unless it is blank or the list has it.
pub proof fn names_are_added_once(families: Seq<Seq<char>>, family: Seq<char>)
    ensures
        distinct(Seq::empty()) == Seq::<Seq<char>>::empty(),
        ({
            let before = distinct(families);
            let known = exists|i: int|
                0 <= i < before.len() && same_family(#[trigger] before[i], trim(family));
            distinct(families.push(family)) == (if trim(family).len() > 0 && !known {
                before.push(trim(family))
            } else {
                before
            })
        }),
{
    assert(families.push(family).drop_last() =~= families);
}

/// The usual families take the place of a list with nothing in it alone.
pub proof fn an_empty_list_becomes_the_usual_one(families: Seq<Seq<char>>, usual: Seq<Seq<char>>)
    requires
        usual.len() > 0,
    ensures
        families_or(families, usual).len() > 0,
        distinct(families).len() > 0 ==> families_or(families, usual) == distinct(families),
        distinct(families).len() == 0 ==> families_or(families, usual) == usual,
{
}

} // verus!
