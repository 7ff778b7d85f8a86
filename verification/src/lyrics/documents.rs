//! What a document says that carries lyrics: laws on documents that are written out.

use crate::lyrics::markup::{
    document_content, document_steps, first_content, keyed_text, Meaning,
};
use crate::lyrics::relaxed::{
    attribute_head, closing_quote, content_found, decoded, entity_char, find_part, lyric_attribute,
    provider_content, reference_number, tag_ends, tagged_content, tail_valid, Head,
};
use crate::number::{numeral, numerals_are_short, written_number_reads_back};
use crate::scan::{
    find_char, find_char_is_first, lacks, skip_class, skip_class_stops, trim_start, CharClass,
};
use crate::text::ascii_alphanumeric;
use vstd::prelude::*;
use vstd::utf8::{encode_utf8, is_scalar};

verus! {

/// The five named entities stand for their characters.
pub proof fn named_entities_stand_for_characters()
    ensures
        entity_char(seq!['a', 'm', 'p']) == Some('&'),
        entity_char(seq!['a', 'p', 'o', 's']) == Some('\''),
        entity_char(seq!['g', 't']) == Some('>'),
        entity_char(seq!['l', 't']) == Some('<'),
        entity_char(seq!['q', 'u', 'o', 't']) == Some('"'),
{
    reveal_strlit("amp");
    reveal_strlit("apos");
    reveal_strlit("gt");
    reveal_strlit("lt");
    reveal_strlit("quot");
    assert("amp"@ =~= seq!['a', 'm', 'p']);
    assert("apos"@ =~= seq!['a', 'p', 'o', 's']);
    assert("gt"@ =~= seq!['g', 't']);
    assert("lt"@ =~= seq!['l', 't']);
    assert("quot"@ =~= seq!['q', 'u', 'o', 't']);
    assert("gt"@[0] == 'g' && "lt"@[0] == 'l');
}

proof fn references_are_no_names(entity: Seq<char>)
    requires
        entity.len() > 0,
        entity[0] == '#',
    ensures
        entity_char(entity) == (match reference_number(entity) {
            Some(n) if is_scalar(n as u32) => Some((n as u32) as char),
            _ => None,
        }),
{
    reveal_strlit("amp");
    reveal_strlit("apos");
    reveal_strlit("gt");
    reveal_strlit("lt");
    reveal_strlit("quot");
    assert("amp"@[0] == 'a' && "apos"@[0] == 'a' && "gt"@[0] == 'g' && "lt"@[0] == 'l'
        && "quot"@[0] == 'q');
}

/// A number behind `#` or, in base sixteen, behind `#x` stands for the character that has
/// that number.
pub proof fn numbers_stand_for_characters(n: nat)
    requires
        n <= 0x10_ffff,
        !(0xd800 <= n <= 0xdfff),
    ensures
        entity_char(seq!['#'] + numeral(n, 10)) == Some((n as u32) as char),
        entity_char(seq!['#', 'x'] + numeral(n, 16)) == Some((n as u32) as char),
        entity_char(seq!['#', 'X'] + numeral(n, 16)) == Some((n as u32) as char),
{
    written_number_reads_back(n, 10, u32::MAX as nat);
    written_number_reads_back(n, 16, u32::MAX as nat);
    numerals_are_short(n);
    let ten = seq!['#'] + numeral(n, 10);
    assert(ten.skip(1) =~= numeral(n, 10));
    assert(ten[0] == '#');
    assert('0' <= numeral(n, 10)[0] <= '9');
    assert(ten[1] == numeral(n, 10)[0]);
    let small = seq!['#', 'x'] + numeral(n, 16);
    assert(small.skip(2) =~= numeral(n, 16));
    let large = seq!['#', 'X'] + numeral(n, 16);
    assert(large.skip(2) =~= numeral(n, 16));
    references_are_no_names(ten);
    references_are_no_names(small);
    references_are_no_names(large);
}

/// Resolving entities goes through a text from the front: a character that is no
/// ampersand stays, an entity becomes its character, and an ampersand that starts none
/// stays.
pub proof fn decoding_goes_from_the_front(before: Seq<char>, c: char, entity: Seq<char>, rest: Seq<char>)
    requires
        lacks(entity, ';'),
    ensures
        c != '&' ==> decoded(before.push(c) + rest, before.len() as int) == seq![c] + decoded(
            before.push(c) + rest,
            before.len() as int + 1,
        ),
        ({
            let s = before.push('&') + (entity.push(';') + rest);
            let from = before.len() as int;
            match entity_char(entity) {
                Some(found) => decoded(s, from) == seq![found] + decoded(
                    s,
                    from + entity.len() + 2,
                ),
                None => decoded(s, from) == seq!['&'] + decoded(s, from + 1),
            }
        }),
        lacks(rest, ';') ==> decoded(before.push('&') + rest, before.len() as int) == seq!['&']
            + rest,
        decoded(before, before.len() as int) == Seq::<char>::empty(),
{
    let from = before.len() as int;
    if c != '&' {
        let s = before.push(c) + rest;
        find_char_is_first(s, '&', from);
        find_char_is_first(s, '&', from + 1);
        assert(s[from] == c);
        assert(find_char(s, '&', from) == find_char(s, '&', from + 1));
        assert(s.skip(from) =~= seq![c] + s.skip(from + 1));
        if let Some(start) = find_char(s, '&', from) {
            find_char_is_first(s, ';', start + 1);
            assert(s.subrange(from, start) =~= seq![c] + s.subrange(from + 1, start));
            if let Some(end) = find_char(s, ';', start + 1) {
                assert(s.subrange(from, start + 1) =~= seq![c] + s.subrange(from + 1, start + 1));
                match entity_char(s.subrange(start + 1, end)) {
                    Some(found) => {
                        assert(decoded(s, from) =~= seq![c] + (s.subrange(from + 1, start).push(
                            found,
                        ) + decoded(s, end + 1)));
                    },
                    None => {
                        assert(decoded(s, from) =~= seq![c] + (s.subrange(from + 1, start + 1)
                            + decoded(s, start + 1)));
                    },
                }
            }
        }
    }
    let s = before.push('&') + (entity.push(';') + rest);
    assert(s[from] == '&');
    assert(find_char(s, '&', from) == Some(from));
    let end = from + 1 + entity.len();
    find_char_is_first(s, ';', from + 1);
    assert(s[end] == ';');
    let found = find_char(s, ';', from + 1).unwrap();
    if found < end {
        assert(s[found] == entity[found - from - 1]);
    }
    assert(found == end);
    assert(s.subrange(from + 1, end) =~= entity);
    assert(s.subrange(from, from) =~= Seq::empty());
    assert(s.subrange(from, from + 1) =~= seq!['&']);
    if let Some(one) = entity_char(entity) {
        assert(Seq::<char>::empty().push(one) =~= seq![one]);
    }
    if lacks(rest, ';') {
        let t = before.push('&') + rest;
        assert(find_char(t, '&', from) == Some(from)) by {
            assert(t[from] == '&');
        }
        find_char_is_first(t, ';', from + 1);
        if let Some(at) = find_char(t, ';', from + 1) {
            assert(t[at] == rest[at - from - 1]);
        }
        assert(t.skip(from) =~= seq!['&'] + rest);
    }
    assert(before.skip(from) =~= Seq::empty());
    assert(find_char(before, '&', from) is None);
}

/// The character as it is written where its own sign has a meaning.
pub open spec fn escaped_char(c: char) -> Seq<char> {
    if c == '&' {
        seq!['&', 'a', 'm', 'p', ';']
    } else if c == '<' {
        seq!['&', 'l', 't', ';']
    } else if c == '>' {
        seq!['&', 'g', 't', ';']
    } else if c == '"' {
        seq!['&', 'q', 'u', 'o', 't', ';']
    } else if c == '\'' {
        seq!['&', 'a', 'p', 'o', 's', ';']
    } else {
        seq![c]
    }
}

pub open spec fn escaped(s: Seq<char>) -> Seq<char>
    decreases s.len(),
{
    if s.len() == 0 {
        Seq::empty()
    } else {
        escaped_char(s[0]) + escaped(s.drop_first())
    }
}

proof fn sign_is_an_entity(c: char) -> (entity: Seq<char>)
    requires
        escaped_char(c).len() > 1,
    ensures
        escaped_char(c) == seq!['&'] + entity.push(';'),
        lacks(entity, ';'),
        entity_char(entity) == Some(c),
{
    named_entities_stand_for_characters();
    if c == '&' {
        three_letters('a', 'm', 'p');
        seq!['a', 'm', 'p']
    } else if c == '<' {
        two_letters('l', 't');
        seq!['l', 't']
    } else if c == '>' {
        two_letters('g', 't');
        seq!['g', 't']
    } else if c == '"' {
        four_letters('q', 'u', 'o', 't');
        seq!['q', 'u', 'o', 't']
    } else {
        four_letters('a', 'p', 'o', 's');
        seq!['a', 'p', 'o', 's']
    }
}

proof fn two_letters(a: char, b: char)
    ensures
        seq!['&', a, b, ';'] == seq!['&'] + seq![a, b].push(';'),
{
    assert(seq!['&', a, b, ';'] =~= seq!['&'] + seq![a, b].push(';'));
}

proof fn three_letters(a: char, b: char, c: char)
    ensures
        seq!['&', a, b, c, ';'] == seq!['&'] + seq![a, b, c].push(';'),
{
    assert(seq!['&', a, b, c, ';'] =~= seq!['&'] + seq![a, b, c].push(';'));
}

proof fn four_letters(a: char, b: char, c: char, d: char)
    ensures
        seq!['&', a, b, c, d, ';'] == seq!['&'] + seq![a, b, c, d].push(';'),
{
    assert(seq!['&', a, b, c, d, ';'] =~= seq!['&'] + seq![a, b, c, d].push(';'));
}

proof fn sign_is_read(before: Seq<char>, c: char, rest: Seq<char>)
    ensures
        decoded(before + escaped_char(c) + rest, before.len() as int) == seq![c] + decoded(
            before + escaped_char(c) + rest,
            (before.len() + escaped_char(c).len()) as int,
        ),
{
    let sign = escaped_char(c);
    if sign.len() > 1 {
        let entity = sign_is_an_entity(c);
        decoding_goes_from_the_front(before, c, entity, rest);
        assert(before.push('&') + (entity.push(';') + rest) =~= before + sign + rest);
    } else {
        assert(sign == seq![c]);
        decoding_goes_from_the_front(before, c, Seq::empty(), rest);
        assert(before.push(c) + rest =~= before + sign + rest);
    }
}

proof fn escaped_reads_back(before: Seq<char>, s: Seq<char>)
    ensures
        decoded(before + escaped(s), before.len() as int) == s,
    decreases s.len(),
{
    let all = before + escaped(s);
    if s.len() == 0 {
        assert(all =~= before);
        decoding_goes_from_the_front(before, 'x', Seq::empty(), Seq::empty());
        assert(s =~= Seq::empty());
    } else {
        let rest = escaped(s.drop_first());
        let next = before + escaped_char(s[0]);
        sign_is_read(before, s[0], rest);
        escaped_reads_back(next, s.drop_first());
        assert(next + rest =~= all);
        assert(seq![s[0]] + s.drop_first() =~= s);
    }
}

/// A text whose special characters are written as entities is read as it was.
pub proof fn escaped_text_reads_back(s: Seq<char>)
    ensures
        decoded(escaped(s), 0) == s,
{
    escaped_reads_back(Seq::empty(), s);
    assert(Seq::<char>::empty() + escaped(s) =~= escaped(s));
}

/// A name and a value of a tag, with the whitespace in front of it and around its equals
/// sign, and the quote that its value stands in.
pub struct Attribute {
    pub front: Seq<char>,
    pub name: Seq<char>,
    pub before: Seq<char>,
    pub behind: Seq<char>,
    pub quote: char,
    pub value: Seq<char>,
}

pub open spec fn name_char(c: char) -> bool {
    ascii_alphanumeric(c) || c == '_' || c == '-' || c == '.' || c == ':'
}

/// Spaces, tabs, and the ends of lines and pages.
pub open spec fn blank(s: Seq<char>) -> bool {
    forall|i: int|
        0 <= i < s.len() ==> #[trigger] s[i] == ' ' || s[i] == '\t' || s[i] == '\n' || s[i]
            == '\u{c}' || s[i] == '\r'
}

impl Attribute {
    pub open spec fn head(self) -> Seq<char> {
        self.front + self.name + self.before.push('=') + self.behind.push(self.quote)
    }

    pub open spec fn written(self) -> Seq<char> {
        self.head() + self.value.push(self.quote)
    }

    pub open spec fn head_wf(self) -> bool {
        &&& self.front.len() > 0
        &&& blank(self.front) && blank(self.before) && blank(self.behind)
        &&& self.name.len() > 0
        &&& forall|i: int| 0 <= i < self.name.len() ==> name_char(#[trigger] self.name[i])
        &&& self.quote == '"' || self.quote == '\''
    }

    /// The value does not hold its quote.
    pub open spec fn wf(self) -> bool {
        self.head_wf() && lacks(self.value, self.quote)
    }

    /// The value may hold its quote, as long as nothing in it looks like an attribute or the
    /// end of a tag.
    pub open spec fn loose_wf(self) -> bool {
        self.head_wf() && (lacks(self.value, self.quote) || (lacks(self.value, '=') && lacks(
            self.value,
            '>',
        )))
    }
}

pub open spec fn all_written(attributes: Seq<Attribute>) -> Seq<char>
    decreases attributes.len(),
{
    if attributes.len() == 0 {
        Seq::empty()
    } else {
        attributes[0].written() + all_written(attributes.drop_first())
    }
}

proof fn run_is_skipped(s: Seq<char>, class: CharClass, from: int, to: int)
    requires
        0 <= from <= to < s.len(),
        forall|i: int| from <= i < to ==> class.holds(#[trigger] s[i]),
        !class.holds(s[to]),
    ensures
        skip_class(s, class, from) == to,
{
    skip_class_stops(s, class, from);
    let at = skip_class(s, class, from);
    if at < to {
        assert(class.holds(s[at]));
    } else if at > to {
        assert(class.holds(s[to]));
    }
}

proof fn blanks_are_skipped(s: Seq<char>, from: int, blanks: Seq<char>)
    requires
        blank(blanks),
        0 <= from,
        from + blanks.len() < s.len(),
        s.subrange(from, from + blanks.len()) == blanks,
        !CharClass::AsciiWhitespace.holds(s[from + blanks.len()]),
    ensures
        skip_class(s, CharClass::AsciiWhitespace, from) == from + blanks.len(),
{
    let to = from + blanks.len();
    assert forall|i: int| from <= i < to implies CharClass::AsciiWhitespace.holds(
        #[trigger] s[i],
    ) by {
        assert(s[i] == blanks[i - from]);
    }
    run_is_skipped(s, CharClass::AsciiWhitespace, from, to);
}

proof fn parts_of_head(before: Seq<char>, attribute: Attribute, rest: Seq<char>)
    ensures
        ({
            let s = before + (attribute.head() + rest);
            let at = before.len() as int;
            let name = at + attribute.front.len();
            let name_end = name + attribute.name.len();
            let equals = name_end + attribute.before.len();
            let quote = equals + 1 + attribute.behind.len();
            &&& s.subrange(at, name) == attribute.front
            &&& s.subrange(name, name_end) == attribute.name
            &&& s.subrange(name_end, equals) == attribute.before
            &&& s[equals] == '='
            &&& s.subrange(equals + 1, quote) == attribute.behind
            &&& s[quote] == attribute.quote
            &&& quote + 1 == at + attribute.head().len()
            &&& quote < s.len()
        }),
{
    let s = before + (attribute.head() + rest);
    let at = before.len() as int;
    let name = at + attribute.front.len();
    let name_end = name + attribute.name.len();
    let equals = name_end + attribute.before.len();
    let quote = equals + 1 + attribute.behind.len();
    assert(s.subrange(at, name) =~= attribute.front);
    assert(s.subrange(name, name_end) =~= attribute.name);
    assert(s.subrange(name_end, equals) =~= attribute.before);
    assert(s.subrange(equals + 1, quote) =~= attribute.behind);
}

proof fn head_is_read(before: Seq<char>, attribute: Attribute, rest: Seq<char>)
    requires
        attribute.head_wf(),
    ensures
        ({
            let s = before + (attribute.head() + rest);
            let at = before.len() as int;
            let name = at + attribute.front.len();
            &&& skip_class(s, CharClass::AsciiWhitespace, at) == name
            &&& name < s.len()
            &&& !tag_ends(s, name)
            &&& attribute_head(s, name) == Some(
                Head {
                    name: attribute.name,
                    quote: attribute.quote,
                    value: at + attribute.head().len(),
                },
            )
        }),
{
    let s = before + (attribute.head() + rest);
    let at = before.len() as int;
    let name = at + attribute.front.len();
    let name_end = name + attribute.name.len();
    let equals = name_end + attribute.before.len();
    let quote = equals + 1 + attribute.behind.len();
    parts_of_head(before, attribute, rest);
    assert forall|i: int| name <= i < name_end implies name_char(#[trigger] s[i]) by {
        assert(s[i] == s.subrange(name, name_end)[i - name]);
        assert(name_char(attribute.name[i - name]));
    }
    assert(name_char(s[name]));
    blanks_are_skipped(s, at, attribute.front);
    assert(!name_char(s[name_end])) by {
        if attribute.before.len() > 0 {
            assert(s[name_end] == s.subrange(name_end, equals)[0]);
            assert(attribute.before[0] != 'x');
        }
    }
    assert forall|i: int| name <= i < name_end implies CharClass::XmlName.holds(
        #[trigger] s[i],
    ) by {
        assert(name_char(s[i]));
    }
    run_is_skipped(s, CharClass::XmlName, name, name_end);
    blanks_are_skipped(s, name_end, attribute.before);
    blanks_are_skipped(s, equals + 1, attribute.behind);
}

/// An attribute in front of the lyrics is passed over.
proof fn other_is_passed(before: Seq<char>, attribute: Attribute, rest: Seq<char>)
    requires
        attribute.wf(),
        attribute.name != "LyricContent"@,
    ensures
        ({
            let s = before + (attribute.written() + rest);
            lyric_attribute(s, before.len() as int) == lyric_attribute(
                s,
                (before.len() + attribute.written().len()) as int,
            )
        }),
{
    let s = before + (attribute.written() + rest);
    let at = before.len() as int;
    value_is_closed(before, attribute, rest);
    head_is_read(before, attribute, attribute.value.push(attribute.quote) + rest);
    assert(s =~= before + (attribute.head() + (attribute.value.push(attribute.quote) + rest)));
}

proof fn value_is_closed(before: Seq<char>, attribute: Attribute, rest: Seq<char>)
    requires
        attribute.wf(),
    ensures
        find_char(
            before + (attribute.written() + rest),
            attribute.quote,
            (before.len() + attribute.head().len()) as int,
        ) == Some(before.len() + attribute.written().len() - 1),
{
    let s = before + (attribute.written() + rest);
    let value = (before.len() + attribute.head().len()) as int;
    find_char_is_first(s, attribute.quote, value);
    let end = value + attribute.value.len();
    assert(s[end] == attribute.quote);
    let found = find_char(s, attribute.quote, value).unwrap();
    if found < end {
        assert(s[found] == attribute.value[found - value]);
    }
}

/// A quote in a value without an equals sign and an angle bracket does not end it.
proof fn inner_quote_does_not_close(
    before: Seq<char>,
    value: Seq<char>,
    quote: char,
    rest: Seq<char>,
    at: int,
)
    requires
        quote == '"' || quote == '\'',
        lacks(value, '='),
        lacks(value, '>'),
        0 <= at < value.len(),
        value[at] == quote,
    ensures
        !tail_valid(before + (value.push(quote) + rest), before.len() + at + 1),
{
    let s = before + (value.push(quote) + rest);
    let from = before.len() as int + at + 1;
    let last = before.len() as int + value.len();
    let ws = CharClass::AsciiWhitespace;
    assert(s[last] == quote);
    skip_class_stops(s, ws, from);
    let next = skip_class(s, ws, from);
    assert(next <= last) by {
        if next > last {
            assert(ws.holds(s[last]));
        }
    }
    assert forall|i: int| from <= i <= last implies s[i] != '=' && s[i] != '>' by {
        if i < last {
            assert(s[i] == value[i - before.len()]);
        }
    }
    assert(s[next] != '>');
    assert(!tag_ends(s, next)) by {
        if s[next] == '/' {
            assert(next < last);
            assert(s[next + 1] != '>');
        }
    }
    skip_class_stops(s, CharClass::XmlName, next);
    let name_end = skip_class(s, CharClass::XmlName, next);
    assert(name_end <= last) by {
        if name_end > last {
            assert(CharClass::XmlName.holds(s[last]));
        }
    }
    skip_class_stops(s, ws, name_end);
    let equals = skip_class(s, ws, name_end);
    assert(equals <= last) by {
        if equals > last {
            assert(ws.holds(s[last]));
        }
    }
    assert(s[equals] != '=');
    assert(attribute_head(s, next) is None);
}

/// The end of a tag, with whitespace in front of it.
pub open spec fn is_tag_end(end: Seq<char>) -> bool {
    ||| end.len() >= 1 && end.last() == '>' && blank(end.drop_last())
    ||| end.len() >= 2 && end.last() == '>' && end[end.len() - 2] == '/' && blank(
        end.take(end.len() - 2),
    )
}

proof fn tag_end_is_valid(before: Seq<char>, end: Seq<char>, rest: Seq<char>)
    requires
        is_tag_end(end),
    ensures
        tail_valid(before + (end + rest), before.len() as int),
{
    let s = before + (end + rest);
    let at = before.len() as int;
    if blank(end.drop_last()) {
        assert(s.subrange(at, at + end.len() - 1) =~= end.drop_last());
        assert(s[at + end.len() - 1] == '>');
        blanks_are_skipped(s, at, end.drop_last());
    } else {
        assert(s.subrange(at, at + end.len() - 2) =~= end.take(end.len() - 2));
        assert(s[at + end.len() - 2] == '/' && s[at + end.len() - 1] == '>');
        blanks_are_skipped(s, at, end.take(end.len() - 2));
    }
}

proof fn tail_is_valid(
    before: Seq<char>,
    attributes: Seq<Attribute>,
    end: Seq<char>,
    rest: Seq<char>,
)
    requires
        forall|i: int| 0 <= i < attributes.len() ==> (#[trigger] attributes[i]).wf(),
        is_tag_end(end),
    ensures
        tail_valid(before + (all_written(attributes) + (end + rest)), before.len() as int),
    decreases attributes.len(),
{
    let s = before + (all_written(attributes) + (end + rest));
    if attributes.len() == 0 {
        assert(s =~= before + (end + rest));
        tag_end_is_valid(before, end, rest);
    } else {
        let first = attributes[0];
        let others = attributes.drop_first();
        assert(first.wf());
        let after = all_written(others) + (end + rest);
        assert(s =~= before + (first.written() + after));
        assert(s =~= before + (first.head() + (first.value.push(first.quote) + after)));
        head_is_read(before, first, first.value.push(first.quote) + after);
        value_is_closed(before, first, after);
        assert forall|i: int| 0 <= i < others.len() implies (#[trigger] others[i]).wf() by {
            assert(others[i] == attributes[i + 1]);
        }
        let next = before + first.written();
        tail_is_valid(next, others, end, rest);
        assert(next + after =~= s);
    }
}

/// The rest of a tag is quoted attributes and its end; what breaks off within a quote, or
/// goes on without one, is none.
pub proof fn tags_end_behind_quoted_attributes(
    before: Seq<char>,
    attributes: Seq<Attribute>,
    end: Seq<char>,
    rest: Seq<char>,
    open: Attribute,
    text: char,
)
    requires
        forall|i: int| 0 <= i < attributes.len() ==> (#[trigger] attributes[i]).wf(),
        is_tag_end(end),
        open.head_wf(),
        lacks(open.value, open.quote),
        !name_char(text) && text != '>' && text != '/' && !blank(seq![text]),
    ensures
        tail_valid(before + (all_written(attributes) + (end + rest)), before.len() as int),
        !tail_valid(before + (open.head() + open.value), before.len() as int),
        !tail_valid(before + (seq![text] + rest), before.len() as int),
        !tail_valid(before, before.len() as int),
{
    tail_is_valid(before, attributes, end, rest);
    let s = before + (open.head() + open.value);
    head_is_read(before, open, open.value);
    let value = (before.len() + open.head().len()) as int;
    find_char_is_first(s, open.quote, value);
    if let Some(found) = find_char(s, open.quote, value) {
        assert(s[found] == open.value[found - value]);
    }
    let t = before + (seq![text] + rest);
    let at = before.len() as int;
    assert(t[at] == text);
    assert(seq![text][0] == text);
    assert(!CharClass::AsciiWhitespace.holds(text)) by {
        if CharClass::AsciiWhitespace.holds(text) {
            assert(blank(seq![text]));
        }
    }
    run_is_skipped(t, CharClass::AsciiWhitespace, at, at);
    run_is_skipped(t, CharClass::XmlName, at, at);
    assert(skip_class(before, CharClass::AsciiWhitespace, at) == at);
    assert(skip_class(before, CharClass::XmlName, at) == at);
}

proof fn outer_quote_closes(
    before: Seq<char>,
    lyrics: Attribute,
    attributes: Seq<Attribute>,
    end: Seq<char>,
    rest: Seq<char>,
    from: int,
)
    requires
        lyrics.loose_wf(),
        forall|i: int| 0 <= i < attributes.len() ==> (#[trigger] attributes[i]).wf(),
        is_tag_end(end),
        0 <= from <= lyrics.value.len(),
    ensures
        closing_quote(
            before + (lyrics.value.push(lyrics.quote) + (all_written(attributes) + (end + rest))),
            lyrics.quote,
            before.len() + from,
        ) == Some(before.len() + lyrics.value.len() as int),
    decreases lyrics.value.len() - from,
{
    let value = lyrics.value;
    let quote = lyrics.quote;
    let behind = all_written(attributes) + (end + rest);
    let s = before + (value.push(quote) + behind);
    let start = before.len() as int + from;
    let last = before.len() as int + value.len();
    assert(s[last] == quote);
    let front = before + value.push(quote);
    tail_is_valid(front, attributes, end, rest);
    assert(front + behind =~= s);
    find_char_is_first(s, quote, start);
    let found = find_char(s, quote, start).unwrap();
    assert(found <= last);
    if found < last {
        let at = found - before.len();
        assert(s[found] == value[at]);
        inner_quote_does_not_close(before, value, quote, behind, at);
        outer_quote_closes(before, lyrics, attributes, end, rest, at + 1);
    }
}

proof fn lyrics_are_found(
    before: Seq<char>,
    lyrics: Attribute,
    attributes: Seq<Attribute>,
    end: Seq<char>,
    rest: Seq<char>,
)
    requires
        lyrics.loose_wf(),
        lyrics.name == "LyricContent"@,
        forall|i: int| 0 <= i < attributes.len() ==> (#[trigger] attributes[i]).wf(),
        is_tag_end(end),
    ensures
        lyric_attribute(
            before + (lyrics.written() + (all_written(attributes) + (end + rest))),
            before.len() as int,
        ) == Some(lyrics.value),
{
    let behind = all_written(attributes) + (end + rest);
    let s = before + (lyrics.written() + behind);
    let inner = lyrics.value.push(lyrics.quote) + behind;
    assert(s =~= before + (lyrics.head() + inner));
    head_is_read(before, lyrics, inner);
    let front = before + lyrics.head();
    assert(s =~= front + inner);
    outer_quote_closes(front, lyrics, attributes, end, rest, 0);
    let start = front.len() as int;
    assert(s.subrange(start, start + lyrics.value.len()) =~= lyrics.value);
}

proof fn lyrics_are_found_behind(
    before: Seq<char>,
    others: Seq<Attribute>,
    lyrics: Attribute,
    attributes: Seq<Attribute>,
    end: Seq<char>,
    rest: Seq<char>,
)
    requires
        forall|i: int|
            0 <= i < others.len() ==> (#[trigger] others[i]).wf() && others[i].name
                != "LyricContent"@,
        lyrics.loose_wf(),
        lyrics.name == "LyricContent"@,
        forall|i: int| 0 <= i < attributes.len() ==> (#[trigger] attributes[i]).wf(),
        is_tag_end(end),
    ensures
        lyric_attribute(
            before + (all_written(others) + (lyrics.written() + (all_written(attributes) + (end
                + rest)))),
            before.len() as int,
        ) == Some(lyrics.value),
    decreases others.len(),
{
    let behind = lyrics.written() + (all_written(attributes) + (end + rest));
    let s = before + (all_written(others) + behind);
    if others.len() == 0 {
        assert(s =~= before + behind);
        lyrics_are_found(before, lyrics, attributes, end, rest);
    } else {
        let first = others[0];
        let later = others.drop_first();
        assert(first.wf());
        let after = all_written(later) + behind;
        assert(s =~= before + (first.written() + after));
        other_is_passed(before, first, after);
        assert forall|i: int| 0 <= i < later.len() implies (#[trigger] later[i]).wf()
            && later[i].name != "LyricContent"@ by {
            assert(later[i] == others[i + 1]);
        }
        let next = before + first.written();
        lyrics_are_found_behind(next, later, lyrics, attributes, end, rest);
        assert(next + after =~= s);
    }
}

/// The tolerant reading finds the lyrics of a document that no strict one can read: in the
/// first tag for them, between any other attributes, in quotes of either kind, and up to the
/// quote that closes them. Quotes within them do not, as long as nothing in them looks like
/// an attribute or the end of a tag.
pub proof fn lyrics_of_a_broken_document_are_found(
    front: Seq<char>,
    others: Seq<Attribute>,
    lyrics: Attribute,
    attributes: Seq<Attribute>,
    end: Seq<char>,
    rest: Seq<char>,
)
    requires
        lacks(front, '<'),
        forall|i: int|
            0 <= i < others.len() ==> (#[trigger] others[i]).wf() && others[i].name
                != "LyricContent"@,
        lyrics.loose_wf(),
        lyrics.name == "LyricContent"@,
        forall|i: int| 0 <= i < attributes.len() ==> (#[trigger] attributes[i]).wf(),
        is_tag_end(end),
    ensures
        tagged_content(
            front + "<Lyric_1"@ + (all_written(others) + (lyrics.written() + (all_written(
                attributes,
            ) + (end + rest)))),
            0,
        ) == Some(decoded(lyrics.value, 0)),
{
    let tag = "<Lyric_1"@;
    let behind = all_written(others) + (lyrics.written() + (all_written(attributes) + (end
        + rest)));
    let before = front + tag;
    let s = before + behind;
    reveal_strlit("<Lyric_1");
    assert(tag.len() == 8 && tag[0] == '<');
    part_is_found(front, tag, behind, 0);
    first_is_blank(others, lyrics, all_written(attributes) + (end + rest));
    assert(s[before.len() as int] == behind[0]);
    lyrics_are_found_behind(before, others, lyrics, attributes, end, rest);
}

proof fn first_is_blank(others: Seq<Attribute>, lyrics: Attribute, rest: Seq<char>)
    requires
        forall|i: int| 0 <= i < others.len() ==> (#[trigger] others[i]).wf(),
        lyrics.head_wf(),
    ensures
        ({
            let s = all_written(others) + (lyrics.written() + rest);
            s.len() > 0 && !CharClass::XmlName.holds(s[0])
        }),
{
    let s = all_written(others) + (lyrics.written() + rest);
    if others.len() > 0 {
        assert(others[0].wf());
        assert(s[0] == others[0].front[0]);
    } else {
        assert(s[0] == lyrics.front[0]);
    }
}

proof fn part_is_found(front: Seq<char>, tag: Seq<char>, behind: Seq<char>, from: int)
    requires
        tag.len() > 0,
        lacks(front, tag[0]),
        0 <= from <= front.len(),
    ensures
        find_part(front + tag + behind, tag, from) == Some(front.len() as int),
    decreases front.len() - from,
{
    let s = front + tag + behind;
    let part = s.subrange(from, from + tag.len());
    if from < front.len() {
        assert(part[0] == front[from]);
        assert(part != tag);
        part_is_found(front, tag, behind, from + 1);
    } else {
        assert(part =~= tag);
    }
}

/// A tag that only begins like the one for lyrics is passed over, and so is one without
/// them.
pub proof fn other_tags_are_passed_over(front: Seq<char>, c: char, rest: Seq<char>)
    requires
        lacks(front, '<'),
    ensures
        ({
            let s = front + "<Lyric_1"@ + (seq![c] + rest);
            let behind = front.len() as int + 8;
            name_char(c) || lyric_attribute(s, behind) is None ==> tagged_content(s, 0)
                == tagged_content(s, behind)
        }),
{
    let tag = "<Lyric_1"@;
    let s = front + tag + (seq![c] + rest);
    reveal_strlit("<Lyric_1");
    assert(tag.len() == 8 && tag[0] == '<');
    part_is_found(front, tag, seq![c] + rest, 0);
    assert(s[front.len() as int + 8] == c);
}

/// A document without a tag for lyrics has none, however it is read tolerantly.
pub proof fn documents_without_a_tag_have_no_lyrics(s: Seq<char>)
    requires
        lacks(s, '<'),
    ensures
        tagged_content(s, 0) is None,
{
    reveal_strlit("<Lyric_1");
    no_part_is_found(s, "<Lyric_1"@, 0);
}

proof fn no_part_is_found(s: Seq<char>, tag: Seq<char>, from: int)
    requires
        tag.len() > 0,
        lacks(s, tag[0]),
        0 <= from,
    ensures
        find_part(s, tag, from) is None,
    decreases s.len() - from + 1,
{
    if from + tag.len() <= s.len() {
        let part = s.subrange(from, from + tag.len());
        assert(part[0] == s[from]);
        no_part_is_found(s, tag, from + 1);
    }
}

/// What does not begin with an angle bracket is no document, but the lyrics themselves. Of
/// a document the strict reading counts, and only where it finds nothing the tolerant one.
pub proof fn plain_lyrics_are_taken_as_they_are(raw: Seq<char>, strict: Seq<char>)
    ensures
        trim_start(raw).len() == 0 || trim_start(raw)[0] != '<' ==> provider_content(raw) == Some(
            raw,
        ),
        trim_start(raw).len() > 0 && trim_start(raw)[0] == '<' ==> provider_content(raw)
            == content_found(document_content(document_steps(raw)), raw),
        content_found(Some(strict), raw) == Some(strict),
        content_found(None, raw) == tagged_content(raw, 0),
{
}

/// An unreadable step spoils a document wherever it stands; in a readable one the first
/// element with lyrics gives them, by the first attribute that has their key.
pub proof fn the_first_lyrics_of_a_document_count(
    before: Seq<Meaning>,
    others: Seq<(Seq<u8>, Seq<char>)>,
    key: Seq<u8>,
    text: Seq<char>,
    more: Seq<(Seq<u8>, Seq<char>)>,
    rest: Seq<Meaning>,
)
    requires
        key == encode_utf8("LyricContent"@),
        forall|i: int| 0 <= i < others.len() ==> (#[trigger] others[i]).0 != key,
        forall|i: int|
            0 <= i < before.len() ==> match #[trigger] before[i] {
                Meaning::Attributes(attributes) => forall|k: int|
                    0 <= k < attributes.len() ==> (#[trigger] attributes[k]).0 != key,
                _ => true,
            },
    ensures
        ({
            let found = Meaning::Attributes(others + seq![(key, text)] + more);
            let steps = before + seq![found] + rest;
            let broken = exists|i: int|
                0 <= i < steps.len() && #[trigger] steps[i] == Meaning::Broken;
            &&& broken ==> document_content(steps) is None
            &&& !broken ==> document_content(steps) == Some(text)
        }),
        document_content(before) is None,
{
    let attributes = others + seq![(key, text)] + more;
    keyed_text_is_first(others, key, text, more);
    let steps = before + seq![Meaning::Attributes(attributes)] + rest;
    assert(steps.take(before.len() as int) =~= before);
    content_is_first(before, steps, attributes, 0);
    nothing_is_found(before, key);
    assert(steps.skip(0) =~= steps);
}

proof fn keyed_text_is_first(
    others: Seq<(Seq<u8>, Seq<char>)>,
    key: Seq<u8>,
    text: Seq<char>,
    more: Seq<(Seq<u8>, Seq<char>)>,
)
    requires
        key == encode_utf8("LyricContent"@),
        forall|i: int| 0 <= i < others.len() ==> (#[trigger] others[i]).0 != key,
    ensures
        keyed_text(others + seq![(key, text)] + more) == Some(text),
        keyed_text(others) is None,
    decreases others.len(),
{
    let all = others + seq![(key, text)] + more;
    if others.len() > 0 {
        let rest = others.drop_first();
        assert(others[0].0 != key);
        assert forall|i: int| 0 <= i < rest.len() implies (#[trigger] rest[i]).0 != key by {
            assert(rest[i] == others[i + 1]);
        }
        keyed_text_is_first(rest, key, text, more);
        assert(all.drop_first() =~= rest + seq![(key, text)] + more);
        assert(all[0] == others[0]);
    } else {
        assert(all[0] == (key, text));
    }
}

proof fn content_is_first(
    before: Seq<Meaning>,
    steps: Seq<Meaning>,
    attributes: Seq<(Seq<u8>, Seq<char>)>,
    from: int,
)
    requires
        keyed_text(attributes) is Some,
        0 <= from <= before.len() < steps.len(),
        steps.take(before.len() as int) == before,
        steps[before.len() as int] == Meaning::Attributes(attributes),
        forall|i: int|
            0 <= i < before.len() ==> match #[trigger] before[i] {
                Meaning::Attributes(a) => forall|k: int|
                    0 <= k < a.len() ==> (#[trigger] a[k]).0 != encode_utf8(
                        "LyricContent"@,
                    ),
                _ => true,
            },
    ensures
        first_content(steps.skip(from)) == keyed_text(attributes),
    decreases before.len() - from,
{
    let here = steps.skip(from);
    if from < before.len() {
        assert(here[0] == steps.take(before.len() as int)[from]);
        assert(here[0] == before[from]);
        if let Meaning::Attributes(a) = before[from] {
            keyed_text_is_first(
                a,
                encode_utf8("LyricContent"@),
                Seq::empty(),
                Seq::empty(),
            );
        }
        assert(here.drop_first() =~= steps.skip(from + 1));
        content_is_first(before, steps, attributes, from + 1);
    } else {
        assert(here[0] == Meaning::Attributes(attributes));
    }
}

proof fn nothing_is_found(steps: Seq<Meaning>, key: Seq<u8>)
    requires
        key == encode_utf8("LyricContent"@),
        forall|i: int|
            0 <= i < steps.len() ==> match #[trigger] steps[i] {
                Meaning::Attributes(a) => forall|k: int|
                    0 <= k < a.len() ==> (#[trigger] a[k]).0 != key,
                _ => true,
            },
    ensures
        first_content(steps) is None,
    decreases steps.len(),
{
    if steps.len() > 0 {
        if let Meaning::Attributes(a) = steps[0] {
            keyed_text_is_first(a, key, Seq::empty(), Seq::empty());
        }
        let rest = steps.drop_first();
        assert forall|i: int| 0 <= i < rest.len() implies match #[trigger] rest[i] {
            Meaning::Attributes(a) => forall|k: int|
                0 <= k < a.len() ==> (#[trigger] a[k]).0 != key,
            _ => true,
        } by {
            assert(rest[i] == steps[i + 1]);
        }
        nothing_is_found(rest, key);
    }
}

} // verus!
