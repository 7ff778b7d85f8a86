//! The document around lyrics with word times: an element `Lyric_1` whose attribute
//! `LyricContent` holds them.

use crate::scan::skip;
use quick_xml::events::Event;
use quick_xml::Reader;
use vstd::prelude::*;
use vstd::utf8::{decode_utf8, encode_utf8, valid_utf8};

verus! {

/// A reader of XML events, from `quick_xml`.
#[verifier::external_type_specification]
#[verifier::external_body]
#[verifier::reject_recursive_types(R)]
pub struct ExReader<R>(Reader<R>);

/// One step of a document, with the texts as they stand in it.
pub enum XmlEvent {
    /// An opening or empty element: the key and the value of each attribute, and
    /// `None` for one that cannot be read.
    Element(Vec<Option<(Vec<u8>, Vec<u8>)>>),
    Text(Vec<u8>),
    /// A closing tag, a comment, a declaration or another step that says nothing here.
    Other,
    Invalid,
    End,
}

/// What an `XmlEvent` says.
pub enum Step {
    Element(Seq<Option<(Seq<u8>, Seq<u8>)>>),
    Text(Seq<u8>),
    Other,
    Invalid,
    End,
}

pub open spec fn attribute_view(attribute: Option<(Vec<u8>, Vec<u8>)>) -> Option<
    (Seq<u8>, Seq<u8>),
> {
    match attribute {
        Some((key, value)) => Some((key@, value@)),
        None => None,
    }
}

impl View for XmlEvent {
    type V = Step;

    open spec fn view(&self) -> Step {
        match self {
            XmlEvent::Element(attributes) => Step::Element(
                attributes@.map_values(|a: Option<(Vec<u8>, Vec<u8>)>| attribute_view(a)),
            ),
            XmlEvent::Text(text) => Step::Text(text@),
            XmlEvent::Other => Step::Other,
            XmlEvent::Invalid => Step::Invalid,
            XmlEvent::End => Step::End,
        }
    }
}

/// The steps that `quick_xml` finds in a document, up to its end.
pub uninterp spec fn xml_steps(document: Seq<char>) -> Seq<Step>;

/// The steps that a reader has still to give, up to the end of its document.
pub uninterp spec fn steps_ahead(reader: Reader<&[u8]>) -> Seq<Step>;

/// `Reader::from_str`: the reader has all steps of the document ahead of it.
#[verifier::external_body]
fn open_document<'a>(document: &'a str) -> (reader: Reader<&'a [u8]>)
    ensures
        steps_ahead(reader) == xml_steps(document@),
{
    Reader::from_str(document)
}

/// `Reader::read_event`: gives the next step and moves behind it, and at the end of
/// the document gives the end again and again. An element is given with what its
/// `attributes` iterate over.
#[verifier::external_body]
fn next_event<'a>(reader: &mut Reader<&'a [u8]>) -> (event: XmlEvent)
    ensures
        steps_ahead(*old(reader)).len() == 0 ==> event@ == Step::End && steps_ahead(
            *final(reader),
        ).len() == 0,
        steps_ahead(*old(reader)).len() > 0 ==> event@ == steps_ahead(*old(reader))[0] && event@
            != Step::End && steps_ahead(*final(reader)) == steps_ahead(*old(reader)).skip(1),
{
    match reader.read_event() {
        Ok(Event::Start(element)) | Ok(Event::Empty(element)) => XmlEvent::Element(
            element
                .attributes()
                .map(|a| a.ok().map(|a| (a.key.as_ref().to_vec(), a.value.into_owned())))
                .collect(),
        ),
        Ok(Event::Text(text)) => XmlEvent::Text(text.to_vec()),
        Ok(Event::Eof) => XmlEvent::End,
        Ok(_) => XmlEvent::Other,
        Err(_) => XmlEvent::Invalid,
    }
}

/// `Decoder::decode` of a reader, which reads UTF-8: gives the text of the bytes, and
/// nothing where they are not UTF-8.
#[verifier::external_body]
fn decode<'a>(reader: &Reader<&'a [u8]>, bytes: &[u8]) -> (text: Option<String>)
    ensures
        match text {
            Some(text) => valid_utf8(bytes@) && text@ == decode_utf8(bytes@),
            None => !valid_utf8(bytes@),
        },
{
    reader.decoder().decode(bytes).ok().map(|text| text.into_owned())
}

/// What `quick_xml::escape::unescape` makes of a text: the text with its references
/// resolved, and nothing where one of them is broken or unknown.
pub uninterp spec fn unescaped(text: Seq<char>) -> Option<Seq<char>>;

/// `quick_xml::escape::unescape`: resolves the character references and the
/// predefined entities of a text.
#[verifier::external_body]
fn unescape(text: &str) -> (result: Option<String>)
    ensures
        crate::lyrics::line::text_of(result) == unescaped(text@),
{
    quick_xml::escape::unescape(text).ok().map(|text| text.into_owned())
}

/// The text that bytes of a document stand for.
pub open spec fn resolved(bytes: Seq<u8>) -> Option<Seq<char>> {
    if valid_utf8(bytes) {
        unescaped(decode_utf8(bytes))
    } else {
        None
    }
}

/// A step with its texts resolved, as far as the lyrics depend on it.
pub enum Markup {
    /// The attributes of an element: the key of each, and its text.
    Attributes(Vec<(Vec<u8>, String)>),
    Silent,
    /// Something that cannot be read.
    Broken,
}

pub enum Meaning {
    Attributes(Seq<(Seq<u8>, Seq<char>)>),
    Silent,
    Broken,
}

impl View for Markup {
    type V = Meaning;

    open spec fn view(&self) -> Meaning {
        match self {
            Markup::Attributes(attributes) => Meaning::Attributes(
                attributes@.map_values(|a: (Vec<u8>, String)| (a.0@, a.1@)),
            ),
            Markup::Silent => Meaning::Silent,
            Markup::Broken => Meaning::Broken,
        }
    }
}

/// The attributes with their texts, where every one of them can be read.
pub open spec fn readable(attributes: Seq<Option<(Seq<u8>, Seq<u8>)>>) -> Option<
    Seq<(Seq<u8>, Seq<char>)>,
>
    decreases attributes.len(),
{
    if attributes.len() == 0 {
        Some(Seq::empty())
    } else {
        match (readable(attributes.drop_last()), attributes.last()) {
            (Some(before), Some((key, value))) => match resolved(value) {
                Some(text) => Some(before.push((key, text))),
                None => None,
            },
            _ => None,
        }
    }
}

/// What a step means for the lyrics.
pub open spec fn meaning(step: Step) -> Meaning {
    match step {
        Step::Element(attributes) => match readable(attributes) {
            Some(attributes) => Meaning::Attributes(attributes),
            None => Meaning::Broken,
        },
        Step::Text(bytes) => if resolved(bytes) is Some {
            Meaning::Silent
        } else {
            Meaning::Broken
        },
        Step::Invalid => Meaning::Broken,
        Step::Other | Step::End => Meaning::Silent,
    }
}

fn resolve<'a>(reader: &Reader<&'a [u8]>, bytes: &[u8]) -> (text: Option<String>)
    ensures
        crate::lyrics::line::text_of(text) == resolved(bytes@),
{
    match decode(reader, bytes) {
        Some(text) => unescape(text.as_str()),
        None => None,
    }
}

proof fn unreadable(attributes: Seq<Option<(Seq<u8>, Seq<u8>)>>, at: int)
    requires
        0 <= at < attributes.len(),
        readable(attributes.take(at + 1)) is None,
    ensures
        readable(attributes) is None,
    decreases attributes.len(),
{
    if at + 1 < attributes.len() {
        assert(attributes.drop_last().take(at + 1) =~= attributes.take(at + 1));
        unreadable(attributes.drop_last(), at);
    } else {
        assert(attributes.take(at + 1) =~= attributes);
    }
}

fn read_attributes<'a>(
    reader: &Reader<&'a [u8]>,
    attributes: &Vec<Option<(Vec<u8>, Vec<u8>)>>,
) -> (markup: Markup)
    ensures
        markup@ == meaning(XmlEvent::Element(*attributes)@),
{
    let ghost all = attributes@.map_values(
        |a: Option<(Vec<u8>, Vec<u8>)>| attribute_view(a),
    );
    let mut read: Vec<(Vec<u8>, String)> = Vec::new();
    let mut i: usize = 0;
    assert(all.take(0) =~= Seq::empty());
    assert(read@.map_values(|a: (Vec<u8>, String)| (a.0@, a.1@)) =~= Seq::empty());
    while i < attributes.len()
        invariant
            i <= attributes@.len(),
            all == attributes@.map_values(|a: Option<(Vec<u8>, Vec<u8>)>| attribute_view(a)),
            readable(all.take(i as int)) == Some(
                read@.map_values(|a: (Vec<u8>, String)| (a.0@, a.1@)),
            ),
        decreases attributes.len() - i,
    {
        assert(all.take(i + 1).drop_last() =~= all.take(i as int));
        assert(all.take(i + 1).last() == attribute_view(attributes@[i as int]));
        let ghost before = read@;
        match &attributes[i] {
            Some((key, value)) => match resolve(reader, value.as_slice()) {
                Some(text) => {
                    let entry = (copy_bytes(key), text);
                    read.push(entry);
                    assert(read@.map_values(|a: (Vec<u8>, String)| (a.0@, a.1@))
                        =~= before.map_values(|a: (Vec<u8>, String)| (a.0@, a.1@)).push(
                        (entry.0@, entry.1@),
                    ));
                },
                None => {
                    proof {
                        unreadable(all, i as int);
                    }
                    return Markup::Broken;
                },
            },
            None => {
                proof {
                    unreadable(all, i as int);
                }
                return Markup::Broken;
            },
        }
        i += 1;
    }
    assert(all.take(all.len() as int) =~= all);
    Markup::Attributes(read)
}

fn copy_bytes(bytes: &Vec<u8>) -> (copy: Vec<u8>)
    ensures
        copy@ == bytes@,
{
    let mut copy: Vec<u8> = Vec::new();
    let mut i: usize = 0;
    while i < bytes.len()
        invariant
            i <= bytes@.len(),
            copy@ =~= bytes@.take(i as int),
        decreases bytes.len() - i,
    {
        copy.push(bytes[i]);
        i += 1;
    }
    assert(copy@ =~= bytes@);
    copy
}

fn read_step<'a>(reader: &Reader<&'a [u8]>, event: &XmlEvent) -> (markup: Markup)
    ensures
        markup@ == meaning(event@),
{
    match event {
        XmlEvent::Element(attributes) => read_attributes(reader, attributes),
        XmlEvent::Text(bytes) => match resolve(reader, bytes.as_slice()) {
            Some(_) => Markup::Silent,
            None => Markup::Broken,
        },
        XmlEvent::Invalid => Markup::Broken,
        XmlEvent::Other => Markup::Silent,
        XmlEvent::End => Markup::Silent,
    }
}

/// The text of the first attribute with the key of the lyrics.
pub open spec fn keyed_text(attributes: Seq<(Seq<u8>, Seq<char>)>) -> Option<Seq<char>>
    decreases attributes.len(),
{
    if attributes.len() == 0 {
        None
    } else if attributes[0].0 == encode_utf8("LyricContent"@) {
        Some(attributes[0].1)
    } else {
        keyed_text(attributes.drop_first())
    }
}

/// The first lyrics among the attributes of a document's elements.
pub open spec fn first_content(steps: Seq<Meaning>) -> Option<Seq<char>>
    decreases steps.len(),
{
    if steps.len() == 0 {
        None
    } else {
        match steps[0] {
            Meaning::Attributes(attributes) if keyed_text(attributes) is Some => keyed_text(
                attributes,
            ),
            _ => first_content(steps.drop_first()),
        }
    }
}

/// The lyrics of a document: none unless every step of it can be read.
pub open spec fn document_content(steps: Seq<Meaning>) -> Option<Seq<char>> {
    if exists|i: int| 0 <= i < steps.len() && #[trigger] steps[i] == Meaning::Broken {
        None
    } else {
        first_content(steps)
    }
}

pub open spec fn markup_views(steps: Seq<Markup>) -> Seq<Meaning> {
    steps.map_values(|m: Markup| m@)
}

fn is_lyric_key(key: &Vec<u8>) -> (result: bool)
    ensures
        result == (key@ == encode_utf8("LyricContent"@)),
{
    let name = "LyricContent".as_bytes();
    if key.len() != name.len() {
        return false;
    }
    let mut i: usize = 0;
    while i < key.len()
        invariant
            i <= key@.len(),
            key@.len() == name@.len(),
            name@ == encode_utf8("LyricContent"@),
            forall|j: int| 0 <= j < i ==> key@[j] == name@[j],
        decreases key.len() - i,
    {
        if key[i] != name[i] {
            return false;
        }
        i += 1;
    }
    assert(key@ =~= name@);
    true
}

fn find_keyed_text(attributes: &Vec<(Vec<u8>, String)>) -> (text: Option<String>)
    ensures
        crate::lyrics::line::text_of(text) == keyed_text(
            attributes@.map_values(|a: (Vec<u8>, String)| (a.0@, a.1@)),
        ),
{
    let ghost all = attributes@.map_values(|a: (Vec<u8>, String)| (a.0@, a.1@));
    let mut i: usize = 0;
    assert(all.skip(0) =~= all);
    while i < attributes.len()
        invariant
            i <= attributes@.len(),
            all == attributes@.map_values(|a: (Vec<u8>, String)| (a.0@, a.1@)),
            keyed_text(all) == keyed_text(all.skip(i as int)),
        decreases attributes.len() - i,
    {
        assert(all.skip(i as int).drop_first() =~= all.skip(i + 1));
        if is_lyric_key(&attributes[i].0) {
            return Some(attributes[i].1.clone());
        }
        i += 1;
    }
    None
}

/// The lyrics of a document whose steps are `steps`.
pub fn content_of(steps: &Vec<Markup>) -> (content: Option<String>)
    ensures
        crate::lyrics::line::text_of(content) == document_content(markup_views(steps@)),
{
    let ghost all = markup_views(steps@);
    let mut content: Option<String> = None;
    let mut i: usize = 0;
    assert(all.skip(0) =~= all);
    while i < steps.len()
        invariant
            i <= steps@.len(),
            all == markup_views(steps@),
            forall|j: int| 0 <= j < i ==> #[trigger] all[j] != Meaning::Broken,
            content is Some ==> first_content(all) == crate::lyrics::line::text_of(content),
            content is None ==> first_content(all) == first_content(all.skip(i as int)),
        decreases steps.len() - i,
    {
        assert(all.skip(i as int).drop_first() =~= all.skip(i + 1));
        assert(all[i as int] == steps@[i as int]@);
        match &steps[i] {
            Markup::Broken => {
                return None;
            },
            Markup::Silent => {},
            Markup::Attributes(attributes) => {
                if content.is_none() {
                    content = find_keyed_text(attributes);
                }
            },
        }
        i += 1;
    }
    content
}

/// The meanings of a document's steps.
pub open spec fn document_steps(document: Seq<char>) -> Seq<Meaning> {
    xml_steps(document).map_values(|step: Step| meaning(step))
}

/// Reads the lyrics out of a document that is well formed.
pub fn extract_qrc_content_strict(raw: &str) -> (content: Option<String>)
    ensures
        crate::lyrics::line::text_of(content) == document_content(document_steps(raw@)),
{
    let mut reader = open_document(raw);
    let mut steps: Vec<Markup> = Vec::new();
    let ghost all = document_steps(raw@);
    let ghost source = xml_steps(raw@);
    let mut more: bool = true;
    assert(source.skip(0) =~= source);
    while more
        invariant
            all == document_steps(raw@),
            source == xml_steps(raw@),
            steps@.len() <= source.len(),
            steps_ahead(reader) == source.skip(steps@.len() as int),
            markup_views(steps@) =~= all.take(steps@.len() as int),
            !more ==> steps@.len() == source.len(),
        decreases steps_ahead(reader).len(), (if more { 1int } else { 0int }),
    {
        let event = next_event(&mut reader);
        let markup = read_step(&reader, &event);
        match event {
            XmlEvent::End => {
                more = false;
            },
            _ => {
                assert(event@ != Step::End);
                assert(source.skip(steps@.len() as int).skip(1) =~= source.skip((steps@.len() + 1) as int));
                steps.push(markup);
            },
        }
    }
    assert(all.take(all.len() as int) =~= all);
    content_of(&steps)
}

} // verus!
