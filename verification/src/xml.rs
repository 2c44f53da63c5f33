//! XML documents as sequences of events.
use quick_xml::events::BytesStart;
use quick_xml::events::Event;
use quick_xml::reader::Reader;
use crate::text::{opt_view, pair_views, same};
use vstd::prelude::*;

verus! {

/// `quick_xml`'s pull reader, carried as an opaque value.
#[verifier::external_type_specification]
#[verifier::external_body]
#[verifier::reject_recursive_types(R)]
pub struct ExReader<R>(Reader<R>);

/// `quick_xml`'s opening or self-closing tag, carried as an opaque value.
#[verifier::external_type_specification]
#[verifier::external_body]
pub struct ExBytesStart<'a>(BytesStart<'a>);

/// An opening or self-closing tag: its name and the attributes that could be
/// read, in order.
#[derive(Debug)]
pub struct XmlTag {
    pub name: String,
    pub attributes: Vec<(String, String)>,
}

/// One event of a document.
#[derive(Debug)]
pub enum XmlEvent {
    Start(XmlTag),
    Empty(XmlTag),
    End(String),
    Text(String),
    /// A comment, declaration, processing instruction, CDATA or document type.
    Other,
    /// The end of the document, or of the part of it that can be read.
    Done,
}

/// The text of a tag.
pub struct XmlTagView {
    pub name: Seq<char>,
    pub attributes: Seq<(Seq<char>, Seq<char>)>,
}

/// The text of an event.
pub enum XmlEventView {
    Start(XmlTagView),
    Empty(XmlTagView),
    End(Seq<char>),
    Text(Seq<char>),
    Other,
    Done,
}

impl View for XmlTag {
    type V = XmlTagView;

    open spec fn view(&self) -> XmlTagView {
        XmlTagView { name: self.name@, attributes: pair_views(self.attributes@) }
    }
}

impl View for XmlEvent {
    type V = XmlEventView;

    open spec fn view(&self) -> XmlEventView {
        match *self {
            XmlEvent::Start(t) => XmlEventView::Start(t@),
            XmlEvent::Empty(t) => XmlEventView::Empty(t@),
            XmlEvent::End(n) => XmlEventView::End(n@),
            XmlEvent::Text(t) => XmlEventView::Text(t@),
            XmlEvent::Other => XmlEventView::Other,
            XmlEvent::Done => XmlEventView::Done,
        }
    }
}

/// The texts of a list of events.
pub open spec fn event_views(v: Seq<XmlEvent>) -> Seq<XmlEventView> {
    v.map_values(|e: XmlEvent| e@)
}

/// The events of a document up to its end or its first error, as `quick_xml`
/// reads them with the white space around text trimmed.
pub uninterp spec fn xml_events(text: Seq<char>) -> Seq<XmlEventView>;

/// The events that a reader has still to give before its end or first error.
pub uninterp spec fn events_left(reader: Reader<&[u8]>) -> Seq<XmlEventView>;

/// Opens a document with `Reader::from_str` and `Reader::trim_text`. What the
/// reader will give is fixed by the text.
#[verifier::external_body]
pub(crate) fn open_document<'a>(text: &'a str) -> (r: Reader<&'a [u8]>)
    ensures
        events_left(r) == xml_events(text@),
{
    let mut reader = Reader::from_str(text);
    reader.trim_text(true);
    reader
}

/// What a reader gives: an event whose tags are still `quick_xml`'s own.
enum RawEvent {
    Start(BytesStart<'static>),
    Empty(BytesStart<'static>),
    End(String),
    Text(String),
    Other,
    Done,
}

/// The name and the readable attributes of a tag, as `quick_xml` splits it.
pub uninterp spec fn tag_text(tag: BytesStart<'static>) -> XmlTagView;

/// The text of an event whose tags are still `quick_xml`'s own.
spec fn raw_view(e: RawEvent) -> XmlEventView {
    match e {
        RawEvent::Start(t) => XmlEventView::Start(tag_text(t)),
        RawEvent::Empty(t) => XmlEventView::Empty(tag_text(t)),
        RawEvent::End(n) => XmlEventView::End(n@),
        RawEvent::Text(t) => XmlEventView::Text(t@),
        RawEvent::Other => XmlEventView::Other,
        RawEvent::Done => XmlEventView::Done,
    }
}

/// Reads one event with `Reader::read_event_into`: the first that is left, or
/// `Done` where none is. `Done` stands for the end of the document and for an
/// error alike; text with a bad entity is given as empty text.
#[verifier::external_body]
fn read_raw(reader: &mut Reader<&[u8]>) -> (r: RawEvent)
    ensures
        if events_left(*old(reader)).len() == 0 {
            r == RawEvent::Done
        } else {
            &&& r != RawEvent::Done
            &&& raw_view(r) == events_left(*old(reader))[0]
            &&& events_left(*final(reader)) == events_left(*old(reader)).drop_first()
        },
{
    match reader.read_event_into(&mut Vec::new()) {
        Ok(Event::Start(e)) => RawEvent::Start(e.into_owned()),
        Ok(Event::Empty(e)) => RawEvent::Empty(e.into_owned()),
        Ok(Event::End(e)) => RawEvent::End(String::from_utf8_lossy(e.name().as_ref()).into_owned()),
        Ok(Event::Text(t)) => RawEvent::Text(t.unescape().unwrap_or_default().into_owned()),
        Ok(Event::Eof) | Err(_) => RawEvent::Done,
        Ok(_) => RawEvent::Other,
    }
}

/// Reads a tag's name with `BytesStart::name` and its attributes with
/// `BytesStart::attributes`; an attribute that cannot be read is left out.
#[verifier::external_body]
fn read_tag(tag: &BytesStart<'static>) -> (r: XmlTag)
    ensures
        r@ == tag_text(*tag),
{
    let text = |b: &[u8]| String::from_utf8_lossy(b).into_owned();
    XmlTag {
        name: text(tag.name().as_ref()),
        attributes: tag.attributes().flatten().map(|a| (text(a.key.as_ref()), text(&a.value))).collect(),
    }
}

/// Reads one event: the first that is left, or `Done` where none is.
pub(crate) fn read_event(reader: &mut Reader<&[u8]>) -> (r: XmlEvent)
    ensures
        if events_left(*old(reader)).len() == 0 {
            r == XmlEvent::Done
        } else {
            &&& r != XmlEvent::Done
            &&& r@ == events_left(*old(reader))[0]
            &&& events_left(*final(reader)) == events_left(*old(reader)).drop_first()
        },
{
    match read_raw(reader) {
        RawEvent::Start(t) => XmlEvent::Start(read_tag(&t)),
        RawEvent::Empty(t) => XmlEvent::Empty(read_tag(&t)),
        RawEvent::End(n) => XmlEvent::End(n),
        RawEvent::Text(t) => XmlEvent::Text(t),
        RawEvent::Other => XmlEvent::Other,
        RawEvent::Done => XmlEvent::Done,
    }
}

/// All events of a document, up to its end or its first error.
pub fn read_events(text: &str) -> (r: Vec<XmlEvent>)
    ensures
        event_views(r@) == xml_events(text@),
{
    let mut reader = open_document(text);
    let mut out: Vec<XmlEvent> = Vec::new();
    assert(event_views(out@) + events_left(reader) =~= xml_events(text@));
    loop
        invariant
            event_views(out@) + events_left(reader) == xml_events(text@),
        decreases events_left(reader).len(),
    {
        let ghost left = events_left(reader);
        let ghost so_far = out@;
        let event = read_event(&mut reader);
        if matches!(event, XmlEvent::Done) {
            assert(event_views(out@) =~= xml_events(text@));
            return out;
        }
        out.push(event);
        proof {
            assert(event_views(out@) =~= event_views(so_far).push(left[0]));
            assert(event_views(out@) + events_left(reader) =~= event_views(so_far) + left);
        }
    }
}

/// The value of the first attribute at or after position `i` that has the key.
pub open spec fn attribute_from(
    attributes: Seq<(Seq<char>, Seq<char>)>,
    key: Seq<char>,
    i: int,
) -> Option<Seq<char>>
    decreases attributes.len() - i,
{
    if i < 0 || i >= attributes.len() {
        None
    } else if attributes[i].0 == key {
        Some(attributes[i].1)
    } else {
        attribute_from(attributes, key, i + 1)
    }
}

impl XmlTagView {
    /// The value of the first attribute with the key.
    pub open spec fn attribute(self, key: Seq<char>) -> Option<Seq<char>> {
        attribute_from(self.attributes, key, 0)
    }
}

impl XmlTag {
    /// The value of the first attribute with the key.
    pub fn attribute(&self, key: &str) -> (r: Option<String>)
        ensures
            opt_view(r) == self@.attribute(key@),
    {
        let ghost all = self@.attributes;
        for i in 0..self.attributes.len()
            invariant
                all == pair_views(self.attributes@),
                attribute_from(all, key@, 0) == attribute_from(all, key@, i as int),
        {
            assert(all[i as int] == (self.attributes@[i as int].0@, self.attributes@[i as int].1@));
            if same(&self.attributes[i].0, key) {
                return Some(self.attributes[i].1.clone());
            }
        }
        None
    }
}

/// A tag without attributes.
pub open spec fn bare_tag(name: Seq<char>) -> XmlTagView {
    XmlTagView { name, attributes: seq![] }
}

/// The events of `<name>text</name>`.
pub open spec fn element(name: Seq<char>, text: Seq<char>) -> Seq<XmlEventView> {
    seq![
        XmlEventView::Start(bare_tag(name)),
        XmlEventView::Text(text),
        XmlEventView::End(name),
    ]
}

/// An attribute is the first of its name, and there is one where any has the name.
pub proof fn first_attribute_is_read(
    attributes: Seq<(Seq<char>, Seq<char>)>,
    key: Seq<char>,
    i: int,
)
    requires
        0 <= i <= attributes.len(),
    ensures
        match attribute_from(attributes, key, i) {
            Some(v) => exists|k: int|
                i <= k < attributes.len() && #[trigger] attributes[k] == (key, v) && (forall|j: int|
                    i <= j < k ==> (#[trigger] attributes[j]).0 != key),
            None => forall|j: int| i <= j < attributes.len() ==> (#[trigger] attributes[j]).0 != key,
        },
    decreases attributes.len() - i,
{
    if i < attributes.len() {
        if attributes[i].0 == key {
            assert(attributes[i] == (key, attributes[i].1));
        } else {
            first_attribute_is_read(attributes, key, i + 1);
            if let Some(v) = attribute_from(attributes, key, i + 1) {
                let k = choose|k: int|
                    i + 1 <= k < attributes.len() && #[trigger] attributes[k] == (key, v) && (
                    forall|j: int| i + 1 <= j < k ==> (#[trigger] attributes[j]).0 != key);
                assert(attributes[k] == (key, v));
            }
        }
    }
}

} // verus!
