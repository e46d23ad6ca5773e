//! XML events as plain values, read with the `quick_xml` reader.

use vstd::prelude::*;
use quick_xml::events::Event;

verus! {

/// The `quick_xml` reader over a string.
#[verifier::external_type_specification]
#[verifier::external_body]
#[verifier::reject_recursive_types(R)]
pub struct ExXmlReader<R>(quick_xml::Reader<R>);

/// One event of the XML reader, as plain values.
#[derive(Debug, Clone)]
pub enum XmlEvent {
    /// An opening tag: its local name and its attributes in order, each as
    /// (local name, raw value), or `None` where the attribute is malformed.
    Start { name: String, attributes: Vec<Option<(String, String)>> },
    /// A self-closing tag: its local name and its attributes, as for an
    /// opening tag.
    Empty { name: String, attributes: Vec<Option<(String, String)>> },
    /// A closing tag: its local name.
    End { name: String },
    /// Text between tags, with entities decoded (empty when decoding failed).
    Text { text: String },
    /// The reader reported an error.
    Error,
    /// A comment, CDATA section, declaration, processing instruction or doctype.
    Other,
}

/// The view of an XML event.
pub enum XmlEventModel {
    Start { name: Seq<char>, attributes: Seq<Option<(Seq<char>, Seq<char>)>> },
    Empty { name: Seq<char>, attributes: Seq<Option<(Seq<char>, Seq<char>)>> },
    End { name: Seq<char> },
    Text { text: Seq<char> },
    Error,
    Other,
}

/// The views of an attribute list.
pub open spec fn attribute_views(a: Seq<Option<(String, String)>>) -> Seq<Option<(Seq<char>, Seq<char>)>> {
    a.map_values(|o: Option<(String, String)>| match o {
        Some(p) => Some((p.0@, p.1@)),
        None => None,
    })
}

impl View for XmlEvent {
    type V = XmlEventModel;

    open spec fn view(&self) -> XmlEventModel {
        match self {
            XmlEvent::Start { name, attributes } => XmlEventModel::Start {
                name: name@,
                attributes: attribute_views(attributes@),
            },
            XmlEvent::Empty { name, attributes } => XmlEventModel::Empty {
                name: name@,
                attributes: attribute_views(attributes@),
            },
            XmlEvent::End { name } => XmlEventModel::End { name: name@ },
            XmlEvent::Text { text } => XmlEventModel::Text { text: text@ },
            XmlEvent::Error => XmlEventModel::Error,
            XmlEvent::Other => XmlEventModel::Other,
        }
    }
}

/// The views of a sequence of events.
pub open spec fn event_views(v: Seq<XmlEvent>) -> Seq<XmlEventModel> {
    v.map_values(|e: XmlEvent| e@)
}

/// The events that the `quick_xml` reader, with text trimming on, yields for
/// a document before it reports the end of input.
pub uninterp spec fn xml_events(doc: Seq<char>) -> Seq<XmlEventModel>;

/// The events a reader has still to yield before the end of input.
pub uninterp spec fn xml_pending(r: quick_xml::Reader<&[u8]>) -> Seq<XmlEventModel>;

/// `quick_xml::Reader::from_str` with `trim_text(true)`: a reader whose
/// pending events are the document's events.
#[verifier::external_body]
fn xml_reader(doc: &str) -> (r: quick_xml::Reader<&[u8]>)
    ensures
        xml_pending(r) == xml_events(doc@),
{
    let mut r = quick_xml::Reader::from_str(doc);
    r.config_mut().trim_text(true);
    r
}

/// The `quick_xml` opening tag type.
#[verifier::external_type_specification]
#[verifier::external_body]
pub struct ExBytesStart<'a>(quick_xml::events::BytesStart<'a>);

/// An opening tag as a plain event: its local name and its attributes,
/// each (local name, raw value) or `None` where `quick_xml` reports it
/// malformed (a change of type, field by field).
#[verifier::external_body]
fn start_event(t: &quick_xml::events::BytesStart) -> (e: XmlEvent) {
    let s = |b: &[u8]| String::from_utf8_lossy(b).into_owned();
    let attributes = t.attributes().map(|a| a.ok().map(|a| (s(a.key.local_name().as_ref()), s(&a.value)))).collect();
    XmlEvent::Start { name: s(t.local_name().as_ref()), attributes }
}

/// A self-closing tag as a plain event, converted as `start_event` converts
/// an opening tag.
#[verifier::external_body]
fn empty_event(t: &quick_xml::events::BytesStart) -> (e: XmlEvent) {
    let s = |b: &[u8]| String::from_utf8_lossy(b).into_owned();
    let attributes = t.attributes().map(|a| a.ok().map(|a| (s(a.key.local_name().as_ref()), s(&a.value)))).collect();
    XmlEvent::Empty { name: s(t.local_name().as_ref()), attributes }
}

/// `quick_xml::Reader::read_event`, converted to a plain event: the next
/// pending event, or `None` at the end of input (after which the reader keeps
/// reporting the end).
#[verifier::external_body]
fn xml_next(r: &mut quick_xml::Reader<&[u8]>) -> (e: Option<XmlEvent>)
    ensures
        xml_pending(*old(r)).len() == 0 ==> e is None && xml_pending(*final(r)).len() == 0,
        xml_pending(*old(r)).len() > 0 ==> (e matches Some(ev) && ev@ == xml_pending(*old(r))[0]
            && xml_pending(*final(r)) == xml_pending(*old(r)).drop_first()),
{
    let s = |b: &[u8]| String::from_utf8_lossy(b).into_owned();
    Some(match r.read_event() {
        Ok(Event::Start(t)) => start_event(&t),
        Ok(Event::Empty(t)) => empty_event(&t),
        Ok(Event::End(t)) => XmlEvent::End { name: s(t.local_name().as_ref()) },
        Ok(Event::Text(t)) => XmlEvent::Text { text: t.unescape().unwrap_or_default().into_owned() },
        Ok(Event::Eof) => return None,
        Ok(_) => XmlEvent::Other,
        Err(_) => XmlEvent::Error,
    })
}

/// All events of an XML document, in order, up to the end of input.
pub fn read_xml_events(doc: &str) -> (r: Vec<XmlEvent>)
    ensures
        event_views(r@) == xml_events(doc@),
{
    let mut reader = xml_reader(doc);
    let mut v: Vec<XmlEvent> = Vec::new();
    let ghost all = xml_events(doc@);
    loop
        invariant
            all == xml_events(doc@),
            event_views(v@) + xml_pending(reader) == all,
        decreases xml_pending(reader).len(),
    {
        let ghost before = xml_pending(reader);
        match xml_next(&mut reader) {
            Some(e) => {
                let ghost ev = e@;
                v.push(e);
                assert(event_views(v@) =~= event_views(v@.drop_last()).push(ev));
                assert(before =~= seq![ev] + before.drop_first());
                assert(event_views(v@) + xml_pending(reader) =~= all);
            },
            None => {
                assert(event_views(v@) + before =~= event_views(v@));
                return v;
            },
        }
    }
}

} // verus!
