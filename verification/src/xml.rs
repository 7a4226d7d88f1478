//! XML documents as event sequences: the outside XML reader turns a text
//! into start tags, empty tags, end tags and text; the EPUB logic consumes
//! these plain values.
use vstd::prelude::*;
use quick_xml::events::Event;

verus! {

/// One event of an XML document.
#[derive(Debug)]
pub enum XmlEvent {
    /// A start tag: its qualified name and its attributes (key, raw value).
    Start((String, Vec<(String, String)>)),
    /// A self-closing tag: its qualified name and its attributes.
    Empty((String, Vec<(String, String)>)),
    /// An end tag with its qualified name.
    End(String),
    /// Text, with entities unescaped (empty when unescaping failed).
    Text(String),
    /// Anything else (comments, CDATA, declarations, processing instructions).
    Other,
}

/// The view of an attribute list: pairs of key and value text.
pub open spec fn attrs_view(a: Seq<(String, String)>) -> Seq<(Seq<char>, Seq<char>)> {
    a.map_values(|p: (String, String)| (p.0@, p.1@))
}

/// An XML event as plain values.
pub enum XmlEventView {
    Start(Seq<char>, Seq<(Seq<char>, Seq<char>)>),
    Empty(Seq<char>, Seq<(Seq<char>, Seq<char>)>),
    End(Seq<char>),
    Text(Seq<char>),
    Other,
}

pub open spec fn event_view(e: XmlEvent) -> XmlEventView {
    match e {
        XmlEvent::Start((name, attrs)) => XmlEventView::Start(name@, attrs_view(attrs@)),
        XmlEvent::Empty((name, attrs)) => XmlEventView::Empty(name@, attrs_view(attrs@)),
        XmlEvent::End(name) => XmlEventView::End(name@),
        XmlEvent::Text(t) => XmlEventView::Text(t@),
        XmlEvent::Other => XmlEventView::Other,
    }
}

pub open spec fn events_view(v: Seq<XmlEvent>) -> Seq<XmlEventView> {
    v.map_values(|e: XmlEvent| event_view(e))
}

/// What `quick_xml` reads from `text` (with `trim_text` set as given): the
/// events before the end of the document or before the first error, and
/// that error's message if reading stopped at one.
pub uninterp spec fn xml_events_of(text: Seq<char>, trim_text: bool) -> (Seq<XmlEventView>, Option<Seq<char>>);

#[verifier::external_type_specification]
#[verifier::external_body]
pub struct ExBytesStart<'a>(quick_xml::events::BytesStart<'a>);

/// The qualified name and attributes of a start or empty tag, as text
/// (`BytesStart::name`, `BytesStart::attributes`, attributes that fail to
/// parse skipped). The document is text, so names and raw values are valid
/// UTF-8 and convert without loss.
#[verifier::external_body]
fn tag_parts(e: &quick_xml::events::BytesStart) -> (r: (String, Vec<(String, String)>)) {
    let name = String::from_utf8_lossy(e.name().as_ref()).into_owned();
    let attrs = e.attributes().flatten().map(
        |a| (String::from_utf8_lossy(a.key.as_ref()).into_owned(), String::from_utf8_lossy(&a.value).into_owned()),
    ).collect();
    (name, attrs)
}

/// Reads an XML text into its events with `quick_xml` (`Reader::from_str`,
/// `trim_text` as given, `read_event` until the end or the first error): the
/// events read, and the error's message if one stopped the reading. The
/// events are named, not described.
#[verifier::external_body]
pub(crate) fn read_xml_events(text: &str, trim_text: bool) -> (r: (Vec<XmlEvent>, Option<String>))
    ensures
        xml_events_of(text@, trim_text) == (events_view(r.0@), match r.1 {
            Some(m) => Some(m@),
            None => None,
        }),
{
    let mut reader = quick_xml::Reader::from_str(text);
    reader.config_mut().trim_text(trim_text);
    let mut out = Vec::new();
    loop {
        out.push(match reader.read_event() {
            Ok(Event::Start(e)) => XmlEvent::Start(tag_parts(&e)),
            Ok(Event::Empty(e)) => XmlEvent::Empty(tag_parts(&e)),
            Ok(Event::End(e)) => XmlEvent::End(String::from_utf8_lossy(e.name().as_ref()).into_owned()),
            Ok(Event::Text(e)) => XmlEvent::Text(e.unescape().unwrap_or_default().into_owned()),
            Ok(Event::Eof) => return (out, None),
            Ok(_) => XmlEvent::Other,
            Err(e) => return (out, Some(e.to_string())),
        });
    }
}

} // verus!
