//! The XML reader: what it reports of a text.

use vstd::prelude::*;

verus! {

/// What the XML reader reports of one piece of a document.
#[derive(Debug, PartialEq, Eq)]
pub enum XmlEvent {
    /// A start tag. `name` is the local name of the element. Each attribute
    /// is a pair of name and value; the name is written as the reader prints
    /// a qualified name: the namespace between braces if the name has one,
    /// the prefix and a colon if it has one, then the local name.
    StartElement { name: String, attributes: Vec<(String, String)> },
    /// Anything else.
    Other,
}

/// An [`XmlEvent`] as character sequences.
pub enum XmlEventView {
    StartElement { name: Seq<char>, attributes: Seq<(Seq<char>, Seq<char>)> },
    Other,
}

impl DeepView for XmlEvent {
    type V = XmlEventView;

    open spec fn deep_view(&self) -> XmlEventView {
        match self {
            XmlEvent::StartElement { name, attributes } => XmlEventView::StartElement {
                name: name@,
                attributes: attributes.deep_view(),
            },
            XmlEvent::Other => XmlEventView::Other,
        }
    }
}

/// What the XML reader reports of `text`, piece by piece up to the end of the
/// document; `None` where it finds `text` malformed.
pub uninterp spec fn xml_events(text: Seq<char>) -> Option<Seq<XmlEventView>>;

/// Runs `xml::EventReader::from_str` over `text` and collects what it
/// reports. The reader reports the pieces of a document in their order and
/// ends at the first error; the result is then `None`. Of a start tag the
/// local name and the attributes are kept, of anything else nothing.
///
/// Taken on trust: the events depend on the text alone.
#[verifier::external_body]
pub(crate) fn read_events(text: &str) -> (r: Option<Vec<XmlEvent>>)
    ensures
        match r {
            Some(events) => xml_events(text@) == Some(events.deep_view()),
            None => xml_events(text@) is None,
        },
{
    let convert = |e| match e {
        xml::reader::XmlEvent::StartElement { name, attributes, .. } => XmlEvent::StartElement {
            name: name.local_name,
            attributes: attributes.into_iter().map(|a| (a.name.to_string(), a.value)).collect(),
        },
        _ => XmlEvent::Other,
    };
    let events = xml::EventReader::from_str(text).into_iter();
    events.map(|e| e.map(convert)).collect::<Result<_, _>>().ok()
}

} // verus!
