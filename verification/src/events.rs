//! The markup events that the mesh schema is parsed from.
//!
//! The XML work itself — tag lexing, entity handling, well-formedness — is
//! the `xml` crate's; this module converts its event stream into plain
//! values. The stream ends at the end of the document, and also at the first
//! malformed-markup error: whatever was read up to that point is what the
//! mesh parser sees.

use std::io::Cursor;
use vstd::prelude::*;
use xml::reader::{EventReader, XmlEvent};

verus! {

/// One event of the document stream, as plain values: an opening tag with
/// its attributes, an element's character data, a closing tag, anything the
/// mesh schema ignores, or the end of the stream.
#[derive(Debug, Clone, PartialEq, Eq)]
pub enum MarkupEvent {
    Open { name: String, attrs: Vec<(String, String)> },
    Text(String),
    Close,
    Other,
    End,
}

/// The mathematical image of a `MarkupEvent`.
pub enum MarkupEventV {
    Open { name: Seq<char>, attrs: Seq<(Seq<char>, Seq<char>)> },
    Text(Seq<char>),
    Close,
    Other,
    End,
}

impl View for MarkupEvent {
    type V = MarkupEventV;

    open spec fn view(&self) -> MarkupEventV {
        match self {
            MarkupEvent::Open { name, attrs } => MarkupEventV::Open {
                name: name@,
                attrs: attrs@.map_values(|p: (String, String)| (p.0@, p.1@)),
            },
            MarkupEvent::Text(s) => MarkupEventV::Text(s@),
            MarkupEvent::Close => MarkupEventV::Close,
            MarkupEvent::Other => MarkupEventV::Other,
            MarkupEvent::End => MarkupEventV::End,
        }
    }
}

/// A pull reader over one in-memory document.
#[verifier::external_body]
pub struct DocReader {
    inner: EventReader<Cursor<Vec<u8>>>,
}

/// The converted events still pending in a reader, in order, up to the end
/// of its stream.
pub uninterp spec fn reader_events(r: DocReader) -> Seq<MarkupEventV>;

/// The converted events that the XML parser yields for a document text, in
/// order: a function of the text alone.
pub uninterp spec fn doc_events(s: Seq<char>) -> Seq<MarkupEventV>;

/// Relies on `xml::reader::EventReader::new` over an in-memory byte cursor:
/// the events the reader will yield depend on the document text alone.
#[verifier::external_body]
pub(crate) fn doc_reader_new(text: &str) -> (r: DocReader)
    ensures
        reader_events(r) == doc_events(text@),
{
    DocReader { inner: EventReader::new(Cursor::new(text.as_bytes().to_vec())) }
}

/// Relies on `xml::reader::EventReader::next`: each call pulls the stream's
/// next event; after the document's end, and after a malformed-markup error,
/// the reader returns that same outcome forever, which this conversion folds
/// into `End`.
#[verifier::external_body]
pub(crate) fn doc_reader_next(r: &mut DocReader) -> (ev: MarkupEvent)
    ensures
        reader_events(*old(r)).len() > 0 ==> ev@ == reader_events(*old(r))[0] && reader_events(
            *final(r),
        ) == reader_events(*old(r)).skip(1),
        reader_events(*old(r)).len() == 0 ==> ev@ == MarkupEventV::End && reader_events(*final(r))
            == reader_events(*old(r)),
{
    match r.inner.next() {
        Ok(XmlEvent::StartElement { name, attributes, .. }) => MarkupEvent::Open {
            name: name.local_name,
            attrs: attributes.into_iter().map(|a| (a.name.local_name, a.value)).collect(),
        },
        Ok(XmlEvent::EndElement { .. }) => MarkupEvent::Close,
        Ok(XmlEvent::Characters(text)) => MarkupEvent::Text(text),
        Ok(XmlEvent::EndDocument) | Err(_) => MarkupEvent::End,
        Ok(_) => MarkupEvent::Other,
    }
}

} // verus!
