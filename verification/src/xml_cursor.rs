//! A `quick_xml` reader over a text, read one event at a time, each event
//! handed over as plain bytes.
//!
//! The events a reader yields depend on the text alone: `xml_raw_event`
//! names the `k`-th of them. A cursor remembers, as ghost state, the text it
//! reads and how many events it has handed over; it is made only by
//! `xml_cursor` and moved on only by `xml_next`, so that state always
//! describes the reader inside it.

use vstd::prelude::*;
use quick_xml::events::{BytesEnd, BytesStart, BytesText, Event};
use quick_xml::Reader;

verus! {

#[verifier::external_type_specification]
#[verifier::external_body]
#[verifier::reject_recursive_types(R)]
pub struct ExXmlReader<R>(Reader<R>);

#[verifier::external_type_specification]
#[verifier::external_body]
pub struct ExBytesStart<'a>(BytesStart<'a>);

#[verifier::external_type_specification]
#[verifier::external_body]
pub struct ExBytesEnd<'a>(BytesEnd<'a>);

#[verifier::external_type_specification]
#[verifier::external_body]
pub struct ExBytesText<'a>(BytesText<'a>);

/// One event of the reader in plain values.
pub enum RawXml {
    /// A start tag: the bytes of its qualified name, and its attribute
    /// items as raw key and value bytes (`None` for an item the reader
    /// reports as an error, such as a repeated name).
    Start(Vec<u8>, Vec<Option<(Vec<u8>, Vec<u8>)>>),
    /// An empty-element tag, read as a start tag is.
    Empty(Vec<u8>, Vec<Option<(Vec<u8>, Vec<u8>)>>),
    /// An end tag: the bytes of its qualified name.
    End(Vec<u8>),
    /// A text: its raw (escaped) bytes.
    Text(Vec<u8>),
    /// The end of the text.
    Eof,
    /// Comments, CDATA, declarations, processing instructions, doctypes.
    Other,
    /// The reader reported a syntax error.
    Fail,
}

/// The view of a `RawXml`.
pub enum RawXmlView {
    Start(Seq<u8>, Seq<Option<(Seq<u8>, Seq<u8>)>>),
    Empty(Seq<u8>, Seq<Option<(Seq<u8>, Seq<u8>)>>),
    End(Seq<u8>),
    Text(Seq<u8>),
    Eof,
    Other,
    Fail,
}

/// The attribute items of a start tag, by their views.
pub open spec fn field_views(v: Seq<Option<(Vec<u8>, Vec<u8>)>>) -> Seq<Option<(Seq<u8>, Seq<u8>)>> {
    v.map_values(
        |f: Option<(Vec<u8>, Vec<u8>)>|
            match f {
                Some(p) => Some((p.0@, p.1@)),
                None => None,
            },
    )
}

impl View for RawXml {
    type V = RawXmlView;

    open spec fn view(&self) -> RawXmlView {
        match self {
            RawXml::Start(n, f) => RawXmlView::Start(n@, field_views(f@)),
            RawXml::Empty(n, f) => RawXmlView::Empty(n@, field_views(f@)),
            RawXml::End(n) => RawXmlView::End(n@),
            RawXml::Text(b) => RawXmlView::Text(b@),
            RawXml::Eof => RawXmlView::Eof,
            RawXml::Other => RawXmlView::Other,
            RawXml::Fail => RawXmlView::Fail,
        }
    }
}

/// The `k`-th event (counting from 0) that `quick_xml::Reader::from_str`
/// over `xml`, configured with `trim_text(true)`, yields from
/// `read_event`, in plain values.
pub uninterp spec fn xml_raw_event(xml: Seq<char>, k: nat) -> RawXmlView;

/// A reader over a text, with the text and the number of events read so far.
pub struct XmlCursor<'a> {
    reader: Reader<&'a [u8]>,
    text: Ghost<Seq<char>>,
    read: Ghost<nat>,
}

impl<'a> XmlCursor<'a> {
    /// The text the cursor reads.
    pub closed spec fn text(&self) -> Seq<char> {
        self.text@
    }

    /// How many events the cursor has handed over.
    pub closed spec fn read(&self) -> nat {
        self.read@
    }
}

/// `Reader::from_str(xml)` with `config_mut().trim_text(true)`: text events
/// lose their leading and trailing white space, and white-space-only text
/// yields no event. The cursor has read nothing yet.
#[verifier::external_body]
pub(crate) fn xml_cursor<'a>(xml: &'a str) -> (r: XmlCursor<'a>)
    ensures
        r.text() == xml@,
        r.read() == 0,
{
    let mut reader = Reader::from_str(xml);
    reader.config_mut().trim_text(true);
    XmlCursor { reader, text: Ghost(xml@), read: Ghost(0) }
}

/// `BytesStart::name`: the bytes of the tag's qualified name.
#[verifier::external_body]
fn start_name_bytes(e: &BytesStart) -> Vec<u8> {
    e.name().as_ref().to_vec()
}

/// `BytesStart::attributes`, each item reduced to the fields `key` and
/// `value` (raw, still escaped); `None` for an item the iterator reports as
/// an error.
#[verifier::external_body]
fn start_attr_fields(e: &BytesStart) -> Vec<Option<(Vec<u8>, Vec<u8>)>> {
    e.attributes().map(|a| a.ok().map(|a| (a.key.as_ref().to_vec(), a.value.to_vec()))).collect()
}

/// `BytesEnd::name`: the bytes of the tag's qualified name.
#[verifier::external_body]
fn end_name_bytes(e: &BytesEnd) -> Vec<u8> {
    e.name().as_ref().to_vec()
}

/// The raw (escaped) bytes of a text event, through its `Deref` to `[u8]`.
#[verifier::external_body]
fn text_bytes(e: &BytesText) -> Vec<u8> {
    e.to_vec()
}

/// `Reader::read_event`: the cursor's next event, told apart by its variant
/// and handed over in plain values; the cursor counts it as read. The event
/// is the one `xml_raw_event` names for the cursor's text and count.
#[verifier::external_body]
pub(crate) fn xml_next(cur: &mut XmlCursor) -> (r: RawXml)
    ensures
        final(cur).text() == old(cur).text(),
        final(cur).read() == old(cur).read() + 1,
        r@ == xml_raw_event(old(cur).text(), old(cur).read()),
{
    let r = match cur.reader.read_event() {
        Ok(Event::Start(e)) => RawXml::Start(start_name_bytes(&e), start_attr_fields(&e)),
        Ok(Event::Empty(e)) => RawXml::Empty(start_name_bytes(&e), start_attr_fields(&e)),
        Ok(Event::End(e)) => RawXml::End(end_name_bytes(&e)),
        Ok(Event::Text(e)) => RawXml::Text(text_bytes(&e)),
        Ok(Event::Eof) => RawXml::Eof,
        Ok(_) => RawXml::Other,
        Err(_) => RawXml::Fail,
    };
    cur.read = Ghost((cur.read@ + 1) as nat);
    r
}

} // verus!
