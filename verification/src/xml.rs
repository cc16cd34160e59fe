//! XML documents read into a list of plain events with `quick_xml`.
//!
//! The reader works with `trim_text(true)`, as both XML formats of this
//! library are read. Tag names, attributes and text are handed on as plain
//! strings; the formats' own logic works on those.

use vstd::prelude::*;
use crate::text::{pair_views, utf8_chars, string_of};
use crate::xml_cursor::{field_views, xml_cursor, xml_next, xml_raw_event, RawXml, RawXmlView};

verus! {

/// One event of an XML document, in plain values.
#[derive(Debug, Clone)]
pub enum XmlEvent {
    /// A start tag, or an empty-element tag (`empty`).
    Start {
        /// The qualified name, e.g. `ows:Title`.
        name: String,
        /// The name without its namespace prefix, e.g. `Title`.
        local_name: String,
        /// Attribute names with their unescaped values, in document order.
        attrs: Vec<(String, String)>,
        /// The same attributes keyed by their local names.
        local_attrs: Vec<(String, String)>,
        empty: bool,
    },
    End { name: String, local_name: String },
    Text {
        /// The text with its entities replaced; `None` when that fails.
        unescaped: Option<String>,
        /// The text as it stands in the document.
        raw: String,
    },
    Other,
}

/// The view of an `XmlEvent`.
pub enum XmlEventView {
    Start {
        name: Seq<char>,
        local_name: Seq<char>,
        attrs: Seq<(Seq<char>, Seq<char>)>,
        local_attrs: Seq<(Seq<char>, Seq<char>)>,
        empty: bool,
    },
    End { name: Seq<char>, local_name: Seq<char> },
    Text { unescaped: Option<Seq<char>>, raw: Seq<char> },
    Other,
}

impl View for XmlEvent {
    type V = XmlEventView;

    open spec fn view(&self) -> XmlEventView {
        match self {
            XmlEvent::Start { name, local_name, attrs, local_attrs, empty } => XmlEventView::Start {
                name: name@,
                local_name: local_name@,
                attrs: pair_views(attrs@),
                local_attrs: pair_views(local_attrs@),
                empty: *empty,
            },
            XmlEvent::End { name, local_name } => XmlEventView::End { name: name@, local_name: local_name@ },
            XmlEvent::Text { unescaped, raw } => XmlEventView::Text {
                unescaped: match unescaped {
                    Some(u) => Some(u@),
                    None => None,
                },
                raw: raw@,
            },
            XmlEvent::Other => XmlEventView::Other,
        }
    }
}

/// Views of a list of events.
pub open spec fn event_views(v: Seq<XmlEvent>) -> Seq<XmlEventView> {
    v.map_values(|e: XmlEvent| e@)
}

/// The part of a qualified XML name after its first `:`; the whole name
/// when it has none.
pub open spec fn local_part(name: Seq<u8>) -> Seq<u8> {
    match first_colon(name, 0) {
        Some(i) => name.subrange(i + 1, name.len() as int),
        None => name,
    }
}

/// First index, from `k` on, of a `:` byte.
pub open spec fn first_colon(name: Seq<u8>, k: int) -> Option<int>
    decreases name.len() - k,
{
    if k < 0 || k >= name.len() {
        None
    } else if name[k] == 0x3a {
        Some(k)
    } else {
        first_colon(name, k + 1)
    }
}

/// What `quick_xml::escape::unescape` returns for a text: the text with its
/// predefined entities (`&lt;` `&gt;` `&amp;` `&apos;` `&quot;`) and
/// character references replaced; `None` where it reports an error.
pub uninterp spec fn xml_unescaped(s: Seq<char>) -> Option<Seq<char>>;

/// The local part of a qualified name (what `QName::local_name` gives): the
/// bytes after the first `:`, or all of them.
fn qname_local(name: &[u8]) -> (r: Vec<u8>)
    ensures
        r@ == local_part(name@),
{
    let mut i: usize = 0;
    while i < name.len()
        invariant
            i <= name@.len(),
            forall|j: int| 0 <= j < i ==> name@[j] != 0x3a,
            first_colon(name@, 0) == first_colon(name@, i as int),
        ensures
            i <= name@.len(),
            first_colon(name@, 0) == first_colon(name@, i as int),
            i < name@.len() ==> name@[i as int] == 0x3a,
        decreases name.len() - i,
    {
        if name[i] == 0x3a {
            break;
        }
        i = i + 1;
    }
    let start: usize = if i < name.len() { i + 1 } else { 0 };
    let mut out: Vec<u8> = Vec::new();
    let mut k: usize = start;
    while k < name.len()
        invariant
            start <= k <= name@.len(),
            out@ == name@.subrange(start as int, k as int),
        decreases name.len() - k,
    {
        out.push(name[k]);
        k = k + 1;
    }
    out
}

/// `quick_xml::escape::unescape`, with the error reduced to `None`.
#[verifier::external_body]
fn xml_unescape(s: &str) -> (r: Option<String>)
    ensures
        r matches Some(u) ==> xml_unescaped(s@) == Some(u@),
        r is None ==> xml_unescaped(s@) is None,
{
    quick_xml::escape::unescape(s).ok().map(|c| c.into_owned())
}

/// What `String::from_utf8_lossy` gives for the bytes `b`.
pub uninterp spec fn utf8_lossy(b: Seq<u8>) -> Seq<char>;

/// `String::from_utf8_lossy`: for valid UTF-8 its characters; invalid
/// sequences become U+FFFD. The result is named `utf8_lossy` of the bytes.
#[verifier::external_body]
pub(crate) fn lossy_utf8(b: &[u8]) -> (r: String)
    ensures
        r@ == utf8_lossy(b@),
        vstd::utf8::valid_utf8(b@) ==> r@ == vstd::utf8::decode_utf8(b@),
{
    String::from_utf8_lossy(b).into_owned()
}

/// What `unescape` of the reader's types gives for raw bytes: UTF-8
/// decoding, then entity replacement.
pub open spec fn decoded_unescaped(b: Seq<u8>) -> Option<Seq<char>> {
    if vstd::utf8::valid_utf8(b) {
        xml_unescaped(vstd::utf8::decode_utf8(b))
    } else {
        None
    }
}

fn decode_unescape(b: &Vec<u8>) -> (r: Option<String>)
    ensures
        r matches Some(u) ==> decoded_unescaped(b@) == Some(u@),
        r is None ==> decoded_unescaped(b@) is None,
{
    match utf8_chars(b.as_slice()) {
        Some(cs) => {
            let s = string_of(&cs);
            xml_unescape(s.as_str())
        },
        None => None,
    }
}

/// The value of an attribute as `Attribute::unescape_value` gives it, with
/// an error read as the empty string.
fn attr_value(raw: &Vec<u8>) -> (r: String)
    ensures
        r@ == match decoded_unescaped(raw@) {
            Some(u) => u,
            None => Seq::empty(),
        },
{
    match decode_unescape(raw) {
        Some(u) => u,
        None => String::new(),
    }
}

/// The value an attribute's raw bytes give: unescaped, or empty where that
/// fails.
pub open spec fn attr_value_of(raw: Seq<u8>) -> Seq<char> {
    match decoded_unescaped(raw) {
        Some(u) => u,
        None => Seq::empty(),
    }
}

/// The attributes of a start event, in order: items reported as errors are
/// left out, and each other item gives its name (its local name when
/// `local`) with its value.
pub open spec fn attr_list(fields: Seq<Option<(Seq<u8>, Seq<u8>)>>, local: bool) -> Seq<(Seq<char>, Seq<char>)>
    decreases fields.len(),
{
    if fields.len() == 0 {
        Seq::empty()
    } else {
        let prev = attr_list(fields.drop_last(), local);
        match fields.last() {
            Some(p) => prev.push(
                (if local { utf8_lossy(local_part(p.0)) } else { utf8_lossy(p.0) }, attr_value_of(p.1)),
            ),
            None => prev,
        }
    }
}

/// The start event a tag with qualified name bytes `nb` and attribute items
/// `fields` gives.
pub open spec fn start_view(nb: Seq<u8>, fields: Seq<Option<(Seq<u8>, Seq<u8>)>>, empty: bool) -> XmlEventView {
    XmlEventView::Start {
        name: utf8_lossy(nb),
        local_name: utf8_lossy(local_part(nb)),
        attrs: attr_list(fields, false),
        local_attrs: attr_list(fields, true),
        empty,
    }
}

/// The end event a closing tag with qualified name bytes `nb` gives.
pub open spec fn end_view(nb: Seq<u8>) -> XmlEventView {
    XmlEventView::End { name: utf8_lossy(nb), local_name: utf8_lossy(local_part(nb)) }
}

/// The text event the raw text bytes `b` give.
pub open spec fn text_view(b: Seq<u8>) -> XmlEventView {
    XmlEventView::Text { unescaped: decoded_unescaped(b), raw: utf8_lossy(b) }
}

/// The event one event of the reader turns into.
pub open spec fn event_of(r: RawXmlView) -> XmlEventView {
    match r {
        RawXmlView::Start(nb, f) => start_view(nb, f, false),
        RawXmlView::Empty(nb, f) => start_view(nb, f, true),
        RawXmlView::End(nb) => end_view(nb),
        RawXmlView::Text(b) => text_view(b),
        _ => XmlEventView::Other,
    }
}

/// The events of `xml` from the reader's `k`-th on, reading at most
/// `fuel + 1` more: up to the end of the text; `None` where the reader
/// reports an error first or the reads run out.
pub open spec fn events_from(xml: Seq<char>, k: nat, fuel: nat) -> Option<Seq<XmlEventView>>
    decreases fuel,
{
    match xml_raw_event(xml, k) {
        RawXmlView::Eof => Some(Seq::empty()),
        RawXmlView::Fail => None,
        r => if fuel == 0 {
            None
        } else {
            match events_from(xml, k + 1, (fuel - 1) as nat) {
                Some(rest) => Some(seq![event_of(r)] + rest),
                None => None,
            }
        },
    }
}

/// The events of the text `xml`, in document order: what the reader
/// yields up to the end of the text, each in plain values; `None` where the
/// reader reports an error. A reader over a text of `n` characters reaches
/// its end within `n + 1` reads, as every event it yields before the end
/// consumes at least one character; the reads are bounded by that.
pub open spec fn xml_event_list(xml: Seq<char>) -> Option<Seq<XmlEventView>> {
    events_from(xml, 0, xml.len())
}

/// The start event of a tag with qualified name bytes `nb` and attribute
/// items `fields`.
fn start_event(nb: &Vec<u8>, fields: &Vec<Option<(Vec<u8>, Vec<u8>)>>, empty: bool) -> (r: XmlEvent)
    ensures
        r@ == start_view(nb@, field_views(fields@), empty),
{
    let lb = qname_local(nb.as_slice());
    let ghost fv = field_views(fields@);
    let mut attrs: Vec<(String, String)> = Vec::new();
    let mut local_attrs: Vec<(String, String)> = Vec::new();
    let mut i: usize = 0;
    while i < fields.len()
        invariant
            i <= fields@.len(),
            fv == field_views(fields@),
            pair_views(attrs@) == attr_list(fv.subrange(0, i as int), false),
            pair_views(local_attrs@) == attr_list(fv.subrange(0, i as int), true),
        decreases fields.len() - i,
    {
        assert(fv.subrange(0, i + 1).drop_last() =~= fv.subrange(0, i as int));
        match &fields[i] {
            Some((k, v)) => {
                let value = attr_value(v);
                let lk = qname_local(k.as_slice());
                let ghost a0 = pair_views(attrs@);
                let ghost l0 = pair_views(local_attrs@);
                attrs.push((lossy_utf8(k.as_slice()), value.clone()));
                local_attrs.push((lossy_utf8(lk.as_slice()), value));
                assert(pair_views(attrs@) =~= a0.push((utf8_lossy(k@), attr_value_of(v@))));
                assert(pair_views(local_attrs@) =~= l0.push((utf8_lossy(local_part(k@)), attr_value_of(v@))));
            },
            None => {},
        }
        i += 1;
    }
    assert(fv.subrange(0, fv.len() as int) =~= fv);
    XmlEvent::Start {
        name: lossy_utf8(nb.as_slice()),
        local_name: lossy_utf8(lb.as_slice()),
        attrs,
        local_attrs,
        empty,
    }
}

/// The end event of a closing tag with qualified name bytes `nb`.
fn end_event(nb: &Vec<u8>) -> (r: XmlEvent)
    ensures
        r@ == end_view(nb@),
{
    let lb = qname_local(nb.as_slice());
    XmlEvent::End { name: lossy_utf8(nb.as_slice()), local_name: lossy_utf8(lb.as_slice()) }
}

/// The text event of the raw text bytes `b`.
fn text_event(b: &Vec<u8>) -> (r: XmlEvent)
    ensures
        r@ == text_view(b@),
{
    XmlEvent::Text { unescaped: decode_unescape(b), raw: lossy_utf8(b.as_slice()) }
}

/// Reads `xml` to its end into a list of events; `None` when the reader
/// reports an error (or does not reach the end within the bound of
/// `xml_event_list`).
pub fn xml_events(xml: &str) -> (r: Option<Vec<XmlEvent>>)
    ensures
        match xml_event_list(xml@) {
            None => r is None,
            Some(evs) => r matches Some(v) && event_views(v@) == evs,
        },
{
    let mut cur = xml_cursor(xml);
    let ghost x = xml@;
    let mut events: Vec<XmlEvent> = Vec::new();
    let mut fuel: usize = xml.unicode_len();
    loop
        invariant
            x == xml@,
            cur.text() == x,
            xml_event_list(x) == match events_from(x, cur.read(), fuel as nat) {
                Some(rest) => Some(event_views(events@) + rest),
                None => None::<Seq<XmlEventView>>,
            },
        decreases fuel,
    {
        let ghost k = cur.read();
        let ghost before = event_views(events@);
        let raw = xml_next(&mut cur);
        assert(raw@ == xml_raw_event(x, k));
        let ghost here = events_from(x, k, fuel as nat);
        let ev = match raw {
            RawXml::Start(nb, f) => start_event(&nb, &f, false),
            RawXml::Empty(nb, f) => start_event(&nb, &f, true),
            RawXml::End(nb) => end_event(&nb),
            RawXml::Text(b) => text_event(&b),
            RawXml::Other => XmlEvent::Other,
            RawXml::Eof => {
                assert(here == Some(Seq::<XmlEventView>::empty()));
                assert(before + Seq::<XmlEventView>::empty() =~= before);
                return Some(events);
            },
            RawXml::Fail => {
                assert(here is None);
                return None;
            },
        };
        assert(ev@ == event_of(raw@));
        events.push(ev);
        assert(event_views(events@) =~= before.push(ev@));
        if fuel == 0 {
            assert(here is None);
            return None;
        }
        proof {
            match events_from(x, k + 1, (fuel - 1) as nat) {
                Some(rest) => {
                    assert(before + (seq![ev@] + rest) =~= before.push(ev@) + rest);
                },
                None => {},
            }
        }
        fuel -= 1;
    }
}

} // verus!
