//! `.lra` (layer resource archive) files: a zlib (`0x78 ..`) or gzip
//! (`0x1F 0x8B`) stream whose content is a short binary header followed by
//! `.lrc` XML, or a JSON description (3D Tiles and the like).

use vstd::prelude::*;
use crate::bytes::{find_bytes, find_bytes_from, slice_bytes};
use crate::compress::{gzip_decode, gzip_decoded, zlib_decode, zlib_decoded};
use crate::lrc::{lrc_bytes_source, parse_lrc_bytes, LrcError};
use crate::text::{string_of, trim_start, trim_start_chars, utf8_chars};
use crate::types::{default_source_view, SourceKind, TileSource, TileSourceView};
use crate::json_doc::{json_node_at, JsonNodeView};

verus! {

/// Why an `.lra` file could not be read.
#[derive(Debug, Clone, Copy, PartialEq, Eq, Structural)]
pub enum LraError {
    /// Fewer than two bytes.
    TooShort,
    /// Neither a zlib nor a gzip stream.
    UnknownCompression,
    /// The stream could not be inflated.
    Decompress,
    /// The inflated content is neither `.lrc` XML nor a JSON object.
    UnknownContent,
    /// The JSON content does not parse.
    Json,
    /// The JSON content has neither `baseUri` nor `root.content.uri`.
    UnknownJson,
    /// The `.lrc` XML inside could not be read.
    Lrc(LrcError),
}

// ─── JSON content ───────────────────────────────────────────────────────────

/// What a JSON pointer finds in a JSON text.
pub enum JsonField {
    /// The text is not JSON.
    Invalid,
    /// Nothing at the pointer.
    Absent,
    /// A value that is not a string.
    NotStr,
    Str(String),
}

pub enum JsonFieldView {
    Invalid,
    Absent,
    NotStr,
    Str(Seq<char>),
}

impl View for JsonField {
    type V = JsonFieldView;

    open spec fn view(&self) -> JsonFieldView {
        match self {
            JsonField::Invalid => JsonFieldView::Invalid,
            JsonField::Absent => JsonFieldView::Absent,
            JsonField::NotStr => JsonFieldView::NotStr,
            JsonField::Str(s) => JsonFieldView::Str(s@),
        }
    }
}

/// What `serde_json::from_str::<Value>` of `text` followed by
/// `Value::pointer(ptr)` finds, with every value that is not a string read
/// as `NotStr`.
pub open spec fn json_field_at(text: Seq<char>, ptr: Seq<char>) -> JsonFieldView {
    match json_node_at(text, ptr) {
        JsonNodeView::Invalid => JsonFieldView::Invalid,
        JsonNodeView::Absent => JsonFieldView::Absent,
        JsonNodeView::Str(s) => JsonFieldView::Str(s),
        _ => JsonFieldView::NotStr,
    }
}

/// Parses `text` with `serde_json::from_str::<serde_json::Value>` and looks
/// `ptr` up with `Value::pointer`, telling the value found apart by variant.
#[verifier::external_body]
pub(crate) fn json_field(text: &str, ptr: &str) -> (r: JsonField)
    ensures
        r@ == json_field_at(text@, ptr@),
{
    match serde_json::from_str::<serde_json::Value>(text) {
        Err(_) => JsonField::Invalid,
        Ok(v) => match v.pointer(ptr) {
            None => JsonField::Absent,
            Some(serde_json::Value::String(s)) => JsonField::Str(s.clone()),
            Some(_) => JsonField::NotStr,
        },
    }
}

/// The source a JSON `.lra` describes: its URL from `baseUri`, or else from
/// `root.content.uri` (empty where that value is not a string), and its name
/// from `extras.name` (else `default_name`).
pub open spec fn lra_json_source(json: Seq<char>, default_name: Seq<char>) -> Result<TileSourceView, LraError> {
    let base = json_field_at(json, "/baseUri"@);
    let uri = json_field_at(json, "/root/content/uri"@);
    let name = json_field_at(json, "/extras/name"@);
    if base is Invalid {
        Err(LraError::Json)
    } else {
        let chosen = if base is Absent {
            uri
        } else {
            base
        };
        if chosen is Absent {
            Err(LraError::UnknownJson)
        } else {
            Ok(
                TileSourceView {
                    kind: SourceKind::Lra,
                    name: match name {
                        JsonFieldView::Str(n) => n,
                        _ => default_name,
                    },
                    url_template: match chosen {
                        JsonFieldView::Str(u) => u,
                        _ => Seq::empty(),
                    },
                    ..default_source_view()
                },
            )
        }
    }
}

/// A result agrees with a described outcome.
pub open spec fn lra_outcome_is(r: Result<TileSource, LraError>, o: Result<TileSourceView, LraError>) -> bool {
    match r {
        Ok(s) => o == Ok::<TileSourceView, LraError>(s@),
        Err(e) => o == Err::<TileSourceView, LraError>(e),
    }
}

/// Reads a JSON `.lra` description.
pub fn parse_lra_json(json: &str, default_name: &str) -> (r: Result<TileSource, LraError>)
    ensures
        lra_outcome_is(r, lra_json_source(json@, default_name@)),
{
    proof {
        reveal_strlit("/baseUri");
        reveal_strlit("/root/content/uri");
        reveal_strlit("/extras/name");
    }
    let base = json_field(json, "/baseUri");
    if let JsonField::Invalid = base {
        return Err(LraError::Json);
    }
    let chosen = match base {
        JsonField::Absent => json_field(json, "/root/content/uri"),
        other => other,
    };
    if let JsonField::Absent = chosen {
        return Err(LraError::UnknownJson);
    }
    let mut s = TileSource::default();
    s.kind = SourceKind::Lra;
    s.name = match json_field(json, "/extras/name") {
        JsonField::Str(n) => n,
        _ => String::from_str(default_name),
    };
    s.url_template = match chosen {
        JsonField::Str(u) => u,
        _ => String::new(),
    };
    assert(s@ =~= lra_json_source(json@, default_name@).unwrap());
    Ok(s)
}

// ─── inflated content ───────────────────────────────────────────────────────

/// Where the XML of inflated content starts: the first `<?xml`, or else the
/// first `<DataDefine`.
pub open spec fn xml_start(data: Seq<u8>) -> Option<int> {
    match find_bytes_from(data, seq![0x3cu8, 0x3f, 0x78, 0x6d, 0x6c], 0) {
        Some(i) => Some(i),
        None => find_bytes_from(data, seq![0x3cu8, 0x44, 0x61, 0x74, 0x61, 0x44, 0x65, 0x66, 0x69, 0x6e, 0x65], 0),
    }
}

/// Offset of the XML in inflated `.lra` content, past any binary prefix.
pub fn find_xml_start(data: &[u8]) -> (r: Option<usize>)
    ensures
        match r {
            Some(i) => xml_start(data@) == Some(i as int),
            None => xml_start(data@) is None,
        },
        r matches Some(i) ==> i < data@.len(),
{
    let decl: [u8; 5] = [0x3c, 0x3f, 0x78, 0x6d, 0x6c];
    assert(decl@ =~= seq![0x3cu8, 0x3f, 0x78, 0x6d, 0x6c]);
    match find_bytes(data, decl.as_slice()) {
        Some(i) => return Some(i),
        None => {},
    }
    let root: [u8; 11] = [0x3c, 0x44, 0x61, 0x74, 0x61, 0x44, 0x65, 0x66, 0x69, 0x6e, 0x65];
    assert(root@ =~= seq![0x3cu8, 0x44, 0x61, 0x74, 0x61, 0x44, 0x65, 0x66, 0x69, 0x6e, 0x65]);
    find_bytes(data, root.as_slice())
}

/// What inflated content that is not XML gives: a JSON description when the
/// text (UTF-8) starts, after white space, with `{`.
pub open spec fn lra_text_source(data: Seq<u8>, default_name: Seq<char>) -> Result<TileSourceView, LraError> {
    if vstd::utf8::valid_utf8(data) {
        let t = trim_start(vstd::utf8::decode_utf8(data));
        if t.len() > 0 && t[0] == '{' {
            lra_json_source(t, default_name)
        } else {
            Err(LraError::UnknownContent)
        }
    } else {
        Err(LraError::UnknownContent)
    }
}

/// The source replaced by one of kind `k`.
pub open spec fn with_kind(v: TileSourceView, k: SourceKind) -> TileSourceView {
    TileSourceView { kind: k, ..v }
}

/// What inflated content gives: for XML (from its declaration or root
/// element on), what the `.lrc` reader gives for those bytes, a source
/// taking the kind `Lra`; otherwise the JSON description.
pub open spec fn lra_decompressed_source(data: Seq<u8>, default_name: Seq<char>) -> Result<TileSourceView, LraError> {
    match xml_start(data) {
        Some(off) => match lrc_bytes_source(data.subrange(off, data.len() as int), default_name) {
            Ok(v) => Ok(with_kind(v, SourceKind::Lra)),
            Err(e) => Err(LraError::Lrc(e)),
        },
        None => lra_text_source(data, default_name),
    }
}

/// `r` is what reading the inflated content `data` gives.
pub open spec fn decompressed_outcome(r: Result<TileSource, LraError>, data: Seq<u8>, default_name: Seq<char>) -> bool {
    lra_outcome_is(r, lra_decompressed_source(data, default_name))
}

/// Reads inflated `.lra` content.
pub fn parse_decompressed(data: &[u8], default_name: &str) -> (r: Result<TileSource, LraError>)
    ensures
        decompressed_outcome(r, data@, default_name@),
{
    match find_xml_start(data) {
        Some(off) => {
            let xml = slice_bytes(data, off, data.len());
            match parse_lrc_bytes(xml.as_slice(), default_name) {
                Ok(s0) => {
                    let ghost v0 = s0@;
                    let mut s = s0;
                    s.kind = SourceKind::Lra;
                    assert(s@ =~= with_kind(v0, SourceKind::Lra));
                    Ok(s)
                },
                Err(e) => Err(LraError::Lrc(e)),
            }
        },
        None => {
            match utf8_chars(data) {
                Some(cs) => {
                    let t = trim_start_chars(&cs);
                    if t.len() > 0 && t[0] == '{' {
                        let js = string_of(&t);
                        parse_lra_json(js.as_str(), default_name)
                    } else {
                        Err(LraError::UnknownContent)
                    }
                },
                None => Err(LraError::UnknownContent),
            }
        },
    }
}

/// What reading the bytes of an `.lra` file gives.
pub open spec fn lra_outcome(r: Result<TileSource, LraError>, raw: Seq<u8>, default_name: Seq<char>) -> bool {
    if raw.len() < 2 {
        r matches Err(e) && e == LraError::TooShort
    } else if raw[0] == 0x78 {
        match zlib_decoded(raw) {
            None => r matches Err(e) && e == LraError::Decompress,
            Some(d) => decompressed_outcome(r, d, default_name),
        }
    } else if raw[0] == 0x1f && raw[1] == 0x8b {
        match gzip_decoded(raw) {
            None => r matches Err(e) && e == LraError::Decompress,
            Some(d) => decompressed_outcome(r, d, default_name),
        }
    } else {
        r matches Err(e) && e == LraError::UnknownCompression
    }
}

/// Reads the bytes of an `.lra` file.
pub fn parse_lra_bytes(raw: &[u8], default_name: &str) -> (r: Result<TileSource, LraError>)
    ensures
        lra_outcome(r, raw@, default_name@),
{
    if raw.len() < 2 {
        return Err(LraError::TooShort);
    }
    let data = if raw[0] == 0x78 {
        match zlib_decode(raw) {
            Some(d) => d,
            None => return Err(LraError::Decompress),
        }
    } else if raw[0] == 0x1f && raw[1] == 0x8b {
        match gzip_decode(raw) {
            Some(d) => d,
            None => return Err(LraError::Decompress),
        }
    } else {
        return Err(LraError::UnknownCompression);
    };
    parse_decompressed(data.as_slice(), default_name)
}

} // verus!
