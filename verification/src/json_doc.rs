//! A JSON document parsed once with `serde_json`, whose values are looked
//! up by JSON pointer and handed over in plain values.
//!
//! `json_node_at` names what `serde_json::from_str::<Value>` of a text
//! followed by `Value::pointer` finds. A document remembers, as ghost
//! state, the text it was parsed from; it is made only by `json_doc`, so
//! that state always describes the value inside it.

use vstd::prelude::*;
use serde_json::Value;

verus! {

#[verifier::external_type_specification]
#[verifier::external_body]
pub struct ExJsonValue(Value);

/// What a JSON pointer finds in a JSON text, in plain values.
pub enum JsonNode {
    /// Nothing at the pointer.
    Absent,
    Null,
    Bool(bool),
    /// A number, as `Number`'s `Display` writes it.
    Number(String),
    Str(String),
    /// An array, with its length.
    Array(usize),
    Object,
}

/// The view of a `JsonNode`; `Invalid` where the text is not JSON.
pub enum JsonNodeView {
    Invalid,
    Absent,
    Null,
    Bool(bool),
    Number(Seq<char>),
    Str(Seq<char>),
    Array(nat),
    Object,
}

impl View for JsonNode {
    type V = JsonNodeView;

    open spec fn view(&self) -> JsonNodeView {
        match self {
            JsonNode::Absent => JsonNodeView::Absent,
            JsonNode::Null => JsonNodeView::Null,
            JsonNode::Bool(b) => JsonNodeView::Bool(*b),
            JsonNode::Number(n) => JsonNodeView::Number(n@),
            JsonNode::Str(s) => JsonNodeView::Str(s@),
            JsonNode::Array(n) => JsonNodeView::Array(*n as nat),
            JsonNode::Object => JsonNodeView::Object,
        }
    }
}

/// What `serde_json::from_str::<Value>` of `text` followed by
/// `Value::pointer(ptr)` finds: `Invalid` where the text does not parse,
/// `Absent` where the pointer finds nothing.
pub uninterp spec fn json_node_at(text: Seq<char>, ptr: Seq<char>) -> JsonNodeView;

/// A parsed JSON document, with the text it was parsed from.
pub struct JsonDoc {
    value: Value,
    text: Ghost<Seq<char>>,
}

impl JsonDoc {
    /// The text the document was parsed from.
    pub closed spec fn text(&self) -> Seq<char> {
        self.text@
    }
}

/// `serde_json::from_str::<Value>(text)`: the document, or `None` where the
/// text is not JSON (where the whole-document pointer `""` finds `Invalid`).
#[verifier::external_body]
pub(crate) fn json_doc(text: &str) -> (r: Option<JsonDoc>)
    ensures
        r is None <==> json_node_at(text@, ""@) is Invalid,
        r matches Some(d) ==> d.text() == text@,
{
    match serde_json::from_str::<Value>(text) {
        Ok(value) => Some(JsonDoc { value, text: Ghost(text@) }),
        Err(_) => None,
    }
}

/// `Value::pointer(ptr)` on the document, the value found told apart by
/// variant: a number as its text, a string, an array's length.
#[verifier::external_body]
pub(crate) fn json_at(doc: &JsonDoc, ptr: &str) -> (r: JsonNode)
    ensures
        r@ == json_node_at(doc.text(), ptr@),
{
    match doc.value.pointer(ptr) {
        None => JsonNode::Absent,
        Some(Value::Null) => JsonNode::Null,
        Some(Value::Bool(b)) => JsonNode::Bool(*b),
        Some(Value::Number(n)) => JsonNode::Number(n.to_string()),
        Some(Value::String(s)) => JsonNode::Str(s.clone()),
        Some(Value::Array(a)) => JsonNode::Array(a.len()),
        Some(Value::Object(_)) => JsonNode::Object,
    }
}

} // verus!
