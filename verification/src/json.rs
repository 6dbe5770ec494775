//! JSON documents, as far as the provider reads them: the texts in a document.
use serde_json::Value;
use vstd::prelude::*;

verus! {

#[verifier::external_type_specification]
#[verifier::external_body]
pub struct ExValue(serde_json::Value);

/// What a JSON value holds: each text in it, under the JSON Pointer that leads to it.
pub uninterp spec fn json_texts(value: Value) -> Map<Seq<char>, Seq<char>>;

/// What `serde_json` reads in `text`: nothing if `text` is no JSON document, and otherwise the
/// texts in the document, each under the JSON Pointer that leads to it.
pub uninterp spec fn json_document(text: Seq<char>) -> Option<Map<Seq<char>, Seq<char>>>;

/// `serde_json::from_str` for a `Value`. Which texts are documents, and what they hold, is the
/// name `json_document`.
#[verifier::external_body]
pub(crate) fn parse_json(text: &str) -> (r: Option<Value>)
    ensures
        match r {
            Some(value) => json_document(text@) == Some(json_texts(value)),
            None => json_document(text@) is None,
        },
{
    serde_json::from_str::<Value>(text).ok()
}

/// The text at `pointer` in a document, if there is one.
pub open spec fn text_at(texts: Map<Seq<char>, Seq<char>>, pointer: Seq<char>) -> Option<Seq<char>> {
    if texts.contains_key(pointer) {
        Some(texts[pointer])
    } else {
        None
    }
}

/// `Value::pointer`, kept if it leads to a text (`Value::as_str`).
#[verifier::external_body]
pub(crate) fn pointed_text<'a>(value: &'a Value, pointer: &str) -> (r: Option<&'a str>)
    ensures
        match r {
            Some(s) => text_at(json_texts(*value), pointer@) == Some(s@),
            None => text_at(json_texts(*value), pointer@) is None,
        },
{
    value.pointer(pointer)?.as_str()
}

} // verus!
