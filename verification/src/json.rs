//! The trusted boundary to the JSON codec.
//!
//! The cache stores each document as JSON text and hands parsed documents
//! back to its callers. The codec itself is `serde_json`; its results are
//! named by uninterpreted spec functions, and every claim the library makes
//! about JSON text goes through those names.

use vstd::prelude::*;
use crate::errors::Error;

verus! {

#[verifier::external_type_specification]
#[verifier::external_body]
pub struct ExValue(serde_json::Value);

/// The JSON text that `serde_json::to_string` produces for a document.
/// Serialization of a `serde_json::Value` depends on the value alone.
pub uninterp spec fn text_of(v: serde_json::Value) -> Seq<char>;

/// What `serde_json::from_str::<Value>` returns for a piece of text:
/// the parsed document, or `None` when the text is not valid JSON.
/// Parsing depends on the text alone.
pub uninterp spec fn doc_of(s: Seq<char>) -> Option<serde_json::Value>;

/// The entry stored under `key` in the document `doc`: what indexing a
/// `serde_json::Value` by a string key yields (JSON `null` when `doc` is
/// not an object or holds no such key).
pub uninterp spec fn entry_of(doc: serde_json::Value, key: Seq<char>) -> serde_json::Value;

/// Relies on `serde_json::to_string`: serializing a `Value` always
/// succeeds (its map keys are strings and its `Serialize` impl never
/// errors), and the result is the JSON text of the value. The last
/// conjunct relies on `serde_json::from_str`: re-parsing that text either
/// fails — its parser enforces a recursion depth limit that the serializer
/// does not — or yields a value equal to the one serialized.
#[verifier::external_body]
pub(crate) fn to_json_text(v: &serde_json::Value) -> (r: Result<String, Error>)
    ensures
        r is Ok,
        r matches Ok(s) ==> s@ == text_of(*v),
        r matches Ok(s) ==> (doc_of(s@) is Some ==> doc_of(s@) == Some(*v)),
{
    match serde_json::to_string(v) {
        Ok(s) => Ok(s),
        Err(_) => Err(Error::Serialization),
    }
}

/// Relies on `serde_json::from_str::<Value>`: its result depends on the
/// text alone; `None` stands for a parse error.
#[verifier::external_body]
pub(crate) fn from_json_text(s: &str) -> (r: Option<serde_json::Value>)
    ensures
        r == doc_of(s@),
{
    serde_json::from_str(s).ok()
}

/// Relies on `serde_json::Value`'s `Index<&str>` impl: `doc[key]` is the
/// entry under `key`, or JSON `null` when the document is not an object or
/// has no such key; it never panics for a string index.
#[verifier::external_body]
pub(crate) fn index_value(doc: &serde_json::Value, key: &str) -> (r: serde_json::Value)
    ensures
        r == entry_of(*doc, key@),
{
    doc[key].clone()
}

} // verus!
