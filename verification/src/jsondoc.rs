//! Access to single string fields of JSON documents, the only JSON shape the
//! manifest and install-metadata readers need. Parsing is done by serde_json
//! behind one trusted function; everything that interprets the outcome is
//! verified code.

use vstd::prelude::*;

verus! {

/// Outcome of looking up one top-level field of a JSON document as a string.
#[derive(Clone, Debug, PartialEq, Eq)]
pub enum JsonFieldOutcome {
    /// The text does not parse as a JSON object.
    BadDocument,
    /// The object has no such field.
    Missing,
    /// The field is JSON `null`.
    NullValue,
    /// The field is present but not a string.
    NotText,
    /// The field is this string.
    Text(String),
}

/// What looking up `field` at the top level of the JSON document `text` yields.
pub uninterp spec fn json_field_spec(text: Seq<char>, field: Seq<char>) -> JsonFieldOutcome;

/// Relies on serde_json: `from_str` parses the document, `Map::get` looks the
/// field up, and the `Value` variants tell a string apart from anything else.
/// The outcome is a function of the two texts alone.
#[verifier::external_body]
pub fn json_text_field(text: &str, field: &str) -> (r: JsonFieldOutcome)
    ensures
        r == json_field_spec(text@, field@),
{
    match serde_json::from_str::<serde_json::Value>(text) {
        Ok(serde_json::Value::Object(map)) => match map.get(field) {
            None => JsonFieldOutcome::Missing,
            Some(serde_json::Value::Null) => JsonFieldOutcome::NullValue,
            Some(serde_json::Value::String(t)) => JsonFieldOutcome::Text(t.clone()),
            Some(_) => JsonFieldOutcome::NotText,
        },
        Ok(_) => JsonFieldOutcome::BadDocument,
        Err(_) => JsonFieldOutcome::BadDocument,
    }
}

} // verus!
