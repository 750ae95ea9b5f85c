//! Trusted access to the outside JSON parser.
//!
//! Manifest files, the persisted trust record and DNS-over-HTTPS responses
//! arrive as JSON text. Parsing and navigating them is delegated to
//! `serde_json` behind the wrappers below; a parsed value is opaque to the
//! verifier, so everything the engine concludes from one is re-checked by
//! verified code (pin normalisation, record-type filtering) on the plain
//! strings handed out.

use vstd::prelude::*;

verus! {

#[verifier::external_type_specification]
#[verifier::external_body]
pub struct ExJsonValue(serde_json::Value);

#[verifier::external_type_specification]
#[verifier::external_body]
pub struct ExJsonError(serde_json::Error);

/// Whether a text is valid JSON, exactly where `serde_json::from_str::<Value>`
/// accepts it: a function of the input text alone.
pub uninterp spec fn json_parses(s: Seq<char>) -> bool;

/// Relies on `serde_json::from_str::<Value>`: it succeeds exactly on valid
/// JSON text, deciding the same way for the same input everywhere.
#[verifier::external_body]
pub(crate) fn json_parse(s: &str) -> (r: Result<serde_json::Value, serde_json::Error>)
    ensures
        r is Ok <==> json_parses(s@),
{
    serde_json::from_str(s)
}

/// Relies on `serde_json::Value::get` with a string index: looks a field up
/// in a JSON object, `None` for other value kinds or a missing key.
#[verifier::external_body]
pub(crate) fn json_get<'a>(v: &'a serde_json::Value, key: &str) -> (r: Option<&'a serde_json::Value>) {
    v.get(key)
}

/// Relies on `serde_json::Value::as_array`: the elements where the value is
/// an array, `None` otherwise.
#[verifier::external_body]
pub(crate) fn json_as_array<'a>(v: &'a serde_json::Value) -> (r: Option<&'a Vec<serde_json::Value>>) {
    v.as_array()
}

/// Relies on `serde_json::Value::as_str`: the text where the value is a JSON
/// string, `None` otherwise.
#[verifier::external_body]
pub(crate) fn json_as_str<'a>(v: &'a serde_json::Value) -> (r: Option<&'a str>) {
    v.as_str()
}

/// The string elements of the array under `key` in a JSON text, in array
/// order: empty where the text does not parse, the key is absent, or the
/// field is no array; non-string elements are skipped. A function of the
/// text alone, defined by the outside parser; contracts speak of it only
/// through this name.
pub uninterp spec fn json_string_array_of(text: Seq<char>, key: Seq<char>) -> Seq<Seq<char>>;

/// Relies on `serde_json::from_str::<Value>`, `Value::get`, `Value::as_array`
/// and `Value::as_str`: each is a pure function of the text, so the string
/// elements under `key` are too.
#[verifier::external_body]
pub(crate) fn json_string_array(text: &str, key: &str) -> (r: Vec<String>)
    ensures
        r@.map_values(|s: String| s@) == json_string_array_of(text@, key@),
{
    let mut out: Vec<String> = Vec::new();
    if let Ok(v) = serde_json::from_str::<serde_json::Value>(text) {
        if let Some(arr) = v.get(key).and_then(|f| f.as_array()) {
            for item in arr {
                if let Some(s) = item.as_str() {
                    out.push(s.to_string());
                }
            }
        }
    }
    out
}

/// The string field under `key` of a JSON text: `None` where the text does
/// not parse, the key is absent, or the field is no string. A function of
/// the text alone, defined by the outside parser; contracts speak of it only
/// through this name.
pub uninterp spec fn json_string_field_of(text: Seq<char>, key: Seq<char>) -> Option<Seq<char>>;

/// Relies on `serde_json::from_str::<Value>`, `Value::get` and
/// `Value::as_str`: each is a pure function of the text, so the string field
/// under `key` is too.
#[verifier::external_body]
pub(crate) fn json_string_field(text: &str, key: &str) -> (r: Option<String>)
    ensures
        match r {
            Some(s) => json_string_field_of(text@, key@) == Some(s@),
            None => json_string_field_of(text@, key@) is None,
        },
{
    match serde_json::from_str::<serde_json::Value>(text) {
        Ok(v) => match v.get(key).and_then(|f| f.as_str()) {
            Some(s) => Some(s.to_string()),
            None => None,
        },
        Err(_) => None,
    }
}

} // verus!
