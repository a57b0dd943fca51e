//! Thin access to `serde_json` values.
//!
//! Extracted JSON candidates are parsed by `serde_json`, and the code
//! here reads single members out of the parsed value.  A parsed value is
//! opaque to the verifier; everything decided from what these calls
//! return is decided by verified code over the plain values they hand
//! back.

use vstd::prelude::*;

verus! {

#[verifier::external_type_specification]
#[verifier::external_body]
pub struct ExValue(serde_json::Value);

/// Relies on `serde_json::from_str`: parses text as one JSON document,
/// `None` when the text is not valid JSON.
#[verifier::external_body]
pub(crate) fn json_parse(s: &str) -> (r: Option<serde_json::Value>) {
    serde_json::from_str::<serde_json::Value>(s).ok()
}

/// Relies on `serde_json::Value::get`: the member of a JSON object under
/// `key`, `None` when the value is not an object or has no such member.
#[verifier::external_body]
pub(crate) fn json_get<'a>(v: &'a serde_json::Value, key: &str) -> (r: Option<&'a serde_json::Value>) {
    v.get(key)
}

/// Relies on `serde_json::Value::as_bool`: the boolean a JSON value
/// holds, `None` when it is not a boolean.
#[verifier::external_body]
pub(crate) fn json_as_bool(v: &serde_json::Value) -> (r: Option<bool>) {
    v.as_bool()
}

/// Relies on `serde_json::Value::as_str`: the string a JSON value holds,
/// `None` when it is not a string.
#[verifier::external_body]
pub(crate) fn json_as_str<'a>(v: &'a serde_json::Value) -> (r: Option<&'a str>) {
    v.as_str()
}

} // verus!
