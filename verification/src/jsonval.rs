//! Trusted boundary to `serde_json`: the evaluated manifest expression
//! yields a JSON object, which is parsed here into an opaque value and
//! read back field by field as plain data.

use vstd::prelude::*;

verus! {

#[verifier::external_type_specification]
#[verifier::external_body]
pub struct ExJsonValue(serde_json::Value);

/// Relies on `serde_json::from_str`: parses JSON text, `None` where the
/// text is not well-formed JSON.
#[verifier::external_body]
pub(crate) fn json_parse(s: &str) -> Option<serde_json::Value> {
    serde_json::from_str(s).ok()
}

/// Relies on `serde_json::Value::get`: the member of an object under
/// the given key, `None` where the value is no object or lacks the key.
#[verifier::external_body]
pub(crate) fn json_member<'a>(v: &'a serde_json::Value, key: &str) -> Option<&'a serde_json::Value> {
    v.get(key)
}

/// Relies on `serde_json::Value::as_str`: the text of a JSON string,
/// `None` for any other kind of value.
#[verifier::external_body]
pub(crate) fn json_as_string(v: &serde_json::Value) -> Option<String> {
    v.as_str().map(|s| s.to_string())
}

/// Relies on `serde_json::Value::as_u64`: the value of a JSON number
/// representable as `u64`, `None` otherwise.
#[verifier::external_body]
pub(crate) fn json_as_u64(v: &serde_json::Value) -> Option<u64> {
    v.as_u64()
}

/// Relies on `serde_json::Value::as_array` and `as_str`: the elements
/// of a JSON array of strings, in order; `None` where the value is no
/// array or any element is no string.
#[verifier::external_body]
pub(crate) fn json_as_string_array(v: &serde_json::Value) -> Option<Vec<String>> {
    let arr = v.as_array()?;
    arr.iter().map(|x| x.as_str().map(|s| s.to_string())).collect()
}

} // verus!
