//! JSON bodies. A body is decoded by `serde_json`; what it decodes to is
//! handed on to the route handlers as it is.

use vstd::prelude::*;

verus! {

/// `serde_json::Value`: a decoded JSON value. Nothing in it is looked at
/// here; it is carried to the route handler.
#[verifier::external_type_specification]
#[verifier::external_body]
pub struct ExValue(serde_json::Value);

/// `serde_json::Error`: why a text is no JSON.
#[verifier::external_type_specification]
#[verifier::external_body]
pub struct ExError(serde_json::Error);

/// The JSON value that `text` holds; none where `text` is no JSON.
pub uninterp spec fn json_value(text: Seq<char>) -> Option<serde_json::Value>;

/// `serde_json::from_str`, for a `serde_json::Value`: decodes one JSON
/// value that makes up the whole text. The value depends on the text alone.
#[verifier::external_body]
fn from_json(text: &str) -> (r: Result<serde_json::Value, serde_json::Error>)
    ensures
        match r {
            Ok(value) => json_value(text@) == Some(value),
            Err(_) => json_value(text@) is None,
        },
{
    serde_json::from_str(text)
}

/// The JSON value that the body of a request holds. An empty body holds
/// none, and a body that is no JSON counts as absent too.
pub open spec fn body_value(body: Seq<char>) -> Option<serde_json::Value> {
    if body.len() == 0 {
        None
    } else {
        json_value(body)
    }
}

/// Decodes the body of a request. That a body is no JSON is no failure:
/// the request goes on without a value.
pub fn decode_body(body: &str) -> (value: Option<serde_json::Value>)
    ensures
        value == body_value(body@),
{
    if body.is_empty() {
        None
    } else {
        match from_json(body) {
            Ok(value) => Some(value),
            Err(_) => None,
        }
    }
}

} // verus!
