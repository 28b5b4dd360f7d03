//! The trusted boundary to the JSON serialization library: the structured
//! value type is declared opaque, and the two conversions between values and
//! JSON text are named, so that contracts can speak of them exactly.

use vstd::prelude::*;

verus! {

#[verifier::external_type_specification]
#[verifier::external_body]
pub struct ExValue(serde_json::Value);

/// The JSON text that serializing a structured value yields, if
/// serialization succeeds; a function of the value alone.
pub uninterp spec fn json_text(v: serde_json::Value) -> Option<Seq<char>>;

/// The structured value that parsing a JSON text yields, if parsing
/// succeeds; a function of the text alone.
pub uninterp spec fn json_value(s: Seq<char>) -> Option<serde_json::Value>;

/// Relies on serde_json::Value's derived Clone: the copy equals the
/// original.
pub assume_specification[ <serde_json::Value as Clone>::clone ](v: &serde_json::Value) -> (r:
    serde_json::Value)
    ensures
        r == *v,
;

/// Relies on serde_json::to_string: on a serde_json::Value, whether it
/// succeeds and the text it produces depend on the value alone.
#[verifier::external_body]
pub(crate) fn to_json_text(v: &serde_json::Value) -> (r: Result<String, String>)
    ensures
        r is Ok <==> json_text(*v) is Some,
        r is Ok ==> r->Ok_0@ == json_text(*v).unwrap(),
{
    match serde_json::to_string(v) {
        Ok(s) => Ok(s),
        Err(e) => Err(e.to_string()),
    }
}

/// Relies on serde_json::from_str: whether a text parses as a structured
/// value, and the value it parses to, depend on the text alone.
#[verifier::external_body]
pub(crate) fn parse_json_text(s: &str) -> (r: Result<serde_json::Value, String>)
    ensures
        r is Ok <==> json_value(s@) is Some,
        r is Ok ==> r->Ok_0 == json_value(s@).unwrap(),
{
    match serde_json::from_str::<serde_json::Value>(s) {
        Ok(v) => Ok(v),
        Err(e) => Err(e.to_string()),
    }
}

} // verus!
