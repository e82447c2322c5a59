//! Trusted declarations for the JSON values the client inspects.
//! Parsing is deterministic, so what a read yields is a function of
//! the body text alone; those outcomes are named here and the
//! wrappers promise to return exactly them. A `serde_json::Value` is
//! opaque: it is only carried through to callers that decode it.

use vstd::prelude::*;
use crate::client::opt_view;

verus! {

#[verifier::external_type_specification]
#[verifier::external_body]
pub struct ExValue(serde_json::Value);

/// Whether a text parses as JSON; parsing is a fixed function of the
/// text.
pub uninterp spec fn json_parsable(s: Seq<char>) -> bool;

/// Relies on serde_json::from_str: parses text as a JSON value; the
/// outcome depends on the text alone.
#[verifier::external_body]
pub(crate) fn json_parse(s: &str) -> (r: Option<serde_json::Value>)
    ensures
        r is Some <==> json_parsable(s@),
{
    serde_json::from_str::<serde_json::Value>(s).ok()
}

/// The payload's top-level `result` string field: `None` when the
/// text is not JSON, not an object, lacks the field, or holds a
/// non-string there. A fixed function of the text.
pub uninterp spec fn result_field_of(s: Seq<char>) -> Option<Seq<char>>;

/// Relies on serde_json::from_str, Value::get and Value::as_str:
/// reads the top-level `result` string field straight from the text.
#[verifier::external_body]
pub(crate) fn json_result_field(s: &str) -> (r: Option<String>)
    ensures
        opt_view(r) == result_field_of(s@),
{
    serde_json::from_str::<serde_json::Value>(s)
        .ok()
        .and_then(|v| v.get("result").and_then(|f| f.as_str()).map(|f| f.to_owned()))
}

} // verus!
