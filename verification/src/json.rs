//! Pretty printing of JSON response and request bodies.
use vstd::prelude::*;
use crate::refs::{JsonValue, Json, json_of};

verus! {

/// What `serde_json` gives for a text: the text parsed as a JSON value and written back
/// with `to_string_pretty`, or nothing when the text is not JSON.
pub uninterp spec fn spec_pretty_json(text: Seq<char>) -> Option<Seq<char>>;

/// Parses a text as a JSON value (`serde_json::from_str`) and writes it back indented
/// (`serde_json::to_string_pretty`); nothing when either step fails.
#[verifier::external_body]
fn pretty_json(text: &str) -> (r: Option<String>)
    ensures
        match r {
            Some(s) => spec_pretty_json(text@) == Some(s@),
            None => spec_pretty_json(text@) is None,
        },
{
    serde_json::from_str::<serde_json::Value>(text).and_then(|v| serde_json::to_string_pretty(&v)).ok()
}

/// A body as it is shown: its pretty-printed JSON when it is JSON, else the body itself.
pub open spec fn pretty_body_spec(body: Seq<char>) -> Seq<char> {
    match spec_pretty_json(body) {
        Some(p) => p,
        None => body,
    }
}

/// Chooses what is shown for a body given what pretty printing gave: the pretty text,
/// or the body itself.
pub fn pretty_or_raw(body: &str, pretty: Option<String>) -> (r: String)
    ensures
        r@ == match pretty {
            Some(p) => p@,
            None => body@,
        },
{
    match pretty {
        Some(p) => p,
        None => String::from_str(body),
    }
}

/// The body as it is shown (see `pretty_body_spec`).
pub fn pretty_body(body: &str) -> (r: String)
    ensures
        r@ == pretty_body_spec(body@),
{
    pretty_or_raw(body, pretty_json(body))
}

/// What `serde_json::to_string_pretty` writes for a JSON value.
pub uninterp spec fn spec_pretty_value(v: Json) -> Seq<char>;

/// Writes a JSON value indented (`serde_json::to_string_pretty`); a value always writes.
#[verifier::external_body]
pub(crate) fn pretty_value(v: &JsonValue) -> (r: String)
    ensures
        r@ == spec_pretty_value(json_of(*v)),
{
    serde_json::to_string_pretty(&serde_json::Value::from(v)).unwrap_or_default()
}

} // verus!
