//! JSON for text values.

use vstd::prelude::*;

verus! {

/// The JSON string literal that stands for `text`: what serializing a
/// string gives; `None` where serializing fails.
pub uninterp spec fn json_of_text(text: Seq<char>) -> Option<Seq<char>>;

/// The text that the JSON document `json` stands for; `None` where the
/// bytes are not one JSON string.
pub uninterp spec fn text_of_json(json: Seq<u8>) -> Option<Seq<char>>;

/// The view of what a conversion returned: the text, where there is one.
pub open spec fn converted(r: Result<String, String>) -> Option<Seq<char>> {
    match r {
        Ok(s) => Some(s@),
        Err(_) => None,
    }
}

/// `serde_json::to_string` on a string: the JSON string literal, which
/// depends on the text alone. A failure comes back as its message.
#[verifier::external_body]
pub(crate) fn text_to_json(text: &str) -> (r: Result<String, String>)
    ensures
        converted(r) == json_of_text(text@),
{
    serde_json::to_string(text).map_err(|e| e.to_string())
}

/// `serde_json::from_slice` for a string: the text of the JSON string that
/// the bytes spell, which depends on the bytes alone. A failure comes back
/// as its message.
#[verifier::external_body]
pub(crate) fn json_to_text(json: &[u8]) -> (r: Result<String, String>)
    ensures
        converted(r) == text_of_json(json@),
{
    serde_json::from_slice::<String>(json).map_err(|e| e.to_string())
}

} // verus!
