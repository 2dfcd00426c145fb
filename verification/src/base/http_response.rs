//! The answers of the HTTP interface: a code and the data, as JSON.

use vstd::prelude::*;
use crate::base::json::{json_of_text, text_to_json};
use crate::base::text::{concat3, opt_text};

verus! {

/// An answer of the HTTP interface.
#[derive(Debug, Clone, PartialEq, Eq)]
pub struct Response<T> {
    pub code: u64,
    pub data: T,
}

/// The code of an answer that reports success.
pub const CODE_SUCCESS: u64 = 0;

/// The code of an answer that reports a failure.
pub const CODE_ERROR: u64 = 100;

/// The JSON object of an answer with text for data, where the text can be
/// written as JSON.
pub open spec fn response_json(code_digits: Seq<char>, data: Seq<char>) -> Option<Seq<char>> {
    match json_of_text(data) {
        Some(literal) => Some("{\"code\":"@ + code_digits + ",\"data\":"@ + literal + "}"@),
        None => None,
    }
}

fn text_response(code_digits: &str, data: &str) -> (r: Option<String>)
    ensures
        opt_text(r) == response_json(code_digits@, data@),
{
    match text_to_json(data) {
        Ok(literal) => {
            let mut body: String = concat3("{\"code\":", code_digits, ",\"data\":");
            body.append(literal.as_str());
            body.append("}");
            Some(body)
        },
        Err(_) => None,
    }
}

/// The answer that reports success with `data`; `None` where the data
/// cannot be written as JSON.
pub fn success_response(data: &str) -> (r: Option<String>)
    ensures
        opt_text(r) == response_json("0"@, data@),
{
    text_response("0", data)
}

/// The answer that reports the failure `err`; `None` where the text cannot
/// be written as JSON.
pub fn error_response(err: String) -> (r: Option<String>)
    ensures
        opt_text(r) == response_json("100"@, err@),
{
    text_response("100", err.as_str())
}

} // verus!
