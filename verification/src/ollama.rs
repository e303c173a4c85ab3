//! Settings of the local Ollama daemon that writes the verdict, and the
//! reading of its replies.

use vstd::prelude::*;
use vstd::string::*;

use crate::verdict::{json_error, json_field, json_field_at, json_parse_error, JsonField, JsonFieldView};
use crate::Error;

verus! {

/// Default Ollama endpoint.
pub const DEFAULT_ENDPOINT: &'static str = "http://localhost:11434";

/// Default generation model: `qwen2.5` (7B) for quality; `qwen2.5:3b` if RAM
/// is tight.
pub const DEFAULT_MODEL: &'static str = "qwen2.5";

/// The generate endpoint under `endpoint`.
pub fn generate_url(endpoint: &str) -> (r: String)
    ensures
        r@ == endpoint@ + "/api/generate"@,
{
    let mut r = String::from_str(endpoint);
    r.append("/api/generate");
    r
}

/// Why Ollama rejected a request: the `error` string of its reply when there
/// is one, else the HTTP status.
pub open spec fn rejection_text(status: Seq<char>, body: Seq<char>) -> Seq<char> {
    match json_field(body, "error"@) {
        JsonFieldView::Text(t) => t,
        _ => status,
    }
}

/// The message of a body that does not decode as JSON: the text that the
/// HTTP client gives for a decoding error.
pub open spec fn undecodable_body() -> Seq<char> {
    "error decoding response body"@
}

/// What a reply of the generate endpoint gives: a rejection when the status
/// is not a success; else a decoding error when the body is not JSON, or the
/// string at key `response`, or a parse error when that is missing.
pub open spec fn completion_outcome_ok(
    success: bool,
    status: Seq<char>,
    body: Seq<char>,
    r: Result<String, Error>,
) -> bool {
    if !success {
        r matches Err(Error::OllamaModel(m)) && m@ == rejection_text(status, body)
    } else {
        match json_parse_error(body) {
            Some(_) => r matches Err(Error::Parse(x)) && x@ == undecodable_body(),
            None => match json_field(body, "response"@) {
                JsonFieldView::Text(t) => r matches Ok(x) && x@ == t,
                _ => r matches Err(Error::Parse(x)) && x@ == "missing 'response' field"@,
            },
        }
    }
}

/// Reads a reply of the generate endpoint: a non-success status means that
/// Ollama rejected the request (most often because the model has not been
/// pulled); a success carries the completion text at key `response`.
pub fn completion_text(success: bool, status: &str, body: &str) -> (r: Result<String, Error>)
    ensures
        completion_outcome_ok(success, status@, body@, r),
{
    if !success {
        let reason = match json_field_at(body, "error") {
            JsonField::Text(t) => t,
            _ => String::from_str(status),
        };
        return Err(Error::OllamaModel(reason));
    }
    match json_error(body) {
        Some(_) => Err(Error::Parse(String::from_str("error decoding response body"))),
        None => match json_field_at(body, "response") {
            JsonField::Text(t) => Ok(t),
            _ => Err(Error::Parse(String::from_str("missing 'response' field"))),
        },
    }
}

} // verus!
