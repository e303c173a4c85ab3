use patent::ollama::{completion_text, generate_url, DEFAULT_ENDPOINT, DEFAULT_MODEL};
use patent::Error;

#[test]
fn generate_url_appends_the_endpoint_path() {
    assert_eq!(generate_url(DEFAULT_ENDPOINT), "http://localhost:11434/api/generate");
    assert_eq!(DEFAULT_MODEL, "qwen2.5");
}

#[test]
fn completion_text_returns_the_response_field() {
    let r = completion_text(true, "200 OK", r#"{"model":"qwen2.5","response":"hi","done":true}"#);
    assert_eq!(r.unwrap(), "hi");
}

#[test]
fn completion_text_rejection_carries_the_error_field() {
    let r = completion_text(false, "404 Not Found", r#"{"error":"model 'qwen2.5' not found"}"#);
    match r {
        Err(Error::OllamaModel(m)) => assert_eq!(m, "model 'qwen2.5' not found"),
        other => panic!("expected a rejection, got {other:?}"),
    }
}

#[test]
fn completion_text_rejection_without_json_names_the_status() {
    let r = completion_text(false, "500 Internal Server Error", "oops");
    match r {
        Err(Error::OllamaModel(m)) => assert_eq!(m, "500 Internal Server Error"),
        other => panic!("expected a rejection, got {other:?}"),
    }
}

#[test]
fn completion_text_unparsable_body_is_a_parse_error() {
    let r = completion_text(true, "200 OK", "not json");
    match r {
        Err(Error::Parse(m)) => assert_eq!(m, "error decoding response body"),
        other => panic!("expected a parse error, got {other:?}"),
    }
}

#[test]
fn completion_text_missing_response_is_a_parse_error() {
    let r = completion_text(true, "200 OK", "{}");
    match r {
        Err(Error::Parse(m)) => assert_eq!(m, "missing 'response' field"),
        other => panic!("expected a parse error, got {other:?}"),
    }
}

#[test]
fn completion_text_non_string_response_is_a_parse_error() {
    let r = completion_text(true, "200 OK", r#"{"response":42}"#);
    assert!(matches!(r, Err(Error::Parse(_))));
}
