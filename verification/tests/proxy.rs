use router_crabs::proxy::{
    auth_header, classify_reply, document_reply, is_streamed, read_reply, stream_headers,
    upstream_error,
};
use router_crabs::{forward_request, try_forward_request, ForwardError, Reply, Tier};
use serde_json::Value;

fn tier(auth_header: &str) -> Tier {
    Tier {
        name: "pro".to_string(),
        model: "deepseek-v4-pro".to_string(),
        api_base: "https://api.deepseek.com".to_string(),
        api_key: "sk".to_string(),
        auth_header: auth_header.to_string(),
        keywords: vec![],
        weight: 1,
        default: true,
    }
}

fn parse(text: &str) -> Value {
    serde_json::from_str(text).unwrap()
}

fn pair(name: &str, value: &str) -> (String, String) {
    (name.to_string(), value.to_string())
}

#[test]
fn request_to_the_provider() {
    let body = parse(r#"{"model": "any", "stream": true, "messages": [], "temperature": 0.5}"#);
    let request = forward_request(&tier("Bearer"), body);
    assert_eq!(request.url, "https://api.deepseek.com/v1/chat/completions");
    assert_eq!(
        request.headers,
        vec![pair("Content-Type", "application/json"), pair("Authorization", "Bearer sk")]
    );
    assert_eq!(
        request.body,
        parse(r#"{"model": "deepseek-v4-pro", "stream": true, "messages": [], "temperature": 0.5}"#)
    );
    assert!(request.stream);
}

#[test]
fn request_without_model_or_stream() {
    let request = forward_request(&tier("Bearer"), parse("{}"));
    assert_eq!(request.body, parse(r#"{"model": "deepseek-v4-pro"}"#));
    assert!(!request.stream);
    let request = forward_request(&tier("Bearer"), Value::Null);
    assert_eq!(request.body, parse(r#"{"model": "deepseek-v4-pro"}"#));
}

#[test]
fn body_that_cannot_have_a_model() {
    assert!(try_forward_request(&tier("Bearer"), parse("[]")).is_none());
    assert!(try_forward_request(&tier("Bearer"), parse("\"text\"")).is_none());
    assert!(try_forward_request(&tier("Bearer"), parse("true")).is_none());
    assert!(try_forward_request(&tier("Bearer"), Value::Null).is_some());
    assert!(try_forward_request(&tier("Bearer"), parse("{}")).is_some());
}

#[test]
fn last_model_counts() {
    let first = forward_request(&tier("Bearer"), parse(r#"{"a": 1}"#));
    let mut other = tier("Bearer");
    other.model = "flash".to_string();
    let second = forward_request(&other, first.body);
    assert_eq!(second.body, parse(r#"{"a": 1, "model": "flash"}"#));
}

#[test]
fn stream_flag() {
    assert!(is_streamed(&parse(r#"{"stream": true}"#)));
    assert!(!is_streamed(&parse(r#"{"stream": false}"#)));
    assert!(!is_streamed(&parse(r#"{"stream": "true"}"#)));
    assert!(!is_streamed(&parse("{}")));
    assert!(!is_streamed(&parse("[true]")));
}

#[test]
fn authentication_headers() {
    assert_eq!(auth_header(&tier("Bearer")), pair("Authorization", "Bearer sk"));
    assert_eq!(auth_header(&tier("x-api-key")), pair("x-api-key", "sk"));
    assert_eq!(auth_header(&tier("bearer")), pair("bearer", "sk"));
}

#[test]
fn replies_by_status() {
    assert_eq!(classify_reply(199, true), Reply::Failure);
    assert_eq!(classify_reply(200, true), Reply::EventStream);
    assert_eq!(classify_reply(299, false), Reply::Document);
    assert_eq!(classify_reply(300, false), Reply::Failure);
    assert_eq!(classify_reply(500, true), Reply::Failure);
}

#[test]
fn upstream_error_text() {
    assert_eq!(upstream_error(429, "slow down"), "Upstream error 429: slow down");
}

#[test]
fn headers_of_a_stream() {
    assert_eq!(
        stream_headers(),
        vec![
            pair("Content-Type", "text/event-stream"),
            pair("Cache-Control", "no-cache"),
            pair("Connection", "keep-alive"),
        ]
    );
}

#[test]
fn documents_of_replies() {
    assert_eq!(read_reply(200, r#"{"id": [1, null]}"#.to_string()).unwrap(), parse(r#"{"id": [1, null]}"#));
    assert!(matches!(
        read_reply(200, "{".to_string()),
        Err(ForwardError::InvalidDocument(_))
    ));
    match read_reply(503, "{}".to_string()) {
        Err(ForwardError::Upstream { status, text }) => {
            assert_eq!(status, 503);
            assert_eq!(text, "{}");
        }
        _ => unreachable!(),
    }
    assert_eq!(document_reply(Ok(Value::Bool(true))).unwrap(), Value::Bool(true));
}
