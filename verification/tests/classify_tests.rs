use request::classify::result_json;
use request::classify::result_text;
use request::RequestError;

fn text_ok(code: u16, body: &str) -> Result<String, RequestError> {
    result_text(Ok((code, Some(body.to_string()))))
}

fn json_ok(code: u16, body: &[u8]) -> Result<serde_json::Value, RequestError> {
    result_json(Ok((code, Some(body.to_vec()))))
}

/// A transport error obtained without touching the network: the URL is
/// invalid, so the send fails before a connection is attempted.
fn transport_error() -> reqwest::Error {
    reqwest::blocking::Client::new()
        .get("no scheme at all")
        .send()
        .expect_err("an invalid URL must not send")
}

#[test]
fn text_200_returns_body() {
    assert_eq!(text_ok(200, "hello").unwrap(), "hello");
}

#[test]
fn text_302_and_202_return_body() {
    assert_eq!(text_ok(302, "moved").unwrap(), "moved");
    assert_eq!(text_ok(202, "accepted").unwrap(), "accepted");
}

#[test]
fn text_200_without_readable_body_is_serialization_error() {
    let r = result_text(Ok((200, None)));
    assert!(matches!(r, Err(RequestError::SerializationError)));
}

#[test]
fn text_404_is_not_found_regardless_of_body() {
    assert!(matches!(text_ok(404, "gone"), Err(RequestError::NotFound)));
    assert!(matches!(
        result_text(Ok((404, None))),
        Err(RequestError::NotFound)
    ));
}

#[test]
fn text_500_is_bad_request_with_code() {
    match text_ok(500, "oops") {
        Err(RequestError::BadRequest(code)) => assert_eq!(code, 500),
        other => panic!("unexpected: {:?}", other),
    }
}

#[test]
fn text_other_codes_keep_their_literal_code() {
    for code in [100u16, 201, 301, 400, 403, 418, 503] {
        match text_ok(code, "body") {
            Err(RequestError::BadRequest(got)) => assert_eq!(got, code),
            other => panic!("unexpected for {}: {:?}", code, other),
        }
    }
}

#[test]
fn json_403_is_bad_request_even_with_valid_json() {
    match json_ok(403, b"{\"a\":1}") {
        Err(RequestError::BadRequest(code)) => assert_eq!(code, 403),
        other => panic!("unexpected: {:?}", other),
    }
}

#[test]
fn json_200_parses_valid_body() {
    let value = json_ok(200, b"{\"a\":1}").unwrap();
    let expected: serde_json::Value = serde_json::from_str("{\"a\":1}").unwrap();
    assert_eq!(value, expected);
}

#[test]
fn json_200_with_invalid_body_is_serialization_error() {
    let r = json_ok(200, b"not-json");
    assert!(matches!(r, Err(RequestError::SerializationError)));
}

#[test]
fn json_decodes_even_on_error_codes() {
    let value = json_ok(404, b"[1,2,3]").unwrap();
    let expected: serde_json::Value = serde_json::from_str("[1,2,3]").unwrap();
    assert_eq!(value, expected);
    let r = json_ok(500, b"oops");
    assert!(matches!(r, Err(RequestError::SerializationError)));
}

#[test]
fn json_without_readable_body_is_serialization_error() {
    let r = result_json(Ok((200, None)));
    assert!(matches!(r, Err(RequestError::SerializationError)));
}

#[test]
fn transport_failure_is_failed_request_on_text() {
    let r = result_text(Err(transport_error()));
    assert!(matches!(r, Err(RequestError::FailedRequest(_))));
}

#[test]
fn transport_failure_is_failed_request_on_json() {
    let r = result_json(Err(transport_error()));
    assert!(matches!(r, Err(RequestError::FailedRequest(_))));
}
