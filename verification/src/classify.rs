use vstd::prelude::*;

use crate::errors::RequestError;

verus! {

/// Declares serde_json's value type: an untyped JSON tree, opaque here.
#[verifier::external_type_specification]
#[verifier::external_body]
pub struct ExJsonValue(serde_json::Value);

/// The status codes whose body the text path decodes: 200 (OK),
/// 302 (FOUND) and 202 (ACCEPTED).
pub open spec fn text_body_status(code: u16) -> bool {
    code == 200 || code == 302 || code == 202
}

/// The status codes whose body the json path decodes: every code except
/// 403 (FORBIDDEN).  The asymmetry with the text path is deliberate.
pub open spec fn json_body_status(code: u16) -> bool {
    code != 403
}

/// Whether the text path will read a body for this status code.
pub fn text_reads_body(code: u16) -> (r: bool)
    ensures
        r == text_body_status(code),
{
    code == 200 || code == 302 || code == 202
}

/// Whether the json path will read a body for this status code.
pub fn json_reads_body(code: u16) -> (r: bool)
    ensures
        r == json_body_status(code),
{
    code != 403
}

/// Names what serde_json parsing yields on given bytes: `None` when the
/// bytes are not a JSON document, the parsed tree otherwise.  The result
/// depends on the bytes alone.
pub uninterp spec fn json_parse_of(bytes: Seq<u8>) -> Option<serde_json::Value>;

/// Relies on serde_json::from_slice::<Value>: parses the bytes as one JSON
/// document, an error meaning the bytes are not one.
#[verifier::external_body]
fn parse_json(bytes: &Vec<u8>) -> (r: Option<serde_json::Value>)
    ensures
        r == json_parse_of(bytes@),
{
    match serde_json::from_slice::<serde_json::Value>(bytes.as_slice()) {
        Ok(value) => Some(value),
        Err(_) => None,
    }
}

/// Classifies a transport outcome on the text path.
///
/// `response` is either the transport's failure, or the status code with
/// the outcome of reading the body as text (`None`: the read failed; the
/// body is only read when `text_body_status` holds, so it may also be
/// `None` for the other codes).
pub fn result_text(response: Result<(u16, Option<String>), reqwest::Error>) -> (r: Result<
    String,
    RequestError,
>)
    ensures
        match response {
            Ok((code, body)) => {
                if text_body_status(code) {
                    match body {
                        Some(text) => r == Ok::<String, RequestError>(text),
                        None => r == Err::<String, RequestError>(RequestError::SerializationError),
                    }
                } else if code == 404 {
                    r == Err::<String, RequestError>(RequestError::NotFound)
                } else {
                    r == Err::<String, RequestError>(RequestError::BadRequest(code))
                }
            },
            Err(cause) => r == Err::<String, RequestError>(RequestError::FailedRequest(cause)),
        },
{
    match response {
        Ok((code, body)) => {
            if text_reads_body(code) {
                match body {
                    Some(text) => Ok(text),
                    None => Err(RequestError::SerializationError),
                }
            } else if code == 404 {
                Err(RequestError::NotFound)
            } else {
                Err(RequestError::BadRequest(code))
            }
        },
        Err(cause) => Err(RequestError::FailedRequest(cause)),
    }
}

/// Classifies a transport outcome on the json path.
///
/// `response` is either the transport's failure, or the status code with
/// the outcome of reading the body's bytes (`None`: the read failed; the
/// body is only read when `json_body_status` holds).  A 403 is refused
/// before any body is looked at.
pub fn result_json(response: Result<(u16, Option<Vec<u8>>), reqwest::Error>) -> (r: Result<
    serde_json::Value,
    RequestError,
>)
    ensures
        match response {
            Ok((code, body)) => {
                if code == 403 {
                    r == Err::<serde_json::Value, RequestError>(RequestError::BadRequest(403))
                } else {
                    match body {
                        Some(bytes) => match json_parse_of(bytes@) {
                            Some(value) => r == Ok::<serde_json::Value, RequestError>(value),
                            None => r == Err::<serde_json::Value, RequestError>(
                                RequestError::SerializationError,
                            ),
                        },
                        None => r == Err::<serde_json::Value, RequestError>(
                            RequestError::SerializationError,
                        ),
                    }
                }
            },
            Err(cause) => r == Err::<serde_json::Value, RequestError>(
                RequestError::FailedRequest(cause),
            ),
        },
{
    match response {
        Ok((code, body)) => {
            if !json_reads_body(code) {
                Err(RequestError::BadRequest(403))
            } else {
                match body {
                    Some(bytes) => {
                        match parse_json(&bytes) {
                            Some(value) => Ok(value),
                            None => Err(RequestError::SerializationError),
                        }
                    },
                    None => Err(RequestError::SerializationError),
                }
            }
        },
        Err(cause) => Err(RequestError::FailedRequest(cause)),
    }
}

} // verus!
