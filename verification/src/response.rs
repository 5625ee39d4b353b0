//! The head of a response, as the handlers decide it: status, content type,
//! cache control, and the body where the body is text.

use vstd::prelude::*;

verus! {

/// 200 OK.
pub const STATUS_OK: u16 = 200;

/// 400 Bad Request.
pub const STATUS_BAD_REQUEST: u16 = 400;

/// 403 Forbidden.
pub const STATUS_FORBIDDEN: u16 = 403;

/// 404 Not Found.
pub const STATUS_NOT_FOUND: u16 = 404;

/// 429 Too Many Requests.
pub const STATUS_TOO_MANY_REQUESTS: u16 = 429;

/// 500 Internal Server Error.
pub const STATUS_INTERNAL_SERVER_ERROR: u16 = 500;

/// What a response says of caching.
#[derive(Clone, Copy, Debug, PartialEq, Eq, Structural)]
pub enum CacheControl {
    NoCache,
}

impl CacheControl {
    /// The value of the `Cache-Control` header.
    pub fn header_value(&self) -> (value: &'static str)
        ensures
            value@ == "public, no-cache"@,
    {
        match self {
            CacheControl::NoCache => "public, no-cache",
        }
    }
}

/// A response whose body, if it has one, is text.
#[derive(Clone, Debug)]
pub struct TextResponse {
    pub status_code: u16,
    pub content_type: Option<&'static str>,
    pub cache_control: CacheControl,
    pub body: Option<String>,
}

/// A 200 response with a JSON body.
pub fn build_json_body_response(http_response_body: String, cache_control: CacheControl) -> (response:
    TextResponse)
    ensures
        response.status_code == STATUS_OK,
        response.content_type matches Some(content_type) && content_type@ == "application/json"@,
        response.cache_control == cache_control,
        response.body == Some(http_response_body),
{
    TextResponse {
        status_code: STATUS_OK,
        content_type: Some("application/json"),
        cache_control,
        body: Some(http_response_body),
    }
}

/// The response to a request whose answer was to be serialised as JSON: a
/// 200 with the text as body where serialising gave a text, and a bare 500
/// that must not be cached where it failed.
pub fn build_json_response<E>(json_result: Result<String, E>, cache_control: CacheControl) -> (response:
    TextResponse)
    ensures
        json_result matches Ok(json_string) ==> {
            &&& response.status_code == STATUS_OK
            &&& response.content_type matches Some(content_type) && content_type@
                == "application/json"@
            &&& response.cache_control == cache_control
            &&& response.body == Some(json_string)
        },
        json_result is Err ==> {
            &&& response.status_code == STATUS_INTERNAL_SERVER_ERROR
            &&& response.content_type.is_none()
            &&& response.cache_control == CacheControl::NoCache
            &&& response.body.is_none()
        },
{
    match json_result {
        Err(_) => build_status_code_response(STATUS_INTERNAL_SERVER_ERROR, CacheControl::NoCache),
        Ok(json_string) => build_json_body_response(json_string, cache_control),
    }
}

/// A response with the given status and no body.
pub fn build_status_code_response(status_code: u16, cache_control: CacheControl) -> (response:
    TextResponse)
    ensures
        response.status_code == status_code,
        response.content_type.is_none(),
        response.cache_control == cache_control,
        response.body.is_none(),
{
    TextResponse { status_code, content_type: None, cache_control, body: None }
}

} // verus!
