use http_frontend::response::{
    build_json_body_response, build_json_response, build_status_code_response, CacheControl,
    STATUS_BAD_REQUEST, STATUS_FORBIDDEN, STATUS_INTERNAL_SERVER_ERROR, STATUS_NOT_FOUND,
    STATUS_OK, STATUS_TOO_MANY_REQUESTS,
};

#[test]
fn status_codes_have_their_numbers() {
    assert_eq!(STATUS_OK, 200);
    assert_eq!(STATUS_BAD_REQUEST, 400);
    assert_eq!(STATUS_FORBIDDEN, 403);
    assert_eq!(STATUS_NOT_FOUND, 404);
    assert_eq!(STATUS_TOO_MANY_REQUESTS, 429);
    assert_eq!(STATUS_INTERNAL_SERVER_ERROR, 500);
}

#[test]
fn dynamic_endpoints_are_not_cached() {
    assert_eq!(CacheControl::NoCache.header_value(), "public, no-cache");
}

#[test]
fn json_body_is_served_as_json() {
    let response = build_json_body_response("{\"a\":1}".to_owned(), CacheControl::NoCache);
    assert_eq!(response.status_code, 200);
    assert_eq!(response.content_type, Some("application/json"));
    assert_eq!(response.cache_control, CacheControl::NoCache);
    assert_eq!(response.body.as_deref(), Some("{\"a\":1}"));
}

#[test]
fn serialisation_failure_is_a_bare_500() {
    let ok: Result<String, String> = Ok("[]".to_owned());
    let response = build_json_response(ok, CacheControl::NoCache);
    assert_eq!(response.status_code, 200);
    assert_eq!(response.content_type, Some("application/json"));
    assert_eq!(response.body.as_deref(), Some("[]"));

    let failed: Result<String, String> = Err("key must be a string".to_owned());
    let response = build_json_response(failed, CacheControl::NoCache);
    assert_eq!(response.status_code, 500);
    assert_eq!(response.content_type, None);
    assert_eq!(response.cache_control, CacheControl::NoCache);
    assert_eq!(response.body, None);
}

#[test]
fn status_response_has_no_body() {
    let response = build_status_code_response(429, CacheControl::NoCache);
    assert_eq!(response.status_code, 429);
    assert_eq!(response.content_type, None);
    assert_eq!(response.body, None);
}
