use vaultwarden_scim::error::{scim_content_type, ScimError, Status, SCIM_ERROR_URN};
use vaultwarden_scim::json::Json;

const SERVICE_UNAVAILABLE: Status = Status { code: 503 };
const METHOD_NOT_ALLOWED: Status = Status { code: 405 };
const NOT_ACCEPTABLE: Status = Status { code: 406 };
const TOO_MANY_REQUESTS: Status = Status { code: 429 };

fn text_of<'a>(body: &'a Json, name: &str) -> Option<&'a str> {
    match body.get(name) {
        Some(Json::Text(text)) => Some(text.as_str()),
        _ => None,
    }
}

fn first_schema(body: &Json) -> Option<&str> {
    match body.get("schemas") {
        Some(Json::Array(items)) => match items.first() {
            Some(Json::Text(text)) => Some(text.as_str()),
            _ => None,
        },
        _ => None,
    }
}

#[test]
fn every_error_is_a_well_formed_scim_envelope() {
    // RFC 7644 section 3.12: schemas, status as a STRING, optional scimType.
    let cases = [
        ScimError::unauthorized(),
        ScimError::not_found(),
        ScimError::internal(),
        ScimError::payload_too_large(),
        ScimError::too_many_requests(1),
        ScimError::not_implemented("groups off"),
        ScimError::bad_request("invalidValue", "bad"),
        ScimError::conflict("uniqueness", "dup"),
        ScimError::from_status(SERVICE_UNAVAILABLE, 1),
        ScimError::from_status(METHOD_NOT_ALLOWED, 1),
    ];
    for error in cases {
        let body = error.body();
        assert_eq!(first_schema(&body), Some(SCIM_ERROR_URN), "{:?}", error.status);
        assert!(
            text_of(&body, "status").is_some(),
            "status must be a string, not a number: {:?}",
            error.status
        );
        assert_eq!(text_of(&body, "status"), Some(error.status.code.to_string().as_str()));
        assert!(text_of(&body, "detail").is_some_and(|d| !d.is_empty()), "{:?}", error.status);
    }
}

#[test]
fn only_429_carries_retry_after() {
    // The delay follows the configured refill period, and is never zero.
    for (configured, expected) in [(0, 1), (1, 1), (30, 30)] {
        for error in
            [ScimError::too_many_requests(configured), ScimError::from_status(TOO_MANY_REQUESTS, configured)]
        {
            let seconds = error.retry_after.expect("a 429 must carry Retry-After");
            assert!(seconds >= 1, "Retry-After must be a usable delay, got {seconds}");
            assert_eq!(seconds, expected, "Retry-After must follow SCIM_RATELIMIT_SECONDS");
        }
    }
    for error in
        [ScimError::unauthorized(), ScimError::internal(), ScimError::from_status(SERVICE_UNAVAILABLE, 1)]
    {
        assert_eq!(error.retry_after, None, "{:?} must not carry Retry-After", error.status);
    }
}

#[test]
fn scim_type_appears_only_where_the_rfc_defines_it() {
    // scimType is defined for 400; 409 + uniqueness is the one sanctioned
    // pairing outside it. Anything else must omit the key entirely.
    assert_eq!(text_of(&ScimError::bad_request("invalidPath", "x").body(), "scimType"), Some("invalidPath"));
    assert_eq!(text_of(&ScimError::conflict("uniqueness", "x").body(), "scimType"), Some("uniqueness"));
    for error in [ScimError::unauthorized(), ScimError::not_found(), ScimError::internal()] {
        assert!(error.body().get("scimType").is_none(), "{:?} must omit scimType", error.status);
    }
}

#[test]
fn from_status_never_leaks_request_content() {
    // The detail must come from the reason phrase and nothing else.
    for status in [SERVICE_UNAVAILABLE, METHOD_NOT_ALLOWED, NOT_ACCEPTABLE] {
        let detail = ScimError::from_status(status, 1).detail;
        assert_eq!(detail, status.reason().unwrap_or("Request failed"));
    }
}

#[test]
fn reason_phrases_are_the_canonical_ones() {
    assert_eq!(SERVICE_UNAVAILABLE.reason(), Some("Service Unavailable"));
    assert_eq!(METHOD_NOT_ALLOWED.reason(), Some("Method Not Allowed"));
    assert_eq!(ScimError::from_status(SERVICE_UNAVAILABLE, 1).detail, "Service Unavailable");
    assert_eq!(Status { code: 599 }.reason(), None);
    assert_eq!(ScimError::from_status(Status { code: 599 }, 1).detail, "Request failed");
    for code in 0..=u16::MAX {
        let expected = rocket::http::Status::new(code).reason();
        assert_eq!(Status { code }.reason(), expected);
        assert!(expected.is_none_or(|phrase| !phrase.is_empty()));
    }
}

#[test]
fn constructors_have_their_status_and_detail() {
    let expected = [
        (ScimError::unauthorized(), 401, "Unauthorized"),
        (ScimError::too_many_requests(5), 429, "Too many requests"),
        (ScimError::payload_too_large(), 413, "Payload too large"),
        (ScimError::not_found(), 404, "Resource not found"),
        (ScimError::internal(), 500, "Internal server error"),
        (ScimError::not_implemented("no"), 501, "no"),
        (ScimError::bad_request("noTarget", "b"), 400, "b"),
        (ScimError::conflict("uniqueness", "c"), 409, "c"),
    ];
    for (error, code, detail) in expected {
        assert_eq!(error.status.code, code);
        assert_eq!(error.detail, detail);
    }
}

#[test]
fn bodies_are_scim_json() {
    let content_type = scim_content_type();
    assert_eq!((content_type.top, content_type.sub), ("application", "scim+json"));
}
