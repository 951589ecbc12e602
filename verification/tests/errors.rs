use spamwatch_api::errors::{ErrorBody, UserError};
use spamwatch_api::response::Body;

fn all_kinds() -> Vec<UserError> {
    vec![
        UserError::Internal,
        UserError::NotFound,
        UserError::BadRequest,
        UserError::MethodNotAllowed,
        UserError::Unauthorized,
        UserError::Forbidden,
        UserError::TooManyRequests { until: 1_700_000_300 },
    ]
}

#[test]
fn status_codes_follow_the_taxonomy() {
    assert_eq!(UserError::Internal.status_code(), 500);
    assert_eq!(UserError::NotFound.status_code(), 404);
    assert_eq!(UserError::BadRequest.status_code(), 400);
    assert_eq!(UserError::MethodNotAllowed.status_code(), 405);
    assert_eq!(UserError::Unauthorized.status_code(), 401);
    assert_eq!(UserError::Forbidden.status_code(), 403);
    assert_eq!(UserError::TooManyRequests { until: 0 }.status_code(), 429);
}

#[test]
fn reason_phrases_are_the_canonical_ones() {
    assert_eq!(UserError::Internal.to_json().error, Some("Internal Server Error"));
    assert_eq!(UserError::NotFound.to_json().error, Some("Not Found"));
    assert_eq!(UserError::BadRequest.to_json().error, Some("Bad Request"));
    assert_eq!(UserError::MethodNotAllowed.to_json().error, Some("Method Not Allowed"));
    assert_eq!(UserError::Unauthorized.to_json().error, Some("Unauthorized"));
    assert_eq!(UserError::Forbidden.to_json().error, Some("Forbidden"));
    assert_eq!(
        UserError::TooManyRequests { until: 5 }.to_json().error,
        Some("Too Many Requests")
    );
}

#[test]
fn only_a_running_cooldown_has_an_end() {
    for kind in all_kinds() {
        let body = kind.to_json();
        match kind {
            UserError::TooManyRequests { until } => assert_eq!(body.until, Some(until)),
            _ => assert_eq!(body.until, None),
        }
    }
}

#[test]
fn to_json_gives_code_reason_and_end() {
    assert_eq!(
        UserError::TooManyRequests { until: 1_700_000_300 }.to_json(),
        ErrorBody { code: 429, error: Some("Too Many Requests"), until: Some(1_700_000_300) }
    );
    assert_eq!(
        UserError::Unauthorized.to_json(),
        ErrorBody { code: 401, error: Some("Unauthorized"), until: None }
    );
}

#[test]
fn to_response_carries_the_status_and_the_description() {
    for kind in all_kinds() {
        let response = kind.to_response();
        assert_eq!(response.status, kind.status_code());
        assert_eq!(response.body, Body::Error(kind.to_json()));
    }
}

#[test]
fn method_not_allowed_is_answered_with_405() {
    let response = UserError::MethodNotAllowed.to_response();
    assert_eq!(response.status, 405);
}
