use http::StatusCode;
use road7::error::ProxyError;

#[test]
fn test_circuit_breaker_open() {
    let error = ProxyError::CircuitBreakerOpen;
    let response = error.into_response();

    assert_eq!(response.status, StatusCode::SERVICE_UNAVAILABLE.as_u16());
    assert_eq!(response.body.as_bytes(), "Service Unavailable: Circuit Breaker is Open".as_bytes());
}

#[test]
fn test_too_many_requests() {
    let msg = "Rate limit exceeded".to_string();
    let error = ProxyError::TooManyRequests(msg.clone());
    let response = error.into_response();

    assert_eq!(response.status, StatusCode::TOO_MANY_REQUESTS.as_u16());
    assert_eq!(response.body.as_bytes(), msg.as_bytes());
}

#[test]
fn test_timeout() {
    let error = ProxyError::Timeout;
    let response = error.into_response();

    assert_eq!(response.status, StatusCode::GATEWAY_TIMEOUT.as_u16());
    assert_eq!(response.body.as_bytes(), "Gateway Timeout".as_bytes());
}

#[test]
fn test_internal_server_error() {
    let msg = "Internal error occurred".to_string();
    let error = ProxyError::InternalServerError(msg.clone());
    let response = error.into_response();

    assert_eq!(response.status, StatusCode::INTERNAL_SERVER_ERROR.as_u16());
    assert_eq!(response.body.as_bytes(), format!("Internal Server Error: {}", msg).as_bytes());
}

#[test]
fn test_bad_request() {
    let msg = "Invalid request".to_string();
    let error = ProxyError::BadRequest(msg.clone());
    let response = error.into_response();

    assert_eq!(response.status, StatusCode::BAD_REQUEST.as_u16());
    assert_eq!(response.body.as_bytes(), format!("Bad Request: {}", msg).as_bytes());
}

#[test]
fn test_not_found() {
    let msg = "Resource not found".to_string();
    let error = ProxyError::NotFound(msg.clone());
    let response = error.into_response();

    assert_eq!(response.status, StatusCode::NOT_FOUND.as_u16());
    assert_eq!(response.body.as_bytes(), format!("Not Found: {}", msg).as_bytes());
}

#[test]
fn test_service_unavailable() {
    let msg = "Service temporarily unavailable".to_string();
    let error = ProxyError::ServiceUnavailable(msg.clone());
    let response = error.into_response();

    assert_eq!(response.status, StatusCode::SERVICE_UNAVAILABLE.as_u16());
    assert_eq!(response.body.as_bytes(), format!("Service Unavailable: {}", msg).as_bytes());
}

#[test]
fn test_unauthorized() {
    let msg = "Unauthorized access".to_string();
    let error = ProxyError::Unauthorized(msg.clone());
    let response = error.into_response();

    assert_eq!(response.status, StatusCode::UNAUTHORIZED.as_u16());
    assert_eq!(response.body.as_bytes(), format!("Unauthorized: {}", msg).as_bytes());
}

#[test]
fn test_forbidden() {
    let msg = "Forbidden resource".to_string();
    let error = ProxyError::Forbidden(msg.clone());
    let response = error.into_response();

    assert_eq!(response.status, StatusCode::FORBIDDEN.as_u16());
    assert_eq!(response.body.as_bytes(), format!("Forbidden: {}", msg).as_bytes());
}

#[test]
fn messages_match_status_codes() {
    let e = ProxyError::TooManyRequests("slow down".to_string());
    assert_eq!(e.message(), "Too Many Requests: Rate limit exceeded");
    assert_eq!(e.status_code(), 429);
    let e = ProxyError::NotFound("x".to_string());
    assert_eq!(e.message(), "Not Found: x");
    assert_eq!(e.status_code(), 404);
}
