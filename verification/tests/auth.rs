use base64::Engine;
use road7::auth::{bearer_token, validate_basic};
use road7::headers::Headers;

fn authorization(value: &str) -> Headers {
    let mut h = Headers::new();
    h.insert("authorization", value.as_bytes().to_vec());
    h
}

fn users() -> Vec<(String, String)> {
    vec![("user1".to_string(), "password1".to_string())]
}

fn encode(s: &str) -> String {
    base64::engine::general_purpose::STANDARD.encode(s)
}

#[test]
fn test_validate_basic_valid_credentials() {
    let auth_value = format!("Basic {}", encode("user1:password1"));
    let result = validate_basic(&authorization(&auth_value), &users());
    assert!(result.is_ok());
}

#[test]
fn test_validate_basic_invalid_credentials() {
    let auth_value = format!("Basic {}", encode("user1:wrongpassword"));
    let result = validate_basic(&authorization(&auth_value), &users());
    assert!(result.is_err());
    assert_eq!(result.err().unwrap(), "Invalid credentials");
}

#[test]
fn test_validate_basic_missing_header() {
    let result = validate_basic(&Headers::new(), &Vec::new());
    assert!(result.is_err());
    assert_eq!(result.err().unwrap(), "Authorization header missing");
}

#[test]
fn test_validate_basic_invalid_scheme() {
    let auth_value = format!("Bearer {}", encode("user1:password1"));
    let result = validate_basic(&authorization(&auth_value), &Vec::new());
    assert!(result.is_err());
    assert_eq!(result.err().unwrap(), "Invalid authorization scheme");
}

#[test]
fn test_validate_basic_invalid_base64() {
    let result = validate_basic(&authorization("Basic invalid_base64"), &Vec::new());
    assert!(result.is_err());
    assert_eq!(result.err().unwrap(), "Failed to decode base64 credentials");
}

#[test]
fn basic_without_colon_misses_the_password() {
    let auth_value = format!("Basic {}", encode("user1"));
    assert_eq!(validate_basic(&authorization(&auth_value), &users()).unwrap_err(), "Missing password");
}

#[test]
fn basic_password_may_hold_colons() {
    let list = vec![("u".to_string(), "a:b".to_string())];
    let auth_value = format!("Basic {}", encode("u:a:b"));
    assert!(validate_basic(&authorization(&auth_value), &list).is_ok());
}

#[test]
fn basic_refuses_invalid_utf8_and_non_text_headers() {
    let auth_value = format!("Basic {}", base64::engine::general_purpose::STANDARD.encode([0xFFu8, 0x3A, 0x41]));
    assert_eq!(validate_basic(&authorization(&auth_value), &users()).unwrap_err(), "Invalid UTF-8 sequence");
    let h = Headers::from_entries(vec![("authorization".to_string(), vec![0x80])]);
    assert_eq!(validate_basic(&h, &users()).unwrap_err(), "Invalid header format");
}

#[test]
fn bearer_token_needs_the_bearer_scheme() {
    assert_eq!(bearer_token(&authorization("Bearer abc")).unwrap(), "abc");
    assert_eq!(bearer_token(&authorization("Bearer Bearer abc")).unwrap(), "Bearer abc");
    assert_eq!(bearer_token(&authorization("abc")).unwrap_err(), "Invalid authorization scheme");
    assert_eq!(bearer_token(&authorization("bearer abc")).unwrap_err(), "Invalid authorization scheme");
    assert_eq!(bearer_token(&Headers::new()).unwrap_err(), "Authorization header missing");
    let h = Headers::from_entries(vec![("authorization".to_string(), vec![0x01])]);
    assert_eq!(bearer_token(&h).unwrap_err(), "Invalid token format");
}

#[test]
fn unknown_user_and_wrong_password_get_the_same_answer() {
    let unknown = validate_basic(&authorization(&format!("Basic {}", encode("nobody:password1"))), &users());
    let wrong = validate_basic(&authorization(&format!("Basic {}", encode("user1:nope"))), &users());
    assert_eq!(unknown.unwrap_err(), "Invalid credentials");
    assert_eq!(wrong.unwrap_err(), "Invalid credentials");
}
