use road7::headers::Headers;
use road7::security_headers::{
    apply_security_headers, security_config_is_valid, SecurityHeadersConfig, DEFAULT_CSP, DEFAULT_REFERRER_POLICY,
    DEFAULT_X_XSS_PROTECTION, FEATURE_POLICY, PERMISSIONS_POLICY,
};

const STRICT_TRANSPORT_SECURITY: &str = "strict-transport-security";
const X_CONTENT_TYPE_OPTIONS: &str = "x-content-type-options";
const X_FRAME_OPTIONS: &str = "x-frame-options";
const CONTENT_SECURITY_POLICY: &str = "content-security-policy";
const X_XSS_PROTECTION: &str = "x-xss-protection";
const REFERRER_POLICY: &str = "referrer-policy";

fn value(h: &Headers, name: &str) -> Option<String> {
    h.get(name).map(|v| String::from_utf8(v.clone()).unwrap())
}

fn empty_config() -> SecurityHeadersConfig {
    SecurityHeadersConfig {
        strict_transport_security: None,
        x_content_type_options: None,
        x_frame_options: None,
        content_security_policy: None,
        x_xss_protection: None,
        referrer_policy: None,
        permissions_policy: None,
        feature_policy: None,
    }
}

#[test]
fn test_apply_security_headers_with_full_config() {
    let config = SecurityHeadersConfig {
        strict_transport_security: Some("max-age=31536000; includeSubDomains".to_string()),
        x_content_type_options: Some("nosniff".to_string()),
        x_frame_options: Some("DENY".to_string()),
        content_security_policy: Some("default-src 'self'".to_string()),
        x_xss_protection: Some("1; mode=block".to_string()),
        referrer_policy: Some("no-referrer".to_string()),
        permissions_policy: Some("geolocation=()".to_string()),
        feature_policy: Some("vibrate 'none'".to_string()),
    };

    let mut headers = Headers::new();
    apply_security_headers(&mut headers, &Some(config));

    assert_eq!(value(&headers, STRICT_TRANSPORT_SECURITY).unwrap(), "max-age=31536000; includeSubDomains");
    assert_eq!(value(&headers, X_CONTENT_TYPE_OPTIONS).unwrap(), "nosniff");
    assert_eq!(value(&headers, X_FRAME_OPTIONS).unwrap(), "DENY");
    assert_eq!(value(&headers, CONTENT_SECURITY_POLICY).unwrap(), "default-src 'self'");
    assert_eq!(value(&headers, X_XSS_PROTECTION).unwrap(), "1; mode=block");
    assert_eq!(value(&headers, REFERRER_POLICY).unwrap(), "no-referrer");
    assert_eq!(value(&headers, PERMISSIONS_POLICY).unwrap(), "geolocation=()");
    assert_eq!(value(&headers, FEATURE_POLICY).unwrap(), "vibrate 'none'");
}

#[test]
fn test_apply_security_headers_with_partial_config() {
    let config = SecurityHeadersConfig { strict_transport_security: Some("max-age=31536000".to_string()), ..empty_config() };

    let mut headers = Headers::new();
    apply_security_headers(&mut headers, &Some(config));

    assert_eq!(value(&headers, STRICT_TRANSPORT_SECURITY).unwrap(), "max-age=31536000");
    assert!(value(&headers, X_CONTENT_TYPE_OPTIONS).is_none());
    assert!(value(&headers, X_FRAME_OPTIONS).is_none());
    assert_eq!(value(&headers, CONTENT_SECURITY_POLICY).unwrap(), DEFAULT_CSP);
    assert_eq!(value(&headers, X_XSS_PROTECTION).unwrap(), DEFAULT_X_XSS_PROTECTION);
    assert_eq!(value(&headers, REFERRER_POLICY).unwrap(), DEFAULT_REFERRER_POLICY);
    assert!(value(&headers, PERMISSIONS_POLICY).is_none());
    assert!(value(&headers, FEATURE_POLICY).is_none());
}

#[test]
fn test_apply_security_headers_with_empty_config() {
    let mut headers = Headers::new();
    apply_security_headers(&mut headers, &Some(empty_config()));

    assert!(value(&headers, STRICT_TRANSPORT_SECURITY).is_none());
    assert!(value(&headers, X_CONTENT_TYPE_OPTIONS).is_none());
    assert!(value(&headers, X_FRAME_OPTIONS).is_none());
    assert_eq!(value(&headers, CONTENT_SECURITY_POLICY).unwrap(), DEFAULT_CSP);
    assert_eq!(value(&headers, X_XSS_PROTECTION).unwrap(), DEFAULT_X_XSS_PROTECTION);
    assert_eq!(value(&headers, REFERRER_POLICY).unwrap(), DEFAULT_REFERRER_POLICY);
    assert!(value(&headers, PERMISSIONS_POLICY).is_none());
    assert!(value(&headers, FEATURE_POLICY).is_none());
}

#[test]
fn test_apply_security_headers_with_none_config() {
    let mut headers = Headers::new();
    apply_security_headers(&mut headers, &None);

    assert!(value(&headers, STRICT_TRANSPORT_SECURITY).is_none());
    assert!(value(&headers, X_CONTENT_TYPE_OPTIONS).is_none());
    assert!(value(&headers, X_FRAME_OPTIONS).is_none());
    assert!(value(&headers, CONTENT_SECURITY_POLICY).is_none());
    assert!(value(&headers, X_XSS_PROTECTION).is_none());
    assert!(value(&headers, REFERRER_POLICY).is_none());
    assert!(value(&headers, PERMISSIONS_POLICY).is_none());
    assert!(value(&headers, FEATURE_POLICY).is_none());
}

#[test]
fn invalid_values_are_detected() {
    assert!(security_config_is_valid(&empty_config()));
    let bad = SecurityHeadersConfig { x_frame_options: Some("a\nb".to_string()), ..empty_config() };
    assert!(!security_config_is_valid(&bad));
}
