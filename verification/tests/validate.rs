use road7::headers::Headers;
use road7::validate::{validate_body, validate_headers, validate_request, validate_uri, MAX_BODY_SIZE, MAX_HEADER_SIZE};

fn fields(pairs: &[(&str, &str)]) -> Headers {
    Headers::from_entries(pairs.iter().map(|(n, v)| (n.to_string(), v.as_bytes().to_vec())).collect())
}

#[test]
fn test_valid_uri() {
    let req = hyper::Request::new(hyper::Body::empty());
    assert!(validate_uri(&req.uri().to_string()).is_ok());
}

#[test]
fn test_invalid_uri() {
    let invalid_uri = "http://example.com/<script>alert('xss')</script>";
    assert!(validate_uri(invalid_uri).is_err());
}

#[test]
fn test_valid_headers() {
    let mut headers = Headers::new();
    headers.insert("content-type", b"application/json".to_vec());
    headers.insert("user-agent", b"Mozilla/5.0".to_vec());
    assert!(validate_headers(&headers).is_ok());
}

#[test]
fn test_invalid_header_name() {
    let invalid_header_name = "Invalid-Header-Name@";
    let invalid_header_value = "value";

    let result = validate_headers(&fields(&[(invalid_header_name, invalid_header_value)]));
    assert!(result.is_err());
    assert_eq!(result.err().unwrap(), format!("Invalid header name detected: {}", invalid_header_name));
}

#[test]
fn test_invalid_header_value() {
    let valid_header_name = "Content-Type";
    let invalid_header_value = "application/<script>json</script>";

    let result = validate_headers(&fields(&[(valid_header_name, invalid_header_value)]));
    assert!(result.is_err());
    assert_eq!(
        result.err().unwrap(),
        format!("Invalid header value detected for {}: {:?}", valid_header_name, invalid_header_value)
    );
}

#[test]
fn test_valid_body() {
    assert!(validate_body("This is a safe body.".as_bytes()).is_ok());
}

#[test]
fn test_invalid_body() {
    assert!(validate_body("<script>alert('xss')</script>".as_bytes()).is_err());
}

#[test]
fn test_exceeds_body_size() {
    let large_body = "a".repeat(MAX_BODY_SIZE + 1);
    assert!(validate_body(large_body.as_bytes()).is_err());
}

#[test]
fn body_errors_carry_their_messages() {
    let large_body = "a".repeat(MAX_BODY_SIZE + 1);
    assert_eq!(validate_body(large_body.as_bytes()).unwrap_err(), "Body size exceeds the limit");
    assert_eq!(
        validate_body(b"<script>alert(1)</script>").unwrap_err(),
        "HTML sanitization failed: potentially harmful content detected"
    );
    let exact = "a".repeat(MAX_BODY_SIZE);
    assert!(validate_body(exact.as_bytes()).is_ok());
}

#[test]
fn header_size_limit_counts_names_and_values() {
    let value = "v".repeat(MAX_HEADER_SIZE - "x-long".len());
    assert!(validate_headers(&fields(&[("x-long", value.as_str())])).is_ok());
    let value = "v".repeat(MAX_HEADER_SIZE - "x-long".len() + 1);
    assert_eq!(validate_headers(&fields(&[("x-long", value.as_str())])).unwrap_err(), "Header size exceeds the limit");
}

#[test]
fn non_ascii_values_are_refused() {
    let headers = Headers::from_entries(vec![("x-name".to_string(), vec![0xC3, 0xA9])]);
    assert_eq!(validate_headers(&headers).unwrap_err(), "Non-ASCII header value detected for x-name");
}

#[test]
fn quotes_in_values_are_escaped_in_the_message() {
    let result = validate_headers(&fields(&[("Content-Type", "a\"<b>")]));
    assert_eq!(result.unwrap_err(), format!("Invalid header value detected for Content-Type: {:?}", "a\"<b>"));
}

#[test]
fn empty_default_value_is_refused() {
    let result = validate_headers(&fields(&[("x-empty", "")]));
    assert_eq!(result.unwrap_err(), "Invalid header value detected for x-empty: \"\"");
}

#[test]
fn request_checks_uri_then_headers_then_body() {
    let good = fields(&[("accept", "text/html")]);
    assert!(validate_request("/index.html", &good, b"hello").is_ok());
    assert_eq!(validate_request("/a b", &good, b"hello").unwrap_err(), "Invalid URI detected");
    let bad = fields(&[("bad name", "x")]);
    assert_eq!(validate_request("/ok", &bad, b"<script></script>").unwrap_err(), "Invalid header name detected: bad name");
    assert!(validate_request("/ok", &good, b"<script></script>").is_err());
}

#[test]
fn content_type_rule_applies_to_lower_case_names() {
    let mut headers = Headers::new();
    headers.insert("content-type", b"application/<script>json</script>".to_vec());
    assert_eq!(
        validate_headers(&headers).unwrap_err(),
        "Invalid header value detected for content-type: \"application/<script>json</script>\""
    );
    let mut ok = Headers::new();
    ok.insert("content-type", b"text/html; charset=utf-8".to_vec());
    assert!(validate_headers(&ok).is_ok());
}
