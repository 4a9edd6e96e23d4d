use road7::headers::Headers;
use road7::transform::Transform;

fn create_transform(name: &str, operation: &str, value: Option<&str>) -> Transform {
    Transform {
        transform_type: "Header".to_string(),
        name: name.to_string(),
        value: value.map(|v| v.to_string()),
        operation: operation.to_string(),
    }
}

fn with_custom(value: &str) -> Headers {
    let mut h = Headers::new();
    h.insert("x-custom-header", value.as_bytes().to_vec());
    h
}

fn value(h: &Headers, name: &str) -> Option<String> {
    h.get(name).map(|v| String::from_utf8(v.clone()).unwrap())
}

#[test]
fn test_apply_request_transforms_set() {
    let mut headers = Headers::new();
    let transforms = vec![create_transform("X-Custom-Header", "Set", Some("Value"))];
    Transform::apply_request_transforms(&mut headers, &transforms);
    assert_eq!(value(&headers, "x-custom-header").unwrap(), "Value");
}

#[test]
fn test_apply_request_transforms_remove() {
    let mut headers = with_custom("Value");
    let transforms = vec![create_transform("X-Custom-Header", "Remove", None)];
    Transform::apply_request_transforms(&mut headers, &transforms);
    assert!(value(&headers, "x-custom-header").is_none());
}

#[test]
fn test_apply_request_transforms_append() {
    let mut headers = with_custom("Value");
    let transforms = vec![create_transform("X-Custom-Header", "Append", Some("Appended"))];
    Transform::apply_request_transforms(&mut headers, &transforms);
    assert_eq!(value(&headers, "x-custom-header").unwrap(), "ValueAppended");
}

#[test]
fn test_apply_response_transforms_set() {
    let mut headers = Headers::new();
    let transforms = vec![create_transform("X-Custom-Header", "Set", Some("Value"))];
    Transform::apply_response_transforms(&mut headers, &transforms);
    assert_eq!(value(&headers, "x-custom-header").unwrap(), "Value");
}

#[test]
fn test_apply_response_transforms_remove() {
    let mut headers = with_custom("Value");
    let transforms = vec![create_transform("X-Custom-Header", "Remove", None)];
    Transform::apply_response_transforms(&mut headers, &transforms);
    assert!(value(&headers, "x-custom-header").is_none());
}

#[test]
fn test_apply_response_transforms_append() {
    let mut headers = with_custom("Value");
    let transforms = vec![create_transform("X-Custom-Header", "Append", Some("Appended"))];
    Transform::apply_response_transforms(&mut headers, &transforms);
    assert_eq!(value(&headers, "x-custom-header").unwrap(), "ValueAppended");
}

#[test]
fn test_apply_header_transforms_unknown_operation() {
    let mut headers = with_custom("Value");
    let transforms = vec![create_transform("X-Custom-Header", "UnknownOp", Some("Value"))];
    Transform::apply_header_transforms(&mut headers, &transforms);
    assert_eq!(value(&headers, "x-custom-header").unwrap(), "Value");
}

#[test]
fn invalid_names_are_skipped_and_invalid_values_become_empty() {
    let mut headers = Headers::new();
    let transforms = vec![
        create_transform("bad name", "Set", Some("x")),
        create_transform("X-Line", "Set", Some("a\nb")),
        create_transform("X-None", "Set", None),
    ];
    Transform::apply_header_transforms(&mut headers, &transforms);
    assert_eq!(headers.len(), 2);
    assert_eq!(value(&headers, "x-line").unwrap(), "");
    assert_eq!(value(&headers, "x-none").unwrap(), "");
}
