use road7::headers::{value_to_text, Headers};

#[test]
fn insert_replaces_in_place_and_remove_drops_all() {
    let mut h = Headers::from_entries(vec![
        ("a".to_string(), b"1".to_vec()),
        ("b".to_string(), b"2".to_vec()),
        ("a".to_string(), b"3".to_vec()),
    ]);
    h.insert("a", b"9".to_vec());
    assert_eq!(h.len(), 2);
    assert_eq!(h.entries()[0], ("a".to_string(), b"9".to_vec()));
    h.insert("c", b"4".to_vec());
    assert_eq!(h.entries()[2].0, "c");
    h.remove("a");
    assert_eq!(h.len(), 2);
    assert!(h.get("a").is_none());
    assert_eq!(h.get("b").unwrap(), &b"2".to_vec());
    let copy = h.duplicate();
    assert_eq!(copy.entries(), h.entries());
}

#[test]
fn transform_names_are_normalized() {
    let mut h = Headers::new();
    let t = road7::transform::Transform {
        transform_type: "Header".to_string(),
        name: "Content-Type".to_string(),
        value: Some("text/plain".to_string()),
        operation: "Set".to_string(),
    };
    road7::transform::Transform::apply_header_transforms(&mut h, &[t]);
    assert_eq!(h.entries()[0].0, "content-type");
}

#[test]
fn values_read_as_text_only_when_visible_ascii() {
    assert_eq!(value_to_text(b"abc\tdef").unwrap(), "abc\tdef");
    assert!(value_to_text(&[0x7F]).is_none());
    assert!(value_to_text(&[0xC3, 0xA9]).is_none());
}
