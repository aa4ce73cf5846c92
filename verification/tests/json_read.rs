use latex_render::json::{read_json, JsonTree};

#[test]
fn json_documents_are_read_level_by_level_in_key_order() {
    let tree = read_json(br#" {"b": [1, "x", {"deep": true}], "a": null, "a": 2.5} "#, 2).expect("document should parse");
    let JsonTree::Object(entries) = tree else { panic!("object expected") };
    assert_eq!(entries.len(), 2);
    assert_eq!(entries[0].0, "a");
    match &entries[0].1 {
        JsonTree::Number(n) => {
            assert_eq!(n.as_u64, None);
            assert_eq!(f64::from_bits(n.f64_bits), 2.5);
        }
        _ => panic!("number expected"),
    }
    assert_eq!(entries[1].0, "b");
    let JsonTree::Array(items) = &entries[1].1 else { panic!("array expected") };
    assert_eq!(items.len(), 3);
    match &items[0] {
        JsonTree::Number(n) => assert_eq!(n.as_u64, Some(1)),
        _ => panic!("number expected"),
    }
    match &items[1] {
        JsonTree::Str(s) => assert_eq!(s, "x"),
        _ => panic!("string expected"),
    }
    let JsonTree::Object(inner) = &items[2] else { panic!("object expected") };
    assert_eq!(inner.len(), 1);
    assert_eq!(inner[0].0, "deep");
    assert!(matches!(inner[0].1, JsonTree::Truncated));
}

#[test]
fn malformed_json_is_not_read() {
    assert!(read_json(b"{\"a\":", 3).is_none());
    assert!(read_json(b"[1] [2]", 3).is_none());
    assert!(matches!(read_json(b"true", 0), Some(JsonTree::Bool(true))));
    assert!(matches!(read_json(b"\"\\u0041\"", 0), Some(JsonTree::Str(ref s)) if s == "A"));
}
