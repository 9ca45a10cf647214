use nono_cli::field_extract::{
    extract_field_output, pointer_for, primitive_text, render_document, render_json,
};
use nono_cli::json::JsonNode;

fn document(text: &str) -> serde_json::Value {
    serde_json::from_str(text).expect("valid JSON")
}


#[test]
fn extract_field_unwraps_primitive_string_without_quotes() {
    let val = document(r#"{"name": "default"}"#);
    let out = extract_field_output(&val, "name", false).expect("string");
    assert_eq!(out, "default");
}

#[test]
fn extract_field_emits_null_literal() {
    let val = document(r#"{"x": null}"#);
    assert_eq!(
        extract_field_output(&val, "x", false).expect("null"),
        "null"
    );
}

#[test]
fn extract_field_serializes_composites_with_compact_flag() {
    let val = document(r#"{"arr": [1, 2, 3]}"#);
    let pretty = extract_field_output(&val, "arr", false).expect("pretty");
    assert!(pretty.contains('\n'));
    let compact = extract_field_output(&val, "arr", true).expect("compact");
    assert_eq!(compact, "[1,2,3]");
}

#[test]
fn extract_field_supports_pointer_paths() {
    let val = document(r#"{"a": {"b": [10, 20]}}"#);
    assert_eq!(
        extract_field_output(&val, "/a/b/1", false).expect("pointer"),
        "20"
    );
}

#[test]
fn extract_field_errors_on_missing_path() {
    let val = document(r#"{"name": "default"}"#);
    let err = extract_field_output(&val, "wrongkey", false).expect_err("missing");
    let msg = err.message();
    assert!(msg.contains("wrongkey"), "names the missing field: {msg}");
    assert!(
        msg.contains("JSON-Pointer") || msg.contains("top-level key"),
        "hints at pointer syntax: {msg}"
    );
}

#[test]
fn numbers_and_booleans_are_given_raw() {
    let val = document(r#"{"n": -12, "f": 1.5, "t": true, "b": false}"#);
    for compact in [true, false] {
        assert_eq!(extract_field_output(&val, "n", compact).expect("n"), "-12");
        assert_eq!(extract_field_output(&val, "f", compact).expect("f"), "1.5");
        assert_eq!(extract_field_output(&val, "t", compact).expect("t"), "true");
        assert_eq!(
            extract_field_output(&val, "b", compact).expect("b"),
            "false"
        );
    }
}

#[test]
fn strings_lose_quotes_and_escapes() {
    let val = document(r#"{"s": "a\"b\nc"}"#);
    assert_eq!(
        extract_field_output(&val, "s", true).expect("s"),
        "a\"b\nc"
    );
}

#[test]
fn key_and_pointer_find_the_same() {
    let val = document(r#"{"a": {"b": 1}}"#);
    assert_eq!(pointer_for("a"), "/a");
    assert_eq!(pointer_for("/a"), "/a");
    assert_eq!(pointer_for(""), "/");
    assert_eq!(
        extract_field_output(&val, "a", true).expect("key"),
        extract_field_output(&val, "/a", true).expect("pointer")
    );
    assert_eq!(
        extract_field_output(&val, "a", true).expect("key"),
        r#"{"b":1}"#
    );
    assert_eq!(
        extract_field_output(&val, "a", false).expect("key"),
        "{\n  \"b\": 1\n}"
    );
}

#[test]
fn keys_may_hold_slashes_and_tildes() {
    let val = document(r#"{"a/b": 1, "m~n": 2, "~1": 3, "a": {"b": 4}, "/x": 5}"#);
    assert_eq!(pointer_for("a/b"), "/a~1b");
    assert_eq!(pointer_for("m~n"), "/m~0n");
    assert_eq!(pointer_for("~1"), "/~01");
    for (field, expected) in [
        ("a/b", "1"),
        ("m~n", "2"),
        ("~1", "3"),
        ("/a/b", "4"),
        ("/a~1b", "1"),
        ("/m~0n", "2"),
        ("/~1x", "5"),
    ] {
        assert_eq!(
            extract_field_output(&val, field, false).expect("field"),
            expected
        );
    }
    assert!(extract_field_output(&val, "/x", false).is_err());
}

#[test]
fn arrays_and_objects_are_read_back() {
    let val = document(r#"{"a": [1, -2, {"k\n\"l": ["x\\", true, null, {}, []]}], "o": {"z": 1, "b": ""}}"#);
    for field in ["a", "o", "/a/2"] {
        for compact in [true, false] {
            let out = extract_field_output(&val, field, compact).expect("composite");
            let pointer = pointer_for(field);
            assert_eq!(Some(&document(&out)), val.pointer(&pointer));
            assert_eq!(out.contains('\n'), !compact);
        }
    }
    for (field, text) in [("/a/2/k\n\"l/3", "{}"), ("/a/2/k\n\"l/4", "[]")] {
        assert_eq!(extract_field_output(&val, field, false).expect("empty"), text);
    }
}

#[test]
fn layout_adds_only_blanks() {
    let deep = format!("{}1.5{}", "[".repeat(200), "]".repeat(200));
    let mut val = serde_json::Value::from(1.5);
    for _ in 0..200 {
        val = serde_json::Value::Array(vec![val]);
    }
    assert_eq!(render_document(&val, true).expect("compact"), deep);
    let pretty = render_document(&val, false).expect("pretty");
    assert_eq!(pretty.replace([' ', '\n'], ""), deep);
    let val = document(r#"{"a b": [" ", {}], "c": "\n \" "}"#);
    assert_eq!(
        render_document(&val, false).expect("pretty"),
        "{\n  \"a b\": [\n    \" \",\n    {}\n  ],\n  \"c\": \"\\n \\\" \"\n}"
    );
}

#[test]
fn strings_are_escaped_inside_documents() {
    let val = serde_json::Value::Array(vec![serde_json::Value::String(
        "\u{8}\t\n\u{c}\r\u{1f}\u{7f}\"\\é".to_string(),
    )]);
    assert_eq!(
        render_document(&val, true).expect("json"),
        "[\"\\b\\t\\n\\f\\r\\u001f\u{7f}\\\"\\\\é\"]"
    );
}

#[test]
fn missing_field_is_an_error_with_the_field_quoted() {
    let val = document("{}");
    assert_eq!(
        extract_field_output(&val, "a/b", false)
            .expect_err("missing")
            .message(),
        "field \"a/b\" not found in JSON output (use a top-level key or a JSON-Pointer path like /security/groups/0)"
    );
    assert_eq!(
        extract_field_output(&val, "a\"b", false)
            .expect_err("missing")
            .message(),
        "field \"a\\\"b\" not found in JSON output (use a top-level key or a JSON-Pointer path like /security/groups/0)"
    );
}

#[test]
fn render_json_takes_the_document_or_a_field() {
    let val = document(r#"{"a": [1, 2]}"#);
    assert_eq!(
        render_json(&val, &None, true).expect("all"),
        r#"{"a":[1,2]}"#
    );
    assert_eq!(
        render_json(&val, &Some("/a/1".to_string()), true).expect("field"),
        "2"
    );
    assert!(render_json(&val, &Some("b".to_string()), true).is_err());
    assert_eq!(
        render_document(&val, false).expect("pretty"),
        "{\n  \"a\": [\n    1,\n    2\n  ]\n}"
    );
}

#[test]
fn primitives_have_a_text_and_composites_have_none() {
    assert_eq!(primitive_text(JsonNode::Null).as_deref(), Some("null"));
    assert_eq!(
        primitive_text(JsonNode::Number("7".to_string())).as_deref(),
        Some("7")
    );
    assert_eq!(primitive_text(JsonNode::Composite), None);
}
