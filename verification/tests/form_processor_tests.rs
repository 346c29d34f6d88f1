use render_engine::delta_parser::ParserError;
use render_engine::form_processor::{
    content_of_json, preprocess_form, preprocess_form_json, process_content,
    process_content_json, validate_and_preprocess_form_json, validate_official_memo_schema,
    Content, ContentFormat,
};
use render_engine::json::{parse, Json};

#[test]
fn processes_markup_as_is() {
    let content = Content { format: ContentFormat::Markup, data: "Hello, World!".to_string() };
    let out = process_content(&content).unwrap();
    assert_eq!(out, "Hello, World!");
}

#[test]
fn default_format_is_markup() {
    let json = r#"{ "data": "Plain text" }"#;
    let out = process_content_json(json).unwrap();
    assert_eq!(out, "Plain text");
}

#[test]
fn processes_delta_via_parser() {
    let delta = r#"{"ops":[{"insert":"Hello "},{"insert":"world","attributes":{"bold":true}}]}"#;
    let content = Content { format: ContentFormat::Delta, data: delta.to_string() };
    let out = process_content(&content).unwrap();
    assert_eq!(out, "Hello *world*");
}

#[test]
fn validates_official_memo_schema_minimal() {
    let input = r#"{
			"memo-for": ["X"],
			"from-block": ["A"],
			"subject": "S",
			"signature-block": ["Name", "Title"],
			"body": {"format":"markup", "data":"Hello"}
		}"#;
    let res = validate_official_memo_schema(input);
    match res {
        Ok(()) => {}
        Err(ParserError::InvalidFormat(msg)) => {
            assert!(msg.contains("Invalid schema JSON"), "Unexpected error: {}", msg);
        }
        Err(e) => panic!("Unexpected error: {:?}", e),
    }
}

#[test]
fn minimal_memo_meets_the_schema() {
    let input = r#"{"memo-for":["X"],"from-block":["A"],"subject":"S","signature-block":["Name","Title"],"body":{"format":"delta","data":"{}"}}"#;
    assert_eq!(validate_official_memo_schema(input), Ok(()));
}

#[test]
fn schema_mismatch_tells_the_first_error() {
    let input = r#"{"memo-for":["X"],"from-block":["A"],"subject":"S","signature-block":["Name"],"body":{"data":"d"},"extra":1}"#;
    assert_eq!(
        validate_official_memo_schema(input),
        Err(ParserError::InvalidFormat(
            "Form JSON does not match schema: Unexpected property 'extra'. Allowed properties: memo-for, from-block, subject, references, signature-block, body at extra".to_string()
        ))
    );
}

#[test]
fn schema_check_refuses_what_is_no_object() {
    assert_eq!(
        validate_official_memo_schema("[]"),
        Err(ParserError::InvalidFormat(
            "Form JSON does not match schema: Root must be a JSON object at root".to_string()
        ))
    );
}

#[test]
fn schema_check_refuses_what_is_no_json() {
    match validate_official_memo_schema("{") {
        Err(ParserError::InvalidFormat(msg)) => assert!(msg.starts_with("Invalid form JSON: ")),
        other => panic!("unexpected outcome: {:?}", other),
    }
}

#[test]
fn content_format_defaults_to_markup() {
    assert_eq!(ContentFormat::default(), ContentFormat::Markup);
}

#[test]
fn content_is_read_from_an_object() {
    let value = parse(r#"{"format":"delta","data":"{}","note":1}"#).unwrap();
    let content = content_of_json(&value).unwrap();
    assert_eq!(content.format, ContentFormat::Delta);
    assert_eq!(content.data, "{}");
}

#[test]
fn content_needs_a_known_format_and_string_data() {
    assert!(content_of_json(&parse(r#"{"format":"plaintext","data":"x"}"#).unwrap()).is_none());
    assert!(content_of_json(&parse(r#"{"format":null,"data":"x"}"#).unwrap()).is_none());
    assert!(content_of_json(&parse(r#"{"format":"markup"}"#).unwrap()).is_none());
    assert!(content_of_json(&parse(r#"{"data":5}"#).unwrap()).is_none());
    assert!(content_of_json(&parse(r#""markup""#).unwrap()).is_none());
}

#[test]
fn content_json_of_a_delta_is_transpiled() {
    let json = r#"{"format":"delta","data":"{\"ops\":[{\"insert\":\"Hi\",\"attributes\":{\"italic\":true}}]}"}"#;
    assert_eq!(process_content_json(json).unwrap(), "_Hi_");
}

#[test]
fn content_json_of_the_wrong_shape_is_an_invalid_format() {
    assert_eq!(
        process_content_json(r#"{"format":"rtf","data":"x"}"#),
        Err(ParserError::InvalidFormat(
            "Invalid content JSON: expected an object with a string `data` and a `format` of `markup` or `delta`".to_string()
        ))
    );
    match process_content_json("{") {
        Err(ParserError::InvalidFormat(msg)) => assert!(msg.starts_with("Invalid content JSON: ")),
        other => panic!("unexpected outcome: {:?}", other),
    }
}

#[test]
fn delta_content_with_bad_json_is_a_json_error() {
    let content = Content { format: ContentFormat::Delta, data: "not json".to_string() };
    assert!(matches!(process_content(&content), Err(ParserError::JsonError(_))));
}

#[test]
fn preprocess_fills_body_raw_from_markup() {
    let out = preprocess_form_json(r#"{"subject":"S","body":{"format":"markup","data":"Hello"}}"#).unwrap();
    assert_eq!(out, r#"{"body":{"data":"Hello","format":"markup"},"body_raw":"Hello","subject":"S"}"#);
}

#[test]
fn preprocess_fills_body_raw_from_a_delta() {
    let form = r#"{"body":{"format":"delta","data":"{\"ops\":[{\"insert\":\"Hi\",\"attributes\":{\"bold\":true}}]}"}}"#;
    let out = preprocess_form_json(form).unwrap();
    let value: serde_json::Value = serde_json::from_str(&out).unwrap();
    assert_eq!(value["body_raw"], serde_json::Value::String("*Hi*".to_string()));
}

#[test]
fn preprocess_replaces_a_null_or_empty_body_raw() {
    let out = preprocess_form_json(r#"{"body_raw":null,"body":{"data":"A"}}"#).unwrap();
    assert_eq!(out, r#"{"body":{"data":"A"},"body_raw":"A"}"#);
    let out = preprocess_form_json(r#"{"body_raw":"","body":{"data":"B"}}"#).unwrap();
    assert_eq!(out, r#"{"body":{"data":"B"},"body_raw":"B"}"#);
}

#[test]
fn preprocess_keeps_a_body_raw_that_is_there() {
    let out = preprocess_form_json(r#"{"body_raw":"kept","body":{"data":"other"}}"#).unwrap();
    assert_eq!(out, r#"{"body":{"data":"other"},"body_raw":"kept"}"#);
    let out = preprocess_form_json(r#"{"body_raw":7,"body":{"data":"other"}}"#).unwrap();
    assert_eq!(out, r#"{"body":{"data":"other"},"body_raw":7}"#);
}

#[test]
fn preprocess_leaves_a_form_without_content_as_it_is() {
    assert_eq!(preprocess_form_json(r#"{"subject":"S"}"#).unwrap(), r#"{"subject":"S"}"#);
    assert_eq!(
        preprocess_form_json(r#"{"body":{"format":"plaintext","data":"x"}}"#).unwrap(),
        r#"{"body":{"data":"x","format":"plaintext"}}"#
    );
    assert_eq!(preprocess_form_json("[1, 2.5, -3]").unwrap(), "[1,2.5,-3]");
}

#[test]
fn preprocess_reports_a_body_that_cannot_be_processed() {
    let form = r#"{"body":{"format":"delta","data":"{\"ops\":[{\"retain\":1}]}"}}"#;
    assert_eq!(
        preprocess_form_json(form),
        Err(ParserError::InvalidFormat(
            "Failed to process body content: Unsupported operation: Retain operations are not supported in document parsing".to_string()
        ))
    );
}

#[test]
fn preprocess_refuses_what_is_no_json() {
    match preprocess_form_json("{\"body\":") {
        Err(ParserError::InvalidFormat(msg)) => assert!(msg.starts_with("Invalid form JSON: ")),
        other => panic!("unexpected outcome: {:?}", other),
    }
}

#[test]
fn preprocess_of_a_value_sets_the_member() {
    let form = parse(r#"{"body":{"data":"text"},"subject":"S"}"#).unwrap();
    match preprocess_form(form).unwrap() {
        Json::Object(members) => {
            assert_eq!(members.len(), 3);
            assert_eq!(members[2].name, "body_raw");
            assert!(matches!(&members[2].value, Json::String(s) if s == "text"));
        }
        other => panic!("unexpected value: {:?}", other),
    }
}

#[test]
fn valid_form_is_checked_and_made_ready() {
    let input = r#"{"memo-for":["X"],"from-block":["A"],"subject":"S","signature-block":["Name","Title"],"body":{"format":"markup","data":"Hello"}}"#;
    let out = validate_and_preprocess_form_json(input).unwrap();
    let value: serde_json::Value = serde_json::from_str(&out).unwrap();
    assert_eq!(value["body_raw"], serde_json::Value::String("Hello".to_string()));
    assert_eq!(value["subject"], serde_json::Value::String("S".to_string()));
}

#[test]
fn invalid_form_is_not_made_ready() {
    let input = r#"{"subject":"S","body":{"format":"markup","data":"Hello"}}"#;
    match validate_and_preprocess_form_json(input) {
        Err(ParserError::InvalidFormat(msg)) => {
            assert_eq!(
                msg,
                "Form JSON does not match schema: Required property 'memo-for' is missing at memo-for"
            );
        }
        other => panic!("unexpected outcome: {:?}", other),
    }
}
