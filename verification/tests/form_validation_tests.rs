use render_engine::form_validation::{
    apply_defaults_value, MemoSchema, MemoValidator, ValidationError, ValidationRule, ValueType,
};
use render_engine::json::{parse, to_text, Json, Member};
use serde_json::Value;

#[test]
fn test_valid_memo() {
    let validator = MemoValidator::new();
    let valid_json = r#"
        {
            "memo-for": ["Recipient"],
            "from-block": ["Sender", "Title"],
            "subject": "Test Subject",
            "signature-block": ["Name", "Title"],
            "body": {
                "format": "plaintext",
                "data": "Test content"
            }
        }"#;

    assert!(validator.validate_json(valid_json).is_ok());
}

#[test]
fn test_missing_required_field() {
    let validator = MemoValidator::new();
    let invalid_json = r#"
        {
            "memo-for": ["Recipient"],
            "subject": "Test Subject"
        }"#;

    let result = validator.validate_json(invalid_json);
    assert!(result.is_err());

    let errors = result.unwrap_err();
    assert!(errors.iter().any(|e| e.message.contains("Required property 'from-block' is missing")));
}

#[test]
fn test_invalid_type() {
    let validator = MemoValidator::new();
    let invalid_json = r#"
        {
            "memo-for": "Should be array",
            "from-block": ["Sender"],
            "subject": "Test Subject", 
            "signature-block": ["Name", "Title"],
            "body": {
                "data": "Test content"
            }
        }"#;

    let result = validator.validate_json(invalid_json);
    assert!(result.is_err());

    let errors = result.unwrap_err();
    assert!(errors.iter().any(|e| e.message.contains("must be Array")));
}

#[test]
fn test_apply_defaults() {
    let validator = MemoValidator::new();
    let input_json = r#"
        {
            "memo-for": ["Recipient"],
            "from-block": ["Sender"],
            "subject": "Test",
            "signature-block": ["Name", "Title"],
            "body": {
                "data": "Content"
            }
        }"#;

    let result = validator.apply_defaults(input_json).unwrap();
    let parsed: Value = serde_json::from_str(&result).unwrap();

    if let Value::Object(obj) = parsed {
        assert!(obj.contains_key("references"));
        assert!(obj["references"].is_null());

        if let Value::Object(body) = &obj["body"] {
            assert_eq!(body["format"], Value::String("plaintext".to_string()));
        }
    }
}

fn errors_of(json: &str) -> Vec<ValidationError> {
    let mut errors = MemoValidator::new().validate_json(json).unwrap_err();
    errors.sort_by(|a, b| (&a.field_path, &a.message).cmp(&(&b.field_path, &b.message)));
    errors
}

fn sorted(mut errors: Vec<ValidationError>) -> Vec<ValidationError> {
    errors.sort_by(|a, b| (&a.field_path, &a.message).cmp(&(&b.field_path, &b.message)));
    errors
}

const VALID: &str = r#"{"memo-for":["R"],"from-block":["S"],"subject":"T","signature-block":["N","T"],"body":{"format":"markup","data":"D"}}"#;

#[test]
fn conforming_memos_have_no_errors() {
    let validator = MemoValidator::new();
    assert_eq!(validator.validate_json(VALID), Ok(()));
    let with_references = r#"{"memo-for":["R","Q"],"from-block":["S"],"subject":"T","references":["a","b"],"signature-block":["N","T","O"],"body":{"format":"delta","data":"{}"}}"#;
    assert_eq!(validator.validate_json(with_references), Ok(()));
    let null_references = r#"{"memo-for":["R"],"from-block":["S"],"subject":"T","references":null,"signature-block":["N","T"],"body":{"data":"D"}}"#;
    assert_eq!(validator.validate_json(null_references), Ok(()));
    let empty_body = r#"{"memo-for":["R"],"from-block":["S"],"subject":"T","signature-block":["N","T"],"body":{}}"#;
    assert_eq!(validator.validate_json(empty_body), Ok(()));
}

#[test]
fn each_missing_required_property_is_named() {
    let errors = errors_of("{}");
    assert_eq!(
        errors,
        sorted(vec![
            ValidationError::new("memo-for", "Required property 'memo-for' is missing"),
            ValidationError::new("from-block", "Required property 'from-block' is missing"),
            ValidationError::new("subject", "Required property 'subject' is missing"),
            ValidationError::new("signature-block", "Required property 'signature-block' is missing"),
            ValidationError::new("body", "Required property 'body' is missing"),
        ])
    );
}

#[test]
fn errors_keep_the_order_of_the_checks() {
    let errors = MemoValidator::new().validate_json("{}").unwrap_err();
    let paths: Vec<&str> = errors.iter().map(|e| e.field_path.as_str()).collect();
    assert_eq!(paths, vec!["memo-for", "from-block", "subject", "signature-block", "body"]);
}

#[test]
fn unknown_property_names_the_allowed_ones() {
    let json = r#"{"memo-for":["R"],"from-block":["S"],"subject":"T","signature-block":["N","T"],"body":{"data":"D"},"date":"2025-09-15"}"#;
    assert_eq!(
        errors_of(json),
        vec![ValidationError::new(
            "date",
            "Unexpected property 'date'. Allowed properties: memo-for, from-block, subject, references, signature-block, body"
        )]
    );
}

#[test]
fn wrong_kind_names_both_kinds() {
    let json = r#"{"memo-for":"Should be array","from-block":["S"],"subject":"T","signature-block":["N","T"],"body":{"data":"D"}}"#;
    assert_eq!(
        errors_of(json),
        vec![ValidationError::new("memo-for", "Property 'memo-for' must be Array (got String)")]
    );
    let json = r#"{"memo-for":["R"],"from-block":["S"],"subject":5,"signature-block":["N","T"],"body":true}"#;
    assert_eq!(
        errors_of(json),
        sorted(vec![
            ValidationError::new("subject", "Property 'subject' must be String (got Number)"),
            ValidationError::new("body", "Property 'body' must be Object (got Boolean)"),
        ])
    );
}

#[test]
fn one_property_can_break_several_rules() {
    let json = r#"{"memo-for":["R"],"from-block":["S"],"subject":"T","signature-block":[1],"body":{"data":"D"}}"#;
    assert_eq!(
        errors_of(json),
        sorted(vec![
            ValidationError::new(
                "signature-block",
                "Property 'signature-block' must contain at least 2 items"
            ),
            ValidationError::new(
                "signature-block",
                "All items in 'signature-block' array must be String (item 0 is Number)"
            ),
        ])
    );
}

#[test]
fn short_lists_and_empty_subject_are_reported() {
    let json = r#"{"memo-for":[],"from-block":["S"],"subject":"","signature-block":["N","T"],"body":{"data":"D"}}"#;
    assert_eq!(
        errors_of(json),
        sorted(vec![
            ValidationError::new("memo-for", "Property 'memo-for' must contain at least 1 item"),
            ValidationError::new("subject", "Property 'subject' cannot be empty (minLength: 1)"),
        ])
    );
}

#[test]
fn each_wrong_item_is_reported_with_its_index() {
    let json = r#"{"memo-for":["a",null,"b",[],{},false,"c","d","e","f",10.5],"from-block":["S"],"subject":"T","signature-block":["N","T"],"body":{"data":"D"}}"#;
    assert_eq!(
        errors_of(json),
        sorted(vec![
            ValidationError::new("memo-for", "All items in 'memo-for' array must be String (item 1 is Null)"),
            ValidationError::new("memo-for", "All items in 'memo-for' array must be String (item 3 is Array)"),
            ValidationError::new("memo-for", "All items in 'memo-for' array must be String (item 4 is Object)"),
            ValidationError::new("memo-for", "All items in 'memo-for' array must be String (item 5 is Boolean)"),
            ValidationError::new("memo-for", "All items in 'memo-for' array must be String (item 10 is Number)"),
        ])
    );
}

#[test]
fn references_must_be_a_list_of_strings_or_null() {
    let json = r#"{"memo-for":["R"],"from-block":["S"],"subject":"T","references":"AFI","signature-block":["N","T"],"body":{"data":"D"}}"#;
    assert_eq!(
        errors_of(json),
        vec![ValidationError::new("references", "Property 'references' must be an array or null")]
    );
    let json = r#"{"memo-for":["R"],"from-block":["S"],"subject":"T","references":["a",2],"signature-block":["N","T"],"body":{"data":"D"}}"#;
    assert_eq!(
        errors_of(json),
        vec![ValidationError::new(
            "references",
            "All items in 'references' array must be String (item 1 is Number)"
        )]
    );
}

#[test]
fn body_is_validated_under_its_own_path() {
    let json = r#"{"memo-for":["R"],"from-block":["S"],"subject":"T","signature-block":["N","T"],"body":{"format":"rtf","data":5,"style":"x"}}"#;
    assert_eq!(
        errors_of(json),
        sorted(vec![
            ValidationError::new(
                "body.style",
                "Unexpected property in body: 'style'. Allowed properties: format, data"
            ),
            ValidationError::new(
                "body.format",
                "Property 'body.format' must be one of: plaintext, markup, delta (got 'rtf')"
            ),
            ValidationError::new("body.data", "Property 'body.data' must be String (got Number)"),
        ])
    );
}

#[test]
fn body_format_may_be_any_of_the_known_formats() {
    let validator = MemoValidator::new();
    for format in ["plaintext", "markup", "delta"] {
        let json = format!(
            r#"{{"memo-for":["R"],"from-block":["S"],"subject":"T","signature-block":["N","T"],"body":{{"format":"{}","data":"D"}}}}"#,
            format
        );
        assert_eq!(validator.validate_json(&json), Ok(()));
    }
}

#[test]
fn root_must_be_an_object() {
    assert_eq!(
        MemoValidator::new().validate_json("[1]"),
        Err(vec![ValidationError::new("root", "Root must be a JSON object")])
    );
}

#[test]
fn text_that_is_no_json_is_reported_at_the_root() {
    let errors = MemoValidator::new().validate_json("{\"memo-for\": [").unwrap_err();
    assert_eq!(errors.len(), 1);
    assert_eq!(errors[0].field_path, "root");
    assert!(errors[0].message.starts_with("Invalid JSON: "));
    assert!(errors[0].message.len() > "Invalid JSON: ".len());
}

#[test]
fn memo_value_is_validated_like_its_text() {
    let validator = MemoValidator::new();
    let members = vec![
        Member { name: "memo-for".to_string(), value: Json::Array(vec![Json::String("R".to_string())]) },
        Member { name: "subject".to_string(), value: Json::Null },
    ];
    let errors = validator.validate_memo(&members).unwrap_err();
    assert_eq!(
        errors,
        vec![
            ValidationError::new("from-block", "Required property 'from-block' is missing"),
            ValidationError::new("signature-block", "Required property 'signature-block' is missing"),
            ValidationError::new("body", "Required property 'body' is missing"),
            ValidationError::new("subject", "Property 'subject' must be String (got Null)"),
        ]
    );
}

#[test]
fn single_validators_report_their_rule() {
    let validator = MemoValidator::new();
    assert_eq!(validator.validate_string_length("abc", 3, "p"), Ok(()));
    assert_eq!(
        validator.validate_string_length("ab", 3, "p"),
        Err(vec![ValidationError::new("p", "Property 'p' cannot be empty (minLength: 3)")])
    );
    assert_eq!(validator.validate_string_length("\u{e9}", 2, "p"), Ok(()));
    let allowed = vec!["a".to_string(), "b".to_string()];
    assert_eq!(validator.validate_enum("b", &allowed, "p"), Ok(()));
    assert_eq!(
        validator.validate_enum("c", &allowed, "p"),
        Err(vec![ValidationError::new("p", "Property 'p' must be one of: a, b (got 'c')")])
    );
    assert_eq!(validator.validate_type(&Json::Bool(true), ValueType::Boolean, "p"), Ok(()));
    assert_eq!(validator.validate_nullable_array(&Json::Null, "p"), Ok(()));
    assert_eq!(validator.validate_array_length(&vec![Json::Null], 1, "p"), Ok(()));
    assert_eq!(
        validator.validate_array_length(&vec![], 1, "p"),
        Err(vec![ValidationError::new("p", "Property 'p' must contain at least 1 item")])
    );
}

#[test]
fn rules_are_applied_in_their_order() {
    let validator = MemoValidator::new();
    let rules = vec![
        ValidationRule::Enum { allowed: vec!["x".to_string()] },
        ValidationRule::StringLength { min: 5 },
        ValidationRule::Type { expected: ValueType::Number },
    ];
    let errors = validator.validate_property(&Json::String("abc".to_string()), &rules, "p").unwrap_err();
    let messages: Vec<&str> = errors.iter().map(|e| e.message.as_str()).collect();
    assert_eq!(
        messages,
        vec![
            "Property 'p' must be one of: x (got 'abc')",
            "Property 'p' cannot be empty (minLength: 5)",
            "Property 'p' must be Number (got String)",
        ]
    );
}

#[test]
fn official_schema_names_its_properties() {
    let schema = MemoSchema::official_memorandum();
    assert_eq!(
        schema.allowed_properties,
        vec!["memo-for", "from-block", "subject", "references", "signature-block", "body"]
    );
    assert_eq!(
        schema.required_properties,
        vec!["memo-for", "from-block", "subject", "signature-block", "body"]
    );
    assert_eq!(schema.properties.len(), 6);
    assert_eq!(schema.body_schema.allowed_properties, vec!["format", "data"]);
    assert_eq!(schema.body_schema.properties.len(), 2);
}

#[test]
fn defaults_fill_references_and_format() {
    let value = parse(r#"{"subject":"S","body":{"data":"D"}}"#).unwrap();
    let filled = apply_defaults_value(value);
    assert_eq!(
        to_text(&filled).unwrap(),
        r#"{"body":{"data":"D","format":"plaintext"},"references":null,"subject":"S"}"#
    );
}

#[test]
fn defaults_keep_what_is_there() {
    let text = r#"{"body":{"data":"D","format":"delta"},"references":["a"]}"#;
    let filled = apply_defaults_value(parse(text).unwrap());
    assert_eq!(to_text(&filled).unwrap(), text);
    let filled = apply_defaults_value(parse(r#"{"body":"text"}"#).unwrap());
    assert_eq!(to_text(&filled).unwrap(), r#"{"body":"text","references":null}"#);
    let filled = apply_defaults_value(parse("[1]").unwrap());
    assert_eq!(to_text(&filled).unwrap(), "[1]");
}

#[test]
fn defaults_applied_twice_are_defaults_applied_once() {
    let validator = MemoValidator::new();
    for text in [
        r#"{"subject":"S","body":{"data":"D"}}"#,
        r#"{"body":{"format":"markup"},"references":[1, 2.5, -3]}"#,
        r#"{"memo-for":["R"]}"#,
        r#""text""#,
    ] {
        let once = validator.apply_defaults(text).unwrap();
        let twice = validator.apply_defaults(&once).unwrap();
        assert_eq!(once, twice);
    }
}

#[test]
fn defaults_are_written_as_indented_json() {
    let out = MemoValidator::new().apply_defaults(r#"{"body":{"data":"D"}}"#).unwrap();
    assert_eq!(
        out,
        "{\n  \"body\": {\n    \"data\": \"D\",\n    \"format\": \"plaintext\"\n  },\n  \"references\": null\n}"
    );
}

#[test]
fn defaults_of_what_is_no_json_fail() {
    assert!(MemoValidator::new().apply_defaults("{").is_err());
}
