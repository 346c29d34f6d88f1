use render_engine::delta_parser::{DeltaParser, ParserError};
use render_engine::json::parse;

#[test]
fn test_basic_text_parsing() {
    let parser = DeltaParser::new();
    let delta_json = r#"{"ops":[{"insert":"Hello, World!"}]}"#;

    let result = parser.parse(delta_json).unwrap();
    assert_eq!(result, "Hello, World!");
}

#[test]
fn test_bold_text() {
    let parser = DeltaParser::new();
    let delta_json = r#"{"ops":[{"insert":"Bold text","attributes":{"bold":true}}]}"#;

    let result = parser.parse(delta_json).unwrap();
    assert_eq!(result, "*Bold text*");
}

#[test]
fn test_italic_text() {
    let parser = DeltaParser::new();
    let delta_json = r#"{"ops":[{"insert":"Italic text","attributes":{"italic":true}}]}"#;

    let result = parser.parse(delta_json).unwrap();
    assert_eq!(result, "_Italic text_");
}

#[test]
fn test_underline_text() {
    let parser = DeltaParser::new();
    let delta_json = r#"{"ops":[{"insert":"Underlined text","attributes":{"underline":true}}]}"#;

    let result = parser.parse(delta_json).unwrap();
    assert_eq!(result, "#underline[Underlined text]");
}

#[test]
fn test_strikethrough_text() {
    let parser = DeltaParser::new();
    let delta_json = r#"{"ops":[{"insert":"Strikethrough text","attributes":{"strike":true}}]}"#;

    let result = parser.parse(delta_json).unwrap();
    assert_eq!(result, "#strike[Strikethrough text]");
}

#[test]
fn test_combined_formatting() {
    let parser = DeltaParser::new();
    let delta_json =
        r#"{"ops":[{"insert":"Bold and italic","attributes":{"bold":true,"italic":true}}]}"#;

    let result = parser.parse(delta_json).unwrap();
    assert_eq!(result, "_*Bold and italic*_");
}

#[test]
fn test_bullet_list() {
    let parser = DeltaParser::new();
    let delta_json = r#"{"ops":[{"insert":"Item 1"},{"attributes":{"list":"bullet"},"insert":"\n"},{"insert":"Item 2"},{"attributes":{"list":"bullet"},"insert":"\n"}]}"#;

    let result = parser.parse(delta_json).unwrap();
    assert!(result.contains("- Item 1"));
    assert!(result.contains("- Item 2"));
}

#[test]
fn test_ordered_list() {
    let parser = DeltaParser::new();
    let delta_json = r#"{"ops":[{"insert":"First item"},{"attributes":{"list":"ordered"},"insert":"\n"},{"insert":"Second item"},{"attributes":{"list":"ordered"},"insert":"\n"}]}"#;

    let result = parser.parse(delta_json).unwrap();
    assert!(result.contains("+ First item"));
    assert!(result.contains("+ Second item"));
}

#[test]
fn test_nested_list() {
    let parser = DeltaParser::new();
    let delta_json = r#"{"ops":[{"insert":"Top level"},{"attributes":{"list":"bullet"},"insert":"\n"},{"insert":"Nested item"},{"attributes":{"list":"bullet","indent":1},"insert":"\n"}]}"#;

    let result = parser.parse(delta_json).unwrap();
    assert!(result.contains("- Top level"));
    assert!(result.contains("  - Nested item"));
}

#[test]
fn test_delta_parsing() {
    let delta_json = r#"{"ops":[{"insert":"This is the body content of the memorandum.\n\nYou can format text with "},{"attributes":{"bold":true},"insert":"bold"},{"insert":", "},{"attributes":{"italic":true},"insert":"italic"},{"insert":", and "},{"attributes":{"underline":true},"insert":"underlined"},{"insert":" text.\n\nYou can also create:"},{"attributes":{"header":2},"insert":"\n"},{"insert":"Numbered lists"},{"attributes":{"list":"ordered"},"insert":"\n"},{"insert":"Bullet points"},{"attributes":{"list":"bullet"},"insert":"\n"},{"insert":"And much more!"},{"attributes":{"list":"bullet"},"insert":"\n"}]}"#;

    let parser = DeltaParser::new();
    let result = parser.parse(delta_json);

    assert!(result.is_ok(), "Delta parsing should succeed: {:?}", result.err());

    let typst_markup = result.unwrap();

    println!("=== DELTA PARSING TEST RESULTS ===");
    println!("Input Delta JSON:");
    println!("{}", delta_json);
    println!("\nParsed Typst Markup:");
    println!("{}", typst_markup);
    println!("=== END DELTA PARSING TEST ===");

    assert!(typst_markup.contains("*bold*"), "Should contain bold formatting");
    assert!(typst_markup.contains("_italic_"), "Should contain italic formatting");
    assert!(typst_markup.contains("#underline[underlined]"), "Should contain underline formatting");

    assert!(typst_markup.contains("+"), "Should contain ordered list marker");
    assert!(typst_markup.contains("-"), "Should contain bullet list marker");
    assert!(typst_markup.contains("Numbered lists"), "Should contain list text");
    assert!(typst_markup.contains("Bullet points"), "Should contain list text");
}

#[test]
fn test_delta_parse() {
    let delta_json = r#"{"ops":[{"insert":"This is the body content of the memorandum.\n\nYou can format text with "},{"attributes":{"bold":true},"insert":"bold"},{"insert":", "},{"attributes":{"italic":true},"insert":"italic"},{"insert":", and "},{"attributes":{"underline":true},"insert":"underlined"},{"insert":" text.\n\nasdf"},{"attributes":{"list":"ordered"},"insert":"\n"},{"insert":"\nYou can also create numbered lists:\n"}]}"#;

    println!("=== DELTA PARSER DIRECT TEST ===");
    println!("Input Delta JSON:");
    println!("{}", delta_json);

    let parser = DeltaParser::new();
    let parse_result = parser.parse(delta_json);

    assert!(parse_result.is_ok(), "Delta parsing should succeed: {:?}", parse_result.err());

    let typst_markup = parse_result.unwrap();
    println!("\nParsed Typst Markup:");
    println!("{}", typst_markup);

    assert!(typst_markup.contains("*bold*"), "Should contain bold formatting");
    assert!(typst_markup.contains("_italic_"), "Should contain italic formatting");
    assert!(typst_markup.contains("#underline[underlined]"), "Should contain underline formatting");

    assert!(typst_markup.contains("This is the body content"), "Should contain body text");
    assert!(typst_markup.contains("You can format text"), "Should contain formatting text");

    println!("=== END DELTA PARSER DIRECT TEST ===");
}

fn markup(delta_json: &str) -> String {
    DeltaParser::new().parse(delta_json).unwrap()
}

fn failure(delta_json: &str) -> ParserError {
    DeltaParser::new().parse(delta_json).unwrap_err()
}

#[test]
fn whole_document_gives_exact_markup() {
    let delta_json = r#"{"ops":[{"insert":"Title"},{"attributes":{"header":2},"insert":"\n"},{"insert":"Numbered lists"},{"attributes":{"list":"ordered"},"insert":"\n"},{"insert":"Bullet points"},{"attributes":{"list":"bullet"},"insert":"\n"},{"insert":"After"},{"insert":"\n"}]}"#;
    assert_eq!(markup(delta_json), "== Title\n+ Numbered lists\n- Bullet points\n\nAfter");
}

#[test]
fn nested_bullet_items_give_two_lines() {
    let delta_json = r#"{"ops":[{"insert":"Top level"},{"attributes":{"list":"bullet"},"insert":"\n"},{"insert":"Nested item"},{"attributes":{"list":"bullet","indent":1},"insert":"\n"}]}"#;
    assert_eq!(markup(delta_json), "- Top level\n  - Nested item");
}

#[test]
fn indent_gives_two_spaces_for_each_level() {
    let delta_json = r#"{"ops":[{"insert":"Deep"},{"attributes":{"list":"ordered","indent":3},"insert":"\n"},{"insert":"x"}]}"#;
    assert_eq!(markup(delta_json), "      + Deep\nx");
}

#[test]
fn all_inline_attributes_nest_in_their_fixed_order() {
    let delta_json = r#"{"ops":[{"insert":"t","attributes":{"code":true,"strike":true,"underline":true,"italic":true,"bold":true}}]}"#;
    assert_eq!(markup(delta_json), "`#strike[#underline[_*t*_]]`");
}

#[test]
fn inactive_attributes_add_nothing() {
    let delta_json = r#"{"ops":[{"insert":"plain","attributes":{"bold":false,"italic":null,"code":"yes","color":"red"}}]}"#;
    assert_eq!(markup(delta_json), "plain");
}

#[test]
fn code_wraps_in_backticks() {
    let delta_json = r#"{"ops":[{"insert":"x = 1","attributes":{"code":true}}]}"#;
    assert_eq!(markup(delta_json), "`x = 1`");
}

#[test]
fn header_level_repeats_the_marker() {
    let delta_json = r#"{"ops":[{"insert":"Heading"},{"attributes":{"header":3},"insert":"\n"},{"insert":"body"}]}"#;
    assert_eq!(markup(delta_json), "=== Heading\nbody");
}

#[test]
fn blockquote_prefixes_the_line() {
    let delta_json = r#"{"ops":[{"insert":"Quoted"},{"attributes":{"blockquote":true},"insert":"\n"},{"insert":"x"}]}"#;
    assert_eq!(markup(delta_json), "> Quoted\nx");
}

#[test]
fn code_block_fences_the_line() {
    let delta_json = r#"{"ops":[{"insert":"let x;"},{"attributes":{"code-block":true},"insert":"\n"},{"insert":"x"}]}"#;
    assert_eq!(markup(delta_json), "```\nlet x;\n```\nx");
}

#[test]
fn block_transforms_apply_header_then_quote_then_code() {
    let delta_json = r#"{"ops":[{"insert":"T"},{"attributes":{"header":1,"blockquote":true,"code-block":true},"insert":"\n"},{"insert":"x"}]}"#;
    assert_eq!(markup(delta_json), "```\n> = T\n```\nx");
}

#[test]
fn image_embed_gives_an_image_directive() {
    let delta_json = r#"{"ops":[{"insert":"See "},{"insert":{"image":"assets/dod_seal.gif"}}]}"#;
    assert_eq!(markup(delta_json), "See #image(\"assets/dod_seal.gif\")");
}

#[test]
fn plain_line_break_ends_a_paragraph() {
    let delta_json = r#"{"ops":[{"insert":"one"},{"insert":"\n"},{"insert":"two"},{"insert":"\n"}]}"#;
    assert_eq!(markup(delta_json), "one\ntwo");
}

#[test]
fn text_with_inner_line_breaks_is_kept_as_text() {
    let delta_json = r#"{"ops":[{"insert":"a\n\nb"}]}"#;
    assert_eq!(markup(delta_json), "a\n\nb");
}

#[test]
fn line_break_with_unknown_attributes_is_a_paragraph_break() {
    let delta_json = r#"{"ops":[{"insert":"one"},{"attributes":{"align":"center"},"insert":"\n"},{"insert":"two"}]}"#;
    assert_eq!(markup(delta_json), "one\ntwo");
}

#[test]
fn list_ends_with_a_blank_line_before_a_paragraph() {
    let delta_json = r#"{"ops":[{"insert":"item"},{"attributes":{"list":"bullet"},"insert":"\n"},{"insert":"text"},{"insert":"\n"},{"insert":"more"}]}"#;
    assert_eq!(markup(delta_json), "- item\n\ntext\nmore");
}

#[test]
fn pending_line_is_flushed_and_the_end_is_trimmed() {
    let delta_json = r#"{"ops":[{"insert":"kept"},{"insert":"\n"},{"insert":"tail  \t"}]}"#;
    assert_eq!(markup(delta_json), "kept\ntail");
}

#[test]
fn empty_document_gives_empty_markup() {
    assert_eq!(markup(r#"{"ops":[]}"#), "");
}

#[test]
fn operations_without_a_known_key_are_passed_over() {
    assert_eq!(markup(r#"{"ops":[{"insert":"a"},{"comment":"x"},7,{"insert":"b"}]}"#), "ab");
}

#[test]
fn retain_is_an_unsupported_operation() {
    let error = failure(r#"{"ops":[{"insert":"kept"},{"retain":5}]}"#);
    assert_eq!(
        error,
        ParserError::UnsupportedOperation(
            "Retain operations are not supported in document parsing".to_string()
        )
    );
}

#[test]
fn delete_is_an_unsupported_operation() {
    let error = failure(r#"{"ops":[{"delete":2},{"insert":"after"}]}"#);
    assert_eq!(
        error,
        ParserError::UnsupportedOperation(
            "Delete operations are not supported in document parsing".to_string()
        )
    );
}

#[test]
fn retain_beside_an_insert_is_still_refused() {
    let error = failure(r#"{"ops":[{"insert":"text","retain":1}]}"#);
    assert!(matches!(error, ParserError::UnsupportedOperation(_)));
}

#[test]
fn unknown_embed_is_an_unsupported_operation() {
    let error = failure(r#"{"ops":[{"insert":{"video":"clip.mp4"}}]}"#);
    assert_eq!(
        error,
        ParserError::UnsupportedOperation(
            "Unsupported embed type: {\"video\": String(\"clip.mp4\")}".to_string()
        )
    );
}

#[test]
fn unknown_list_kind_is_an_unsupported_operation() {
    let error = failure(r#"{"ops":[{"insert":"item"},{"attributes":{"list":"checked"},"insert":"\n"}]}"#);
    assert_eq!(
        error,
        ParserError::UnsupportedOperation("Unsupported list type: checked".to_string())
    );
}

#[test]
fn insert_of_a_number_is_an_invalid_format() {
    let error = failure(r#"{"ops":[{"insert":5}]}"#);
    assert_eq!(error, ParserError::InvalidFormat("Unsupported insert type: Number(5)".to_string()));
}

#[test]
fn insert_of_other_kinds_shows_the_value() {
    assert_eq!(
        failure(r#"{"ops":[{"insert":true}]}"#),
        ParserError::InvalidFormat("Unsupported insert type: Bool(true)".to_string())
    );
    assert_eq!(
        failure(r#"{"ops":[{"insert":null}]}"#),
        ParserError::InvalidFormat("Unsupported insert type: Null".to_string())
    );
    assert_eq!(
        failure(r#"{"ops":[{"insert":[1.5,"x"]}]}"#),
        ParserError::InvalidFormat(
            "Unsupported insert type: Array [Number(1.5), String(\"x\")]".to_string()
        )
    );
}

#[test]
fn missing_ops_is_an_invalid_format() {
    assert_eq!(failure(r#"{"text":"x"}"#), ParserError::InvalidFormat("Missing ops array".to_string()));
    assert_eq!(failure(r#"{"ops":"x"}"#), ParserError::InvalidFormat("Missing ops array".to_string()));
    assert_eq!(failure(r#"[1,2]"#), ParserError::InvalidFormat("Missing ops array".to_string()));
}

#[test]
fn malformed_json_is_a_json_error() {
    let error = failure(r#"{"ops":["#);
    assert!(matches!(error, ParserError::JsonError(_)));
    assert!(error.message().starts_with("JSON parsing error: "));
}

#[test]
fn first_refused_operation_decides_the_error() {
    let error = failure(r#"{"ops":[{"insert":5},{"retain":1}]}"#);
    assert!(matches!(error, ParserError::InvalidFormat(_)));
    let error = failure(r#"{"ops":[{"retain":1},{"insert":5}]}"#);
    assert!(matches!(error, ParserError::UnsupportedOperation(_)));
}

#[test]
fn error_messages_name_their_kind() {
    assert_eq!(
        ParserError::InvalidFormat("x".to_string()).message(),
        "Invalid Quill Delta format: x"
    );
    assert_eq!(
        ParserError::UnsupportedOperation("y".to_string()).message(),
        "Unsupported operation: y"
    );
    assert_eq!(ParserError::JsonError("z".to_string()).message(), "JSON parsing error: z");
}

#[test]
fn document_value_is_transpiled_like_its_text() {
    let text = r#"{"ops":[{"insert":"Hello "},{"insert":"world","attributes":{"bold":true}}]}"#;
    let document = parse(text).unwrap();
    let parser = DeltaParser::new();
    assert_eq!(parser.convert_json_to_typst(&document).unwrap(), "Hello *world*");
    assert_eq!(parser.parse(text).unwrap(), "Hello *world*");
}

#[test]
fn parser_keeps_no_state_between_calls() {
    let parser = DeltaParser::new();
    let list = r#"{"ops":[{"insert":"item"},{"attributes":{"list":"bullet"},"insert":"\n"}]}"#;
    let plain = r#"{"ops":[{"insert":"text"},{"insert":"\n"},{"insert":"more"}]}"#;
    assert_eq!(parser.parse(list).unwrap(), "- item");
    assert_eq!(parser.parse(plain).unwrap(), "text\nmore");
    assert_eq!(parser.parse(list).unwrap(), "- item");
}
