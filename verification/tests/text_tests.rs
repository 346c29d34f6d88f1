use render_engine::json::{get_member, parse, set_member, to_pretty_text, to_text, Json, Member};
use render_engine::text::{last_path_segment, replace_all, str_ends_with, trim_end};

#[test]
fn trim_end_removes_trailing_white_space_only() {
    assert_eq!(trim_end("  a b \n\t "), "  a b");
    assert_eq!(trim_end("x\u{a0}\u{2003}\u{3000}"), "x");
    assert_eq!(trim_end("x\u{200b}"), "x\u{200b}");
    assert_eq!(trim_end(" \n"), "");
    assert_eq!(trim_end(""), "");
    assert_eq!(trim_end("caf\u{e9}"), "caf\u{e9}");
}

#[test]
fn trim_end_agrees_with_the_standard_library() {
    for code in 0u32..0x3100 {
        if let Some(c) = char::from_u32(code) {
            let text = format!("a{}", c);
            assert_eq!(trim_end(&text), text.trim_end());
        }
    }
}

#[test]
fn ends_with_compares_the_tail() {
    assert!(str_ends_with("memo-loader/assets/x.gif", "assets/x.gif"));
    assert!(str_ends_with("abc", ""));
    assert!(str_ends_with("abc", "abc"));
    assert!(!str_ends_with("abc", "xabc"));
    assert!(!str_ends_with("abc", "ab"));
}

#[test]
fn last_segment_follows_the_last_slash() {
    assert_eq!(last_path_segment("a/b/c.gif"), "c.gif");
    assert_eq!(last_path_segment("c.gif"), "c.gif");
    assert_eq!(last_path_segment("a/b/"), "");
    assert_eq!(last_path_segment(""), "");
}

#[test]
fn replace_all_replaces_each_occurrence() {
    assert_eq!(replace_all("a-b-c", "-", "+"), "a+b+c");
    assert_eq!(replace_all("aaa", "aa", "b"), "ba");
    assert_eq!(replace_all("abc", "", "x"), "abc");
    assert_eq!(replace_all("abc", "abcd", "x"), "abc");
    assert_eq!(replace_all("xxabxx", "ab", ""), "xxxx");
    assert_eq!(replace_all("\u{e9}t\u{e9}", "t", "--"), "\u{e9}--\u{e9}");
}

#[test]
fn parse_reads_each_kind_of_value() {
    assert!(matches!(parse("null").unwrap(), Json::Null));
    assert!(matches!(parse("true").unwrap(), Json::Bool(true)));
    assert!(matches!(parse("\"a\\nb\"").unwrap(), Json::String(s) if s == "a\nb"));
    match parse("[1, \"x\"]").unwrap() {
        Json::Array(items) => {
            assert_eq!(items.len(), 2);
            assert_eq!(items[0].as_u64(), Some(1));
            assert_eq!(items[1].as_str(), Some("x"));
        }
        other => panic!("unexpected value: {:?}", other),
    }
    match parse("{\"b\": false, \"a\": {\"c\": null}}").unwrap() {
        Json::Object(members) => {
            assert_eq!(members.len(), 2);
            assert_eq!(get_member(&members, "b").unwrap().as_bool(), Some(false));
            assert!(get_member(&members, "a").unwrap().get("c").unwrap().is_null());
            assert!(get_member(&members, "c").is_none());
        }
        other => panic!("unexpected value: {:?}", other),
    }
}

#[test]
fn numbers_keep_their_text_and_their_unsigned_value() {
    match parse("[18446744073709551615, -1, 2.50, 1e2]").unwrap() {
        Json::Array(items) => {
            let seen: Vec<(Option<u64>, String)> = items
                .iter()
                .map(|item| match item {
                    Json::Number(n) => (n.as_u64(), n.text().to_string()),
                    other => panic!("unexpected value: {:?}", other),
                })
                .collect();
            assert_eq!(
                seen,
                vec![
                    (Some(u64::MAX), "18446744073709551615".to_string()),
                    (None, "-1".to_string()),
                    (None, "2.5".to_string()),
                    (None, "100.0".to_string()),
                ]
            );
        }
        other => panic!("unexpected value: {:?}", other),
    }
}

#[test]
fn parse_refuses_what_is_no_json() {
    let failure = parse("{\"a\": }").unwrap_err();
    assert!(!failure.message.is_empty());
    assert_eq!(failure.message, failure.source.to_string());
    assert!(parse("").is_err());
    assert!(parse("1 2").is_err());
}

#[test]
fn values_are_written_as_serde_json_writes_them() {
    let text = r#"{"a":[1,-2,3.5,"x\"y",null,true],"b":{}}"#;
    let value = parse(text).unwrap();
    assert_eq!(to_text(&value).unwrap(), text);
    assert_eq!(
        to_pretty_text(&parse(r#"{"a":[1],"b":{}}"#).unwrap()).unwrap(),
        "{\n  \"a\": [\n    1\n  ],\n  \"b\": {}\n}"
    );
    let copy = value.duplicate();
    assert_eq!(to_text(&copy).unwrap(), text);
}

#[test]
fn set_member_replaces_or_appends() {
    let mut members = vec![
        Member { name: "a".to_string(), value: Json::Null },
        Member { name: "b".to_string(), value: Json::Null },
    ];
    set_member(&mut members, "a".to_string(), Json::Bool(true));
    set_member(&mut members, "c".to_string(), Json::Bool(false));
    let names: Vec<&str> = members.iter().map(|m| m.name.as_str()).collect();
    assert_eq!(names, vec!["a", "b", "c"]);
    assert_eq!(members[0].value.as_bool(), Some(true));
    assert_eq!(members[2].value.as_bool(), Some(false));
}

#[test]
fn first_member_of_a_name_is_the_one_that_is_read() {
    let members = vec![
        Member { name: "k".to_string(), value: Json::Bool(true) },
        Member { name: "k".to_string(), value: Json::Bool(false) },
    ];
    assert_eq!(get_member(&members, "k").unwrap().as_bool(), Some(true));
}
