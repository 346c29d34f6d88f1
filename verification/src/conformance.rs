//! What it means for a memo to conform to a schema, and the proof that the
//! validator accepts exactly the memos that do.

use vstd::prelude::*;
use crate::form_validation::{
    array_items_errors, body_formats, official_body_schema, official_schema, string_list_rules, kind_of, memo_errors, missing_error, missing_errors, present_errors,
    properties_errors, property_errors, rule_errors, unexpected_errors, BodySchemaView,
    MemoSchemaView, PropertyRulesView, RuleView, ValueType,
};
use crate::json::{has_key, lookup, JsonView};
use crate::text::byte_len;

verus! {

/// Whether each of the items is of the expected kind.
pub open spec fn items_are(items: Seq<JsonView>, expected: ValueType) -> bool {
    forall|i: int| 0 <= i < items.len() ==> kind_of(#[trigger] items[i]) == expected
}

/// Whether a value meets a rule.
pub open spec fn rule_holds(rule: RuleView, value: JsonView) -> bool {
    match rule {
        RuleView::Type { expected } => kind_of(value) == expected,
        RuleView::ArrayItems { expected } => match value {
            JsonView::Array(items) => items_are(items, expected),
            _ => true,
        },
        RuleView::StringLength { min } => match value {
            JsonView::String(s) => byte_len(s) >= min,
            _ => true,
        },
        RuleView::ArrayLength { min } => match value {
            JsonView::Array(items) => items.len() >= min,
            _ => true,
        },
        RuleView::NullableArray => value is Null || value is Array,
        RuleView::Enum { allowed } => match value {
            JsonView::String(s) => allowed.contains(s),
            _ => true,
        },
    }
}

/// Whether a value meets each of the rules.
pub open spec fn rules_hold(rules: Seq<RuleView>, value: JsonView) -> bool {
    forall|k: int| 0 <= k < rules.len() ==> rule_holds(#[trigger] rules[k], value)
}

/// Whether a property is absent or its value meets its rules.
pub open spec fn property_holds(
    property: PropertyRulesView,
    members: Seq<(Seq<char>, JsonView)>,
) -> bool {
    match lookup(members, property.name) {
        Some(value) => rules_hold(property.rules, value),
        None => true,
    }
}

/// Whether each property that is there meets its rules.
pub open spec fn properties_hold(
    properties: Seq<PropertyRulesView>,
    members: Seq<(Seq<char>, JsonView)>,
) -> bool {
    forall|p: int| 0 <= p < properties.len() ==> property_holds(#[trigger] properties[p], members)
}

/// Whether the name of each member is allowed.
pub open spec fn only_allowed(members: Seq<(Seq<char>, JsonView)>, allowed: Seq<Seq<char>>) -> bool {
    forall|i: int| 0 <= i < members.len() ==> allowed.contains((#[trigger] members[i]).0)
}

/// Whether each required property is there.
pub open spec fn has_required(required: Seq<Seq<char>>, members: Seq<(Seq<char>, JsonView)>) -> bool {
    forall|i: int| 0 <= i < required.len() ==> has_key(members, #[trigger] required[i])
}

/// Whether `references`, where it is an array, holds only strings.
pub open spec fn references_hold(members: Seq<(Seq<char>, JsonView)>) -> bool {
    match lookup(members, "references"@) {
        Some(JsonView::Array(items)) => items_are(items, ValueType::String),
        _ => true,
    }
}

/// Whether a `body` object conforms to its schema.
pub open spec fn body_conforms(schema: BodySchemaView, body: Seq<(Seq<char>, JsonView)>) -> bool {
    only_allowed(body, schema.allowed_properties) && properties_hold(schema.properties, body)
}

/// Whether `body`, where it is an object, conforms to its schema.
pub open spec fn nested_body_conforms(
    schema: BodySchemaView,
    members: Seq<(Seq<char>, JsonView)>,
) -> bool {
    match lookup(members, "body"@) {
        Some(JsonView::Object(body)) => body_conforms(schema, body),
        _ => true,
    }
}

/// Whether a memo conforms to a schema: it has no member that the schema
/// does not allow, it has each required property, each property that it has
/// meets its rules, `references` holds only strings where it is an array,
/// and `body` conforms to the body schema where it is an object.
pub open spec fn conforms(schema: MemoSchemaView, members: Seq<(Seq<char>, JsonView)>) -> bool {
    &&& only_allowed(members, schema.allowed_properties)
    &&& has_required(schema.required_properties, members)
    &&& properties_hold(schema.properties, members)
    &&& references_hold(members)
    &&& nested_body_conforms(schema.body_schema, members)
}

/// An array has no item errors exactly where each item is of the expected
/// kind.
pub proof fn lemma_items(items: Seq<JsonView>, expected: ValueType, path: Seq<char>)
    ensures
        array_items_errors(items, expected, path).len() == 0 <==> items_are(items, expected),
    decreases items.len(),
{
    if items.len() > 0 {
        let front = items.drop_last();
        lemma_items(front, expected, path);
        if items_are(items, expected) {
            assert forall|i: int| 0 <= i < front.len() implies kind_of(#[trigger] front[i])
                == expected by {
                assert(front[i] == items[i]);
            }
            assert(kind_of(items[items.len() - 1]) == expected);
        }
        if items_are(front, expected) && kind_of(items.last()) == expected {
            assert forall|i: int| 0 <= i < items.len() implies kind_of(#[trigger] items[i])
                == expected by {
                if i < front.len() {
                    assert(items[i] == front[i]);
                }
            }
        }
    }
}

/// A value has no errors under a rule exactly where it meets the rule.
pub proof fn lemma_rule(rule: RuleView, value: JsonView, path: Seq<char>)
    ensures
        rule_errors(rule, value, path).len() == 0 <==> rule_holds(rule, value),
{
    match rule {
        RuleView::ArrayItems { expected } => {
            if let JsonView::Array(items) = value {
                lemma_items(items, expected, path);
            }
        },
        _ => {},
    }
}

/// A value has no errors under a list of rules exactly where it meets
/// each of them.
pub proof fn lemma_rules(rules: Seq<RuleView>, value: JsonView, path: Seq<char>)
    ensures
        property_errors(rules, value, path).len() == 0 <==> rules_hold(rules, value),
    decreases rules.len(),
{
    if rules.len() > 0 {
        let front = rules.drop_last();
        lemma_rules(front, value, path);
        lemma_rule(rules.last(), value, path);
        if rules_hold(rules, value) {
            assert forall|k: int| 0 <= k < front.len() implies rule_holds(
                #[trigger] front[k],
                value,
            ) by {
                assert(front[k] == rules[k]);
            }
            assert(rule_holds(rules[rules.len() - 1], value));
        }
        if rules_hold(front, value) && rule_holds(rules.last(), value) {
            assert forall|k: int| 0 <= k < rules.len() implies rule_holds(
                #[trigger] rules[k],
                value,
            ) by {
                if k < front.len() {
                    assert(rules[k] == front[k]);
                }
            }
        }
    }
}

/// A property has no errors exactly where it is absent or its value meets
/// its rules.
pub proof fn lemma_property(
    property: PropertyRulesView,
    members: Seq<(Seq<char>, JsonView)>,
    prefix: Seq<char>,
)
    ensures
        present_errors(property, members, prefix).len() == 0 <==> property_holds(property, members),
{
    if let Some(value) = lookup(members, property.name) {
        lemma_rules(property.rules, value, prefix + property.name);
    }
}

/// The properties have no errors exactly where each that is there meets
/// its rules.
pub proof fn lemma_properties(
    properties: Seq<PropertyRulesView>,
    members: Seq<(Seq<char>, JsonView)>,
    prefix: Seq<char>,
)
    ensures
        properties_errors(properties, members, prefix).len() == 0 <==> properties_hold(
            properties,
            members,
        ),
    decreases properties.len(),
{
    if properties.len() > 0 {
        let front = properties.drop_last();
        lemma_properties(front, members, prefix);
        lemma_property(properties.last(), members, prefix);
        if properties_hold(properties, members) {
            assert forall|p: int| 0 <= p < front.len() implies property_holds(
                #[trigger] front[p],
                members,
            ) by {
                assert(front[p] == properties[p]);
            }
            assert(property_holds(properties[properties.len() - 1], members));
        }
        if properties_hold(front, members) && property_holds(properties.last(), members) {
            assert forall|p: int| 0 <= p < properties.len() implies property_holds(
                #[trigger] properties[p],
                members,
            ) by {
                if p < front.len() {
                    assert(properties[p] == front[p]);
                }
            }
        }
    }
}

/// There are no unexpected members exactly where each name is allowed.
pub proof fn lemma_unexpected(
    members: Seq<(Seq<char>, JsonView)>,
    allowed: Seq<Seq<char>>,
    in_body: bool,
)
    ensures
        unexpected_errors(members, allowed, in_body).len() == 0 <==> only_allowed(members, allowed),
    decreases members.len(),
{
    if members.len() > 0 {
        let front = members.drop_last();
        lemma_unexpected(front, allowed, in_body);
        if only_allowed(members, allowed) {
            assert forall|i: int| 0 <= i < front.len() implies allowed.contains(
                (#[trigger] front[i]).0,
            ) by {
                assert(front[i] == members[i]);
            }
            assert(allowed.contains(members[members.len() - 1].0));
        }
        if only_allowed(front, allowed) && allowed.contains(members.last().0) {
            assert forall|i: int| 0 <= i < members.len() implies allowed.contains(
                (#[trigger] members[i]).0,
            ) by {
                if i < front.len() {
                    assert(members[i] == front[i]);
                }
            }
        }
    }
}

/// Nothing is missing exactly where each required property is there.
pub proof fn lemma_missing(required: Seq<Seq<char>>, members: Seq<(Seq<char>, JsonView)>)
    ensures
        missing_errors(required, members).len() == 0 <==> has_required(required, members),
    decreases required.len(),
{
    if required.len() > 0 {
        let front = required.drop_last();
        lemma_missing(front, members);
        if has_required(required, members) {
            assert forall|i: int| 0 <= i < front.len() implies has_key(
                members,
                #[trigger] front[i],
            ) by {
                assert(front[i] == required[i]);
            }
            assert(has_key(members, required[required.len() - 1]));
        }
        if has_required(front, members) && has_key(members, required.last()) {
            assert forall|i: int| 0 <= i < required.len() implies has_key(
                members,
                #[trigger] required[i],
            ) by {
                if i < front.len() {
                    assert(required[i] == front[i]);
                }
            }
        }
    }
}

/// A memo has no errors under a schema if and only if it conforms to it.
pub proof fn lemma_no_errors_iff_conforms(
    schema: MemoSchemaView,
    members: Seq<(Seq<char>, JsonView)>,
)
    ensures
        memo_errors(schema, members).len() == 0 <==> conforms(schema, members),
{
    lemma_unexpected(members, schema.allowed_properties, false);
    lemma_missing(schema.required_properties, members);
    lemma_properties(schema.properties, members, ""@);
    if let Some(JsonView::Array(items)) = lookup(members, "references"@) {
        lemma_items(items, ValueType::String, "references"@);
    }
    if let Some(JsonView::Object(body)) = lookup(members, "body"@) {
        lemma_unexpected(body, schema.body_schema.allowed_properties, true);
        lemma_properties(schema.body_schema.properties, body, "body."@);
    }
}

/// Each required property that is not there has its error among those of
/// the required properties.
pub proof fn lemma_missing_has_error(
    required: Seq<Seq<char>>,
    members: Seq<(Seq<char>, JsonView)>,
    i: int,
)
    requires
        0 <= i < required.len(),
        !has_key(members, required[i]),
    ensures
        missing_errors(required, members).contains(missing_error(required[i])),
    decreases required.len(),
{
    let front = required.drop_last();
    let errors = missing_errors(required, members);
    if i == required.len() - 1 {
        assert(errors[errors.len() - 1] == missing_error(required[i]));
    } else {
        assert(front[i] == required[i]);
        lemma_missing_has_error(front, members, i);
        let before = missing_errors(front, members);
        let j = choose|j: int| 0 <= j < before.len() && before[j] == missing_error(required[i]);
        assert(errors[j] == before[j]);
    }
}

/// A memo that lacks a required property has, among its errors, one at
/// that property whose message names it.
pub proof fn lemma_missing_is_reported(
    schema: MemoSchemaView,
    members: Seq<(Seq<char>, JsonView)>,
    i: int,
)
    requires
        0 <= i < schema.required_properties.len(),
        !has_key(members, schema.required_properties[i]),
    ensures
        memo_errors(schema, members).contains(missing_error(schema.required_properties[i])),
{
    let unexpected = unexpected_errors(members, schema.allowed_properties, false);
    let missing = missing_errors(schema.required_properties, members);
    lemma_missing_has_error(schema.required_properties, members, i);
    let j = choose|j: int|
        0 <= j < missing.len() && missing[j] == missing_error(schema.required_properties[i]);
    assert(memo_errors(schema, members)[unexpected.len() + j] == missing[j]);
}

/// Whether a value is a list of at least `min` strings.
pub open spec fn is_string_list(value: JsonView, min: nat) -> bool {
    match value {
        JsonView::Array(items) => items.len() >= min && items_are(items, ValueType::String),
        _ => false,
    }
}

/// Whether the member `key` is a list of at least `min` strings.
pub open spec fn has_string_list(
    members: Seq<(Seq<char>, JsonView)>,
    key: Seq<char>,
    min: nat,
) -> bool {
    match lookup(members, key) {
        Some(value) => is_string_list(value, min),
        None => false,
    }
}

/// Whether the members are those of the body of an official memorandum:
/// none but `format` and `data`; `format`, where it is there, one of the
/// known formats; `data`, where it is there, a string.
pub open spec fn is_official_body(body: Seq<(Seq<char>, JsonView)>) -> bool {
    &&& only_allowed(body, official_body_schema().allowed_properties)
    &&& match lookup(body, "format"@) {
        Some(JsonView::String(name)) => body_formats().contains(name),
        Some(_) => false,
        None => true,
    }
    &&& match lookup(body, "data"@) {
        Some(JsonView::String(_)) => true,
        Some(_) => false,
        None => true,
    }
}

/// Whether the members are those of an official memorandum: none but the
/// six known properties; `memo-for` and `from-block` lists of at least one
/// string, `signature-block` one of at least two; a `subject` that is a
/// string and not empty; `references`, where they are there, null or a list
/// of strings; and a `body` that is an object as described above.
pub open spec fn is_official_memo(members: Seq<(Seq<char>, JsonView)>) -> bool {
    &&& only_allowed(members, official_schema().allowed_properties)
    &&& has_string_list(members, "memo-for"@, 1)
    &&& has_string_list(members, "from-block"@, 1)
    &&& has_string_list(members, "signature-block"@, 2)
    &&& match lookup(members, "subject"@) {
        Some(JsonView::String(subject)) => byte_len(subject) >= 1,
        _ => false,
    }
    &&& match lookup(members, "references"@) {
        Some(JsonView::Null) => true,
        Some(JsonView::Array(items)) => items_are(items, ValueType::String),
        Some(_) => false,
        None => true,
    }
    &&& match lookup(members, "body"@) {
        Some(JsonView::Object(body)) => is_official_body(body),
        _ => false,
    }
}

/// A value meets the rules of a list of strings exactly where it is one.
pub proof fn lemma_string_list_rules(value: JsonView, min: nat)
    ensures
        rules_hold(string_list_rules(min), value) <==> is_string_list(value, min),
{
    let rules = string_list_rules(min);
    if rules_hold(rules, value) {
        assert(rule_holds(rules[0], value));
        assert(rule_holds(rules[1], value));
        assert(rule_holds(rules[2], value));
    }
}

/// A body conforms to the schema of the official memorandum exactly where
/// it is the body of an official memorandum.
pub proof fn lemma_official_body(body: Seq<(Seq<char>, JsonView)>)
    ensures
        body_conforms(official_body_schema(), body) <==> is_official_body(body),
{
    let properties = official_body_schema().properties;
    let format_rules = properties[0].rules;
    let data_rules = properties[1].rules;
    if body_conforms(official_body_schema(), body) {
        assert(property_holds(properties[0], body));
        assert(property_holds(properties[1], body));
        if let Some(value) = lookup(body, "format"@) {
            assert(rule_holds(format_rules[0], value));
            assert(rule_holds(format_rules[1], value));
        }
        if let Some(value) = lookup(body, "data"@) {
            assert(rule_holds(data_rules[0], value));
        }
    }
    if is_official_body(body) {
        assert forall|p: int| 0 <= p < properties.len() implies property_holds(
            #[trigger] properties[p],
            body,
        ) by {
            if p == 0 {
                if let Some(value) = lookup(body, "format"@) {
                    assert forall|k: int| 0 <= k < format_rules.len() implies rule_holds(
                        #[trigger] format_rules[k],
                        value,
                    ) by {}
                }
            } else {
                if let Some(value) = lookup(body, "data"@) {
                    assert forall|k: int| 0 <= k < data_rules.len() implies rule_holds(
                        #[trigger] data_rules[k],
                        value,
                    ) by {}
                }
            }
        }
    }
}

/// A memo conforms to the schema of the official memorandum exactly where
/// it is an official memorandum.
pub proof fn lemma_official_memo(members: Seq<(Seq<char>, JsonView)>)
    ensures
        conforms(official_schema(), members) <==> is_official_memo(members),
{
    let schema = official_schema();
    let properties = schema.properties;
    let required = schema.required_properties;
    let subject_rules = properties[2].rules;
    let references_rules = properties[3].rules;
    let body_rules = properties[5].rules;
    if let Some(value) = lookup(members, "memo-for"@) {
        lemma_string_list_rules(value, 1);
    }
    if let Some(value) = lookup(members, "from-block"@) {
        lemma_string_list_rules(value, 1);
    }
    if let Some(value) = lookup(members, "signature-block"@) {
        lemma_string_list_rules(value, 2);
    }
    if let Some(JsonView::Object(body)) = lookup(members, "body"@) {
        lemma_official_body(body);
    }
    if conforms(schema, members) {
        assert(has_key(members, required[0]));
        assert(has_key(members, required[1]));
        assert(has_key(members, required[2]));
        assert(has_key(members, required[3]));
        assert(has_key(members, required[4]));
        assert(property_holds(properties[0], members));
        assert(property_holds(properties[1], members));
        assert(property_holds(properties[2], members));
        assert(property_holds(properties[3], members));
        assert(property_holds(properties[4], members));
        assert(property_holds(properties[5], members));
        let subject = lookup(members, "subject"@)->Some_0;
        assert(rule_holds(subject_rules[0], subject));
        assert(rule_holds(subject_rules[1], subject));
        let body = lookup(members, "body"@)->Some_0;
        assert(rule_holds(body_rules[0], body));
        if let Some(value) = lookup(members, "references"@) {
            assert(rule_holds(references_rules[0], value));
        }
    }
    if is_official_memo(members) {
        assert forall|i: int| 0 <= i < required.len() implies has_key(
            members,
            #[trigger] required[i],
        ) by {}
        assert forall|p: int| 0 <= p < properties.len() implies property_holds(
            #[trigger] properties[p],
            members,
        ) by {
            if p == 2 {
                let subject = lookup(members, "subject"@)->Some_0;
                assert forall|k: int| 0 <= k < subject_rules.len() implies rule_holds(
                    #[trigger] subject_rules[k],
                    subject,
                ) by {}
            } else if p == 3 {
                if let Some(value) = lookup(members, "references"@) {
                    assert forall|k: int| 0 <= k < references_rules.len() implies rule_holds(
                        #[trigger] references_rules[k],
                        value,
                    ) by {}
                }
            } else if p == 5 {
                let body = lookup(members, "body"@)->Some_0;
                assert forall|k: int| 0 <= k < body_rules.len() implies rule_holds(
                    #[trigger] body_rules[k],
                    body,
                ) by {}
            }
        }
    }
}

} // verus!
