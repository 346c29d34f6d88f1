//! Validation of a memo against a schema, and its defaults.
//!
//! [`memo_errors`] says which errors a memo has under a schema, in which
//! order; [`MemoValidator::validate_memo`] reports exactly those. A memo is
//! accepted if and only if it [`conforms`].

use vstd::prelude::*;
use vstd::string::*;
use crate::json::{
    find_member, get_member, has_key, items_view, lemma_array_view, lemma_object_view,
    lemma_position, lemma_position_push, lemma_position_same_names, lookup, members_view,
    parse_text, parsed_json, position, pretty_text, write_pretty, Json, JsonView, Member,
};
use crate::conformance::{conforms, lemma_missing_is_reported, lemma_no_errors_iff_conforms};
use crate::text::{
    byte_len, contains_text, decimal, joined, lemma_views_concat, lemma_views_push, push_decimal,
    push_joined, texts, views,
};

verus! {

/// One way in which a memo breaks the schema.
#[derive(Debug, Clone, PartialEq)]
pub struct ValidationError {
    pub field_path: String,
    pub message: String,
}

/// The mathematical value of a [`ValidationError`].
pub struct ValidationErrorView {
    pub field_path: Seq<char>,
    pub message: Seq<char>,
}

impl View for ValidationError {
    type V = ValidationErrorView;

    open spec fn view(&self) -> ValidationErrorView {
        ValidationErrorView { field_path: self.field_path@, message: self.message@ }
    }
}

impl ValidationError {
    /// An error at `field_path` that says `message`.
    pub fn new(field_path: &str, message: &str) -> (r: Self)
        ensures
            r@ == error(field_path@, message@),
    {
        ValidationError {
            field_path: String::from_str(field_path),
            message: String::from_str(message),
        }
    }
}

/// The outcome of a validation: nothing, or the errors that were found.
pub type ValidationResult = Result<(), Vec<ValidationError>>;

/// The kinds of JSON values.
#[derive(Debug, Clone, Copy, PartialEq, Eq, Structural)]
pub enum ValueType {
    String,
    Array,
    Object,
    Number,
    Boolean,
    Null,
}

/// A rule that a property's value has to meet.
#[derive(Debug, Clone)]
pub enum ValidationRule {
    /// The value is of this kind.
    Type { expected: ValueType },
    /// Where the value is an array, each item is of this kind.
    ArrayItems { expected: ValueType },
    /// Where the value is a string, it takes at least `min` bytes.
    StringLength { min: usize },
    /// Where the value is an array, it has at least `min` items.
    ArrayLength { min: usize },
    /// The value is an array or null.
    NullableArray,
    /// Where the value is a string, it is one of these.
    Enum { allowed: Vec<String> },
}

/// The mathematical value of a [`ValidationRule`].
pub enum RuleView {
    Type { expected: ValueType },
    ArrayItems { expected: ValueType },
    StringLength { min: nat },
    ArrayLength { min: nat },
    NullableArray,
    Enum { allowed: Seq<Seq<char>> },
}

impl View for ValidationRule {
    type V = RuleView;

    open spec fn view(&self) -> RuleView {
        match self {
            ValidationRule::Type { expected } => RuleView::Type { expected: *expected },
            ValidationRule::ArrayItems { expected } => RuleView::ArrayItems { expected: *expected },
            ValidationRule::StringLength { min } => RuleView::StringLength { min: *min as nat },
            ValidationRule::ArrayLength { min } => RuleView::ArrayLength { min: *min as nat },
            ValidationRule::NullableArray => RuleView::NullableArray,
            ValidationRule::Enum { allowed } => RuleView::Enum { allowed: texts(allowed@) },
        }
    }
}

/// The rules of one property, in the order in which they are applied.
#[derive(Debug, Clone)]
pub struct PropertyRules {
    pub name: String,
    pub rules: Vec<ValidationRule>,
}

/// The mathematical value of a [`PropertyRules`].
pub struct PropertyRulesView {
    pub name: Seq<char>,
    pub rules: Seq<RuleView>,
}

impl View for PropertyRules {
    type V = PropertyRulesView;

    open spec fn view(&self) -> PropertyRulesView {
        PropertyRulesView { name: self.name@, rules: views(self.rules@) }
    }
}

/// The schema of the `body` object of a memo.
#[derive(Debug, Clone)]
pub struct BodySchema {
    pub allowed_properties: Vec<String>,
    pub properties: Vec<PropertyRules>,
}

/// The mathematical value of a [`BodySchema`].
pub struct BodySchemaView {
    pub allowed_properties: Seq<Seq<char>>,
    pub properties: Seq<PropertyRulesView>,
}

impl View for BodySchema {
    type V = BodySchemaView;

    open spec fn view(&self) -> BodySchemaView {
        BodySchemaView {
            allowed_properties: texts(self.allowed_properties@),
            properties: views(self.properties@),
        }
    }
}

/// The schema of a memo. The properties are checked in the order in which
/// they stand here.
#[derive(Debug, Clone)]
pub struct MemoSchema {
    pub allowed_properties: Vec<String>,
    pub required_properties: Vec<String>,
    pub properties: Vec<PropertyRules>,
    pub body_schema: BodySchema,
}

/// The mathematical value of a [`MemoSchema`].
pub struct MemoSchemaView {
    pub allowed_properties: Seq<Seq<char>>,
    pub required_properties: Seq<Seq<char>>,
    pub properties: Seq<PropertyRulesView>,
    pub body_schema: BodySchemaView,
}

impl View for MemoSchema {
    type V = MemoSchemaView;

    open spec fn view(&self) -> MemoSchemaView {
        MemoSchemaView {
            allowed_properties: texts(self.allowed_properties@),
            required_properties: texts(self.required_properties@),
            properties: views(self.properties@),
            body_schema: self.body_schema@,
        }
    }
}

/// The kind of a value.
pub open spec fn kind_of(value: JsonView) -> ValueType {
    match value {
        JsonView::String(_) => ValueType::String,
        JsonView::Array(_) => ValueType::Array,
        JsonView::Object(_) => ValueType::Object,
        JsonView::Number(_) => ValueType::Number,
        JsonView::Bool(_) => ValueType::Boolean,
        JsonView::Null => ValueType::Null,
    }
}

/// The name of a kind, as the messages have it.
pub open spec fn kind_name(kind: ValueType) -> Seq<char> {
    match kind {
        ValueType::String => "String"@,
        ValueType::Array => "Array"@,
        ValueType::Object => "Object"@,
        ValueType::Number => "Number"@,
        ValueType::Boolean => "Boolean"@,
        ValueType::Null => "Null"@,
    }
}

/// An error at `field_path` that says `message`.
pub open spec fn error(field_path: Seq<char>, message: Seq<char>) -> ValidationErrorView {
    ValidationErrorView { field_path, message }
}

/// Whether a result reports exactly these errors: `Ok` where there are
/// none, else `Err` with all of them in this order.
pub open spec fn reports(r: ValidationResult, errors: Seq<ValidationErrorView>) -> bool {
    match r {
        Ok(()) => errors.len() == 0,
        Err(list) => list@.len() > 0 && views(list@) == errors,
    }
}

/// The error of a value of the kind `actual` where `expected` was asked for.
pub open spec fn type_error(path: Seq<char>, expected: ValueType, actual: ValueType) -> ValidationErrorView {
    error(
        path,
        "Property '"@ + path + "' must be "@ + kind_name(expected) + " (got "@ + kind_name(actual)
            + ")"@,
    )
}

/// The error of a value that is not of the expected kind.
pub open spec fn type_errors(value: JsonView, expected: ValueType, path: Seq<char>) -> Seq<
    ValidationErrorView,
> {
    if kind_of(value) != expected {
        seq![type_error(path, expected, kind_of(value))]
    } else {
        Seq::empty()
    }
}

/// The error of the item at `index`, of the kind `actual`, in an array whose
/// items are to be of the kind `expected`.
pub open spec fn item_error(
    path: Seq<char>,
    expected: ValueType,
    index: nat,
    actual: ValueType,
) -> ValidationErrorView {
    error(
        path,
        "All items in '"@ + path + "' array must be "@ + kind_name(expected) + " (item "@ + decimal(
            index,
        ) + " is "@ + kind_name(actual) + ")"@,
    )
}

/// One error for each item that is not of the expected kind, in the order
/// of the items.
pub open spec fn array_items_errors(
    items: Seq<JsonView>,
    expected: ValueType,
    path: Seq<char>,
) -> Seq<ValidationErrorView>
    decreases items.len(),
{
    if items.len() == 0 {
        Seq::empty()
    } else {
        let before = array_items_errors(items.drop_last(), expected, path);
        if kind_of(items.last()) != expected {
            before.push(
                item_error(path, expected, (items.len() - 1) as nat, kind_of(items.last())),
            )
        } else {
            before
        }
    }
}

/// The error of a string that is too short.
pub open spec fn string_length_errors(value: Seq<char>, min: nat, path: Seq<char>) -> Seq<
    ValidationErrorView,
> {
    if byte_len(value) < min {
        seq![
            error(
                path,
                "Property '"@ + path + "' cannot be empty (minLength: "@ + decimal(min) + ")"@,
            ),
        ]
    } else {
        Seq::empty()
    }
}

/// The error of an array that is too short. The message says `item` of one
/// and `items` of more.
pub open spec fn array_length_errors(len: nat, min: nat, path: Seq<char>) -> Seq<
    ValidationErrorView,
> {
    if len < min {
        let required = "Property '"@ + path + "' must contain at least "@ + decimal(min) + " item"@;
        seq![
            error(
                path,
                if min > 1 {
                    required + "s"@
                } else {
                    required
                },
            ),
        ]
    } else {
        Seq::empty()
    }
}

/// The error of a value that is neither an array nor null.
pub open spec fn nullable_array_errors(value: JsonView, path: Seq<char>) -> Seq<
    ValidationErrorView,
> {
    if value is Null || value is Array {
        Seq::empty()
    } else {
        seq![error(path, "Property '"@ + path + "' must be an array or null"@)]
    }
}

/// The error of a string that is not among the allowed ones.
pub open spec fn enum_errors(value: Seq<char>, allowed: Seq<Seq<char>>, path: Seq<char>) -> Seq<
    ValidationErrorView,
> {
    if allowed.contains(value) {
        Seq::empty()
    } else {
        seq![
            error(
                path,
                "Property '"@ + path + "' must be one of: "@ + joined(allowed, ", "@) + " (got '"@
                    + value + "')"@,
            ),
        ]
    }
}

/// The errors of a value under one rule.
pub open spec fn rule_errors(rule: RuleView, value: JsonView, path: Seq<char>) -> Seq<
    ValidationErrorView,
> {
    match rule {
        RuleView::Type { expected } => type_errors(value, expected, path),
        RuleView::ArrayItems { expected } => match value {
            JsonView::Array(items) => array_items_errors(items, expected, path),
            _ => Seq::empty(),
        },
        RuleView::StringLength { min } => match value {
            JsonView::String(s) => string_length_errors(s, min, path),
            _ => Seq::empty(),
        },
        RuleView::ArrayLength { min } => match value {
            JsonView::Array(items) => array_length_errors(items.len(), min, path),
            _ => Seq::empty(),
        },
        RuleView::NullableArray => nullable_array_errors(value, path),
        RuleView::Enum { allowed } => match value {
            JsonView::String(s) => enum_errors(s, allowed, path),
            _ => Seq::empty(),
        },
    }
}

/// The errors of a value under a list of rules, rule by rule.
pub open spec fn property_errors(rules: Seq<RuleView>, value: JsonView, path: Seq<char>) -> Seq<
    ValidationErrorView,
>
    decreases rules.len(),
{
    if rules.len() == 0 {
        Seq::empty()
    } else {
        property_errors(rules.drop_last(), value, path) + rule_errors(rules.last(), value, path)
    }
}

/// The error of a member whose name the schema does not allow.
pub open spec fn unexpected_error(key: Seq<char>, allowed: Seq<Seq<char>>, in_body: bool) -> ValidationErrorView {
    if in_body {
        error(
            "body."@ + key,
            "Unexpected property in body: '"@ + key + "'. Allowed properties: "@ + joined(
                allowed,
                ", "@,
            ),
        )
    } else {
        error(
            key,
            "Unexpected property '"@ + key + "'. Allowed properties: "@ + joined(allowed, ", "@),
        )
    }
}

/// One error for each member whose name is not allowed, in the order of the
/// members.
pub open spec fn unexpected_errors(
    members: Seq<(Seq<char>, JsonView)>,
    allowed: Seq<Seq<char>>,
    in_body: bool,
) -> Seq<ValidationErrorView>
    decreases members.len(),
{
    if members.len() == 0 {
        Seq::empty()
    } else {
        let before = unexpected_errors(members.drop_last(), allowed, in_body);
        if allowed.contains(members.last().0) {
            before
        } else {
            before.push(unexpected_error(members.last().0, allowed, in_body))
        }
    }
}

/// The error of a required property that is not there.
pub open spec fn missing_error(name: Seq<char>) -> ValidationErrorView {
    error(name, "Required property '"@ + name + "' is missing"@)
}

/// One error for each required property that is not there, in the order of
/// the required properties.
pub open spec fn missing_errors(
    required: Seq<Seq<char>>,
    members: Seq<(Seq<char>, JsonView)>,
) -> Seq<ValidationErrorView>
    decreases required.len(),
{
    if required.len() == 0 {
        Seq::empty()
    } else {
        let before = missing_errors(required.drop_last(), members);
        if has_key(members, required.last()) {
            before
        } else {
            before.push(missing_error(required.last()))
        }
    }
}

/// The errors of one property: those of its value under its rules, where
/// the property is there.
pub open spec fn present_errors(
    property: PropertyRulesView,
    members: Seq<(Seq<char>, JsonView)>,
    prefix: Seq<char>,
) -> Seq<ValidationErrorView> {
    match lookup(members, property.name) {
        Some(value) => property_errors(property.rules, value, prefix + property.name),
        None => Seq::empty(),
    }
}

/// The errors of the properties that are there, property by property.
pub open spec fn properties_errors(
    properties: Seq<PropertyRulesView>,
    members: Seq<(Seq<char>, JsonView)>,
    prefix: Seq<char>,
) -> Seq<ValidationErrorView>
    decreases properties.len(),
{
    if properties.len() == 0 {
        Seq::empty()
    } else {
        properties_errors(properties.drop_last(), members, prefix) + present_errors(
            properties.last(),
            members,
            prefix,
        )
    }
}

/// The errors of `references`: where it is an array, one for each item that
/// is no string.
pub open spec fn references_errors(members: Seq<(Seq<char>, JsonView)>) -> Seq<
    ValidationErrorView,
> {
    match lookup(members, "references"@) {
        Some(JsonView::Array(items)) => array_items_errors(
            items,
            ValueType::String,
            "references"@,
        ),
        _ => Seq::empty(),
    }
}

/// The errors of a `body` object: its unexpected members, then those of its
/// properties, with paths that start with `body.`.
pub open spec fn body_errors(schema: BodySchemaView, body: Seq<(Seq<char>, JsonView)>) -> Seq<
    ValidationErrorView,
> {
    unexpected_errors(body, schema.allowed_properties, true) + properties_errors(
        schema.properties,
        body,
        "body."@,
    )
}

/// The errors of `body`, where it is there and is an object.
pub open spec fn nested_body_errors(
    schema: BodySchemaView,
    members: Seq<(Seq<char>, JsonView)>,
) -> Seq<ValidationErrorView> {
    match lookup(members, "body"@) {
        Some(JsonView::Object(body)) => body_errors(schema, body),
        _ => Seq::empty(),
    }
}

/// All errors of a memo: unexpected members, missing properties, the rules
/// of the properties that are there, the items of `references`, and `body`.
pub open spec fn memo_errors(schema: MemoSchemaView, members: Seq<(Seq<char>, JsonView)>) -> Seq<
    ValidationErrorView,
> {
    unexpected_errors(members, schema.allowed_properties, false) + missing_errors(
        schema.required_properties,
        members,
    ) + properties_errors(schema.properties, members, ""@) + references_errors(members)
        + nested_body_errors(schema.body_schema, members)
}

/// The errors of a JSON text: that it is no JSON, that it is no object, or
/// those of the memo that it holds.
pub open spec fn text_reports(
    r: ValidationResult,
    schema: MemoSchemaView,
    text: Seq<char>,
) -> bool {
    match parsed_json(text) {
        Err(reason) => reports(r, seq![error("root"@, "Invalid JSON: "@ + reason)]),
        Ok(JsonView::Object(members)) => reports(r, memo_errors(schema, members)),
        Ok(_) => reports(r, seq![error("root"@, "Root must be a JSON object"@)]),
    }
}

/// The rules of a property that holds a list of strings with at least
/// `min` items.
pub open spec fn string_list_rules(min: nat) -> Seq<RuleView> {
    seq![
        RuleView::Type { expected: ValueType::Array },
        RuleView::ArrayLength { min },
        RuleView::ArrayItems { expected: ValueType::String },
    ]
}

/// The formats that the body of a memo may name.
pub open spec fn body_formats() -> Seq<Seq<char>> {
    seq!["plaintext"@, "markup"@, "delta"@]
}

/// The schema of the `body` of an official memorandum.
pub open spec fn official_body_schema() -> BodySchemaView {
    BodySchemaView {
        allowed_properties: seq!["format"@, "data"@],
        properties: seq![
            PropertyRulesView {
                name: "format"@,
                rules: seq![
                    RuleView::Type { expected: ValueType::String },
                    RuleView::Enum { allowed: body_formats() },
                ],
            },
            PropertyRulesView {
                name: "data"@,
                rules: seq![RuleView::Type { expected: ValueType::String }],
            },
        ],
    }
}

/// The schema of the official memorandum.
pub open spec fn official_schema() -> MemoSchemaView {
    MemoSchemaView {
        allowed_properties: seq![
            "memo-for"@,
            "from-block"@,
            "subject"@,
            "references"@,
            "signature-block"@,
            "body"@,
        ],
        required_properties: seq![
            "memo-for"@,
            "from-block"@,
            "subject"@,
            "signature-block"@,
            "body"@,
        ],
        properties: seq![
            PropertyRulesView { name: "memo-for"@, rules: string_list_rules(1) },
            PropertyRulesView { name: "from-block"@, rules: string_list_rules(1) },
            PropertyRulesView {
                name: "subject"@,
                rules: seq![
                    RuleView::Type { expected: ValueType::String },
                    RuleView::StringLength { min: 1 },
                ],
            },
            PropertyRulesView { name: "references"@, rules: seq![RuleView::NullableArray] },
            PropertyRulesView { name: "signature-block"@, rules: string_list_rules(2) },
            PropertyRulesView {
                name: "body"@,
                rules: seq![RuleView::Type { expected: ValueType::Object }],
            },
        ],
        body_schema: official_body_schema(),
    }
}

/// The rules of a property that holds a list of strings.
fn string_list(min: usize) -> (r: Vec<ValidationRule>)
    ensures
        views(r@) == string_list_rules(min as nat),
{
    let mut rules: Vec<ValidationRule> = Vec::new();
    rules.push(ValidationRule::Type { expected: ValueType::Array });
    rules.push(ValidationRule::ArrayLength { min });
    rules.push(ValidationRule::ArrayItems { expected: ValueType::String });
    assert(views(rules@) =~= string_list_rules(min as nat));
    rules
}

/// The rules of one property.
fn property(name: &str, rules: Vec<ValidationRule>) -> (r: PropertyRules)
    ensures
        r@ == (PropertyRulesView { name: name@, rules: views(rules@) }),
{
    PropertyRules { name: String::from_str(name), rules }
}

impl BodySchema {
    /// The schema of the `body` of an official memorandum: a `format`,
    /// which is one of `plaintext`, `markup` and `delta`, and `data`, both
    /// strings.
    pub fn official_memorandum() -> (r: Self)
        ensures
            r@ == official_body_schema(),
    {
        let mut allowed_properties: Vec<String> = Vec::new();
        allowed_properties.push(String::from_str("format"));
        allowed_properties.push(String::from_str("data"));
        let mut formats: Vec<String> = Vec::new();
        formats.push(String::from_str("plaintext"));
        formats.push(String::from_str("markup"));
        formats.push(String::from_str("delta"));
        assert(texts(formats@) =~= body_formats());
        let mut format_rules: Vec<ValidationRule> = Vec::new();
        format_rules.push(ValidationRule::Type { expected: ValueType::String });
        format_rules.push(ValidationRule::Enum { allowed: formats });
        let mut data_rules: Vec<ValidationRule> = Vec::new();
        data_rules.push(ValidationRule::Type { expected: ValueType::String });
        assert(views(format_rules@) =~= official_body_schema().properties[0].rules);
        assert(views(data_rules@) =~= official_body_schema().properties[1].rules);
        let mut properties: Vec<PropertyRules> = Vec::new();
        properties.push(property("format", format_rules));
        properties.push(property("data", data_rules));
        let schema = BodySchema { allowed_properties, properties };
        assert(schema@.allowed_properties =~= official_body_schema().allowed_properties);
        assert(schema@.properties =~= official_body_schema().properties);
        schema
    }
}

impl MemoSchema {
    /// The schema of the official memorandum: who it is for, who it is
    /// from, its subject, its signature block and its body are required;
    /// references are optional.
    pub fn official_memorandum() -> (r: Self)
        ensures
            r@ == official_schema(),
    {
        let mut allowed_properties: Vec<String> = Vec::new();
        allowed_properties.push(String::from_str("memo-for"));
        allowed_properties.push(String::from_str("from-block"));
        allowed_properties.push(String::from_str("subject"));
        allowed_properties.push(String::from_str("references"));
        allowed_properties.push(String::from_str("signature-block"));
        allowed_properties.push(String::from_str("body"));
        let mut required_properties: Vec<String> = Vec::new();
        required_properties.push(String::from_str("memo-for"));
        required_properties.push(String::from_str("from-block"));
        required_properties.push(String::from_str("subject"));
        required_properties.push(String::from_str("signature-block"));
        required_properties.push(String::from_str("body"));
        let mut subject_rules: Vec<ValidationRule> = Vec::new();
        subject_rules.push(ValidationRule::Type { expected: ValueType::String });
        subject_rules.push(ValidationRule::StringLength { min: 1 });
        let mut references_rules: Vec<ValidationRule> = Vec::new();
        references_rules.push(ValidationRule::NullableArray);
        let mut body_rules: Vec<ValidationRule> = Vec::new();
        body_rules.push(ValidationRule::Type { expected: ValueType::Object });
        assert(views(subject_rules@) =~= official_schema().properties[2].rules);
        assert(views(references_rules@) =~= official_schema().properties[3].rules);
        assert(views(body_rules@) =~= official_schema().properties[5].rules);
        let mut properties: Vec<PropertyRules> = Vec::new();
        properties.push(property("memo-for", string_list(1)));
        properties.push(property("from-block", string_list(1)));
        properties.push(property("subject", subject_rules));
        properties.push(property("references", references_rules));
        properties.push(property("signature-block", string_list(2)));
        properties.push(property("body", body_rules));
        let schema = MemoSchema {
            allowed_properties,
            required_properties,
            properties,
            body_schema: BodySchema::official_memorandum(),
        };
        assert(schema@.allowed_properties =~= official_schema().allowed_properties);
        assert(schema@.required_properties =~= official_schema().required_properties);
        assert(schema@.properties =~= official_schema().properties);
        schema
    }
}

/// The member that gives a body its format where it names none.
pub open spec fn default_format() -> (Seq<char>, JsonView) {
    ("format"@, JsonView::String("plaintext"@))
}

/// The members with `references` set to null where it was absent.
pub open spec fn with_references(members: Seq<(Seq<char>, JsonView)>) -> Seq<
    (Seq<char>, JsonView),
> {
    if has_key(members, "references"@) {
        members
    } else {
        members.push(("references"@, JsonView::Null))
    }
}

/// The members with the default format added to `body`, where `body` is an
/// object that names none.
pub open spec fn with_body_format(members: Seq<(Seq<char>, JsonView)>) -> Seq<
    (Seq<char>, JsonView),
> {
    match lookup(members, "body"@) {
        Some(JsonView::Object(body)) => if has_key(body, "format"@) {
            members
        } else {
            members.update(
                position(members, "body"@),
                ("body"@, JsonView::Object(body.push(default_format()))),
            )
        },
        _ => members,
    }
}

/// A memo with its defaults: `references` is null where it was absent, and
/// a `body` object without a `format` gets the format `plaintext`. Any
/// other value stays as it is.
pub open spec fn with_defaults(value: JsonView) -> JsonView {
    match value {
        JsonView::Object(members) => JsonView::Object(with_body_format(with_references(members))),
        other => other,
    }
}

/// What applying the defaults to a JSON text gives: the indented text of
/// the value with its defaults.
pub open spec fn defaults_text(text: Seq<char>) -> Result<Seq<char>, Seq<char>> {
    match parsed_json(text) {
        Ok(value) => pretty_text(with_defaults(value)),
        Err(reason) => Err(reason),
    }
}

/// Applying the defaults twice gives what applying them once gives.
pub proof fn lemma_defaults_idempotent(value: JsonView)
    ensures
        with_defaults(with_defaults(value)) == with_defaults(value),
{
    if let JsonView::Object(members) = value {
        let first = with_references(members);
        lemma_position_push(members, "references"@, JsonView::Null, "references"@);
        assert(has_key(first, "references"@));
        let second = with_body_format(first);
        lemma_position(first, "body"@);
        assert forall|i: int| 0 <= i < first.len() implies (#[trigger] first[i]).0
            == second[i].0 by {}
        lemma_position_same_names(first, second, "references"@);
        lemma_position_same_names(first, second, "body"@);
        assert(with_references(second) == second);
        match lookup(first, "body"@) {
            Some(JsonView::Object(body)) => {
                if !has_key(body, "format"@) {
                    lemma_position_push(
                        body,
                        default_format().0,
                        default_format().1,
                        "format"@,
                    );
                }
            },
            _ => {},
        }
        assert(with_body_format(second) == second);
    }
}

/// Applying the defaults to a text that they were already applied to gives
/// that text again, provided that reading the text back gives the value
/// that was written.
pub proof fn lemma_defaults_text_stable(text: Seq<char>, written: Seq<char>)
    requires
        parsed_json(text) is Ok,
        defaults_text(text) == Ok::<Seq<char>, Seq<char>>(written),
        parsed_json(written) == Ok::<JsonView, Seq<char>>(with_defaults(parsed_json(text)->Ok_0)),
    ensures
        defaults_text(written) == defaults_text(text),
{
    lemma_defaults_idempotent(parsed_json(text)->Ok_0);
}

/// A memo with its defaults.
pub fn apply_defaults_value(value: Json) -> (r: Json)
    ensures
        r@ == with_defaults(value@),
{
    match value {
        Json::Object(members) => {
            let mut members = members;
            let ghost given = members_view(members@);
            proof {
                lemma_object_view(members);
            }
            if find_member(&members, "references").is_none() {
                members.push(Member { name: String::from_str("references"), value: Json::Null });
                assert(members_view(members@) =~= given.push(("references"@, JsonView::Null)));
            }
            let ghost first = members_view(members@);
            assert(first == with_references(given));
            if let Some(i) = find_member(&members, "body") {
                proof {
                    lemma_position(first, "body"@);
                }
                let body = match &members[i].value {
                    Json::Object(body) => {
                        proof {
                            lemma_object_view(*body);
                        }
                        if find_member(body, "format").is_none() {
                            Some(members[i].value.duplicate())
                        } else {
                            None
                        }
                    },
                    _ => None,
                };
                if let Some(Json::Object(copy)) = body {
                    let mut copy = copy;
                    proof {
                        lemma_object_view(copy);
                    }
                    let ghost before = members_view(copy@);
                    copy.push(
                        Member {
                            name: String::from_str("format"),
                            value: Json::String(String::from_str("plaintext")),
                        },
                    );
                    assert(members_view(copy@) =~= before.push(default_format()));
                    proof {
                        lemma_object_view(copy);
                    }
                    members.set(i, Member { name: String::from_str("body"), value: Json::Object(copy) });
                    assert(members_view(members@) =~= with_body_format(first));
                }
            }
            proof {
                lemma_object_view(members);
            }
            Json::Object(members)
        },
        other => other,
    }
}

/// Validates memos against the schema of the official memorandum.
pub struct MemoValidator {
    schema: MemoSchema,
}

/// The kind of a value.
pub fn value_type(value: &Json) -> (r: ValueType)
    ensures
        r == kind_of(value@),
{
    match value {
        Json::String(_) => ValueType::String,
        Json::Array(_) => ValueType::Array,
        Json::Object(_) => ValueType::Object,
        Json::Number(_) => ValueType::Number,
        Json::Bool(_) => ValueType::Boolean,
        Json::Null => ValueType::Null,
    }
}

/// The name of a kind, as the messages have it.
pub fn kind_name_str(kind: ValueType) -> (r: &'static str)
    ensures
        r@ == kind_name(kind),
{
    match kind {
        ValueType::String => "String",
        ValueType::Array => "Array",
        ValueType::Object => "Object",
        ValueType::Number => "Number",
        ValueType::Boolean => "Boolean",
        ValueType::Null => "Null",
    }
}

/// A list that holds this one error.
fn single(field_path: &str, message: String) -> (r: Vec<ValidationError>)
    ensures
        r@.len() == 1,
        views(r@) == seq![error(field_path@, message@)],
{
    let mut list: Vec<ValidationError> = Vec::new();
    list.push(ValidationError { field_path: String::from_str(field_path), message });
    assert(views(list@) =~= seq![error(field_path@, message@)]);
    list
}

/// Moves the errors of `outcome`, if any, to the end of `errors`.
fn collect(errors: &mut Vec<ValidationError>, outcome: ValidationResult, Ghost(found): Ghost<
    Seq<ValidationErrorView>,
>)
    requires
        reports(outcome, found),
    ensures
        views(final(errors)@) == views(old(errors)@) + found,
{
    match outcome {
        Ok(()) => {
            assert(views(old(errors)@) + found =~= views(old(errors)@));
        },
        Err(mut list) => {
            proof {
                lemma_views_concat(errors@, list@);
            }
            errors.append(&mut list);
        },
    }
}

/// `Ok` for no errors, `Err` with the errors else.
fn finish(errors: Vec<ValidationError>) -> (r: ValidationResult)
    ensures
        reports(r, views(errors@)),
{
    if errors.len() == 0 {
        Ok(())
    } else {
        Err(errors)
    }
}

impl MemoValidator {
    /// The schema that this validator holds memos to.
    pub closed spec fn schema_view(&self) -> MemoSchemaView {
        self.schema@
    }

    /// A validator for the official memorandum.
    pub fn new() -> (r: Self)
        ensures
            r.schema_view() == official_schema(),
    {
        MemoValidator { schema: MemoSchema::official_memorandum() }
    }

    /// Checks that a value is of the expected kind.
    pub fn validate_type(&self, value: &Json, expected_type: ValueType, path: &str) -> (r:
        ValidationResult)
        ensures
            reports(r, type_errors(value@, expected_type, path@)),
    {
        let actual_type = value_type(value);
        if actual_type != expected_type {
            let mut message = String::from_str("Property '");
            message.append(path);
            message.append("' must be ");
            message.append(kind_name_str(expected_type));
            message.append(" (got ");
            message.append(kind_name_str(actual_type));
            message.append(")");
            Err(single(path, message))
        } else {
            Ok(())
        }
    }

    /// Checks that all items of an array are of the expected kind.
    pub fn validate_array_items(
        &self,
        arr: &Vec<Json>,
        expected_type: ValueType,
        path: &str,
    ) -> (r: ValidationResult)
        ensures
            reports(r, array_items_errors(items_view(arr@), expected_type, path@)),
    {
        let ghost all = items_view(arr@);
        let mut errors: Vec<ValidationError> = Vec::new();
        let mut i: usize = 0;
        while i < arr.len()
            invariant
                i <= arr.len(),
                all == items_view(arr@),
                views(errors@) == array_items_errors(all.take(i as int), expected_type, path@),
            decreases arr.len() - i,
        {
            proof {
                assert(all.take(i + 1).drop_last() == all.take(i as int));
                assert(all.take(i + 1).last() == arr@[i as int]@);
            }
            let actual_type = value_type(&arr[i]);
            if actual_type != expected_type {
                let mut message = String::from_str("All items in '");
                message.append(path);
                message.append("' array must be ");
                message.append(kind_name_str(expected_type));
                message.append(" (item ");
                push_decimal(&mut message, i as u128);
                message.append(" is ");
                message.append(kind_name_str(actual_type));
                message.append(")");
                let e = ValidationError { field_path: String::from_str(path), message };
                proof {
                    lemma_views_push(errors@, e);
                }
                errors.push(e);
            }
            i += 1;
        }
        proof {
            assert(all.take(i as int) == all);
        }
        finish(errors)
    }

    /// Checks that a string takes at least `min_length` bytes.
    pub fn validate_string_length(&self, value: &str, min_length: usize, path: &str) -> (r:
        ValidationResult)
        ensures
            reports(r, string_length_errors(value@, min_length as nat, path@)),
    {
        if value.as_bytes().len() < min_length {
            let mut message = String::from_str("Property '");
            message.append(path);
            message.append("' cannot be empty (minLength: ");
            push_decimal(&mut message, min_length as u128);
            message.append(")");
            Err(single(path, message))
        } else {
            Ok(())
        }
    }

    /// Checks that an array has at least `min_items` items.
    pub fn validate_array_length(&self, arr: &Vec<Json>, min_items: usize, path: &str) -> (r:
        ValidationResult)
        ensures
            reports(r, array_length_errors(arr@.len(), min_items as nat, path@)),
    {
        if arr.len() < min_items {
            let mut message = String::from_str("Property '");
            message.append(path);
            message.append("' must contain at least ");
            push_decimal(&mut message, min_items as u128);
            message.append(" item");
            if min_items > 1 {
                message.append("s");
            }
            Err(single(path, message))
        } else {
            Ok(())
        }
    }

    /// Checks that a value is an array or null.
    pub fn validate_nullable_array(&self, value: &Json, path: &str) -> (r: ValidationResult)
        ensures
            reports(r, nullable_array_errors(value@, path@)),
    {
        match value {
            Json::Null => Ok(()),
            Json::Array(_) => Ok(()),
            _ => {
                let mut message = String::from_str("Property '");
                message.append(path);
                message.append("' must be an array or null");
                Err(single(path, message))
            },
        }
    }

    /// Checks that a string is one of the allowed ones.
    pub fn validate_enum(&self, value: &str, allowed_values: &Vec<String>, path: &str) -> (r:
        ValidationResult)
        ensures
            reports(r, enum_errors(value@, texts(allowed_values@), path@)),
    {
        if contains_text(allowed_values, value) {
            Ok(())
        } else {
            let mut message = String::from_str("Property '");
            message.append(path);
            message.append("' must be one of: ");
            push_joined(&mut message, allowed_values, ", ");
            message.append(" (got '");
            message.append(value);
            message.append("')");
            Err(single(path, message))
        }
    }

    /// Checks a value against the rules of its property, rule by rule.
    pub fn validate_property(&self, value: &Json, rules: &Vec<ValidationRule>, path: &str) -> (r:
        ValidationResult)
        ensures
            reports(r, property_errors(views(rules@), value@, path@)),
    {
        let ghost all = views(rules@);
        let mut errors: Vec<ValidationError> = Vec::new();
        let mut i: usize = 0;
        while i < rules.len()
            invariant
                i <= rules.len(),
                all == views(rules@),
                views(errors@) == property_errors(all.take(i as int), value@, path@),
            decreases rules.len() - i,
        {
            proof {
                assert(all.take(i + 1).drop_last() == all.take(i as int));
                assert(all.take(i + 1).last() == rules@[i as int]@);
            }
            let ghost found = rule_errors(rules@[i as int]@, value@, path@);
            match &rules[i] {
                ValidationRule::Type { expected } => {
                    let outcome = self.validate_type(value, *expected, path);
                    collect(&mut errors, outcome, Ghost(found));
                },
                ValidationRule::ArrayItems { expected } => {
                    if let Json::Array(arr) = value {
                        proof {
                            lemma_array_view(*arr);
                        }
                        let outcome = self.validate_array_items(arr, *expected, path);
                        collect(&mut errors, outcome, Ghost(found));
                    } else {
                        assert(views(errors@) + found =~= views(errors@));
                    }
                },
                ValidationRule::StringLength { min } => {
                    if let Json::String(s) = value {
                        let outcome = self.validate_string_length(s.as_str(), *min, path);
                        collect(&mut errors, outcome, Ghost(found));
                    } else {
                        assert(views(errors@) + found =~= views(errors@));
                    }
                },
                ValidationRule::ArrayLength { min } => {
                    if let Json::Array(arr) = value {
                        proof {
                            lemma_array_view(*arr);
                        }
                        let outcome = self.validate_array_length(arr, *min, path);
                        collect(&mut errors, outcome, Ghost(found));
                    } else {
                        assert(views(errors@) + found =~= views(errors@));
                    }
                },
                ValidationRule::NullableArray => {
                    let outcome = self.validate_nullable_array(value, path);
                    collect(&mut errors, outcome, Ghost(found));
                },
                ValidationRule::Enum { allowed } => {
                    if let Json::String(s) = value {
                        let outcome = self.validate_enum(s.as_str(), allowed, path);
                        collect(&mut errors, outcome, Ghost(found));
                    } else {
                        assert(views(errors@) + found =~= views(errors@));
                    }
                },
            }
            i += 1;
        }
        proof {
            assert(all.take(i as int) == all);
        }
        finish(errors)
    }
    /// Reports each member whose name is not allowed.
    fn check_unexpected(
        &self,
        members: &Vec<Member>,
        allowed: &Vec<String>,
        in_body: bool,
        errors: &mut Vec<ValidationError>,
    )
        ensures
            views(final(errors)@) == views(old(errors)@) + unexpected_errors(
                members_view(members@),
                texts(allowed@),
                in_body,
            ),
    {
        let ghost all = members_view(members@);
        let ghost start = views(errors@);
        assert(start + Seq::<ValidationErrorView>::empty() =~= start);
        let mut i: usize = 0;
        while i < members.len()
            invariant
                i <= members.len(),
                all == members_view(members@),
                views(errors@) == start + unexpected_errors(
                    all.take(i as int),
                    texts(allowed@),
                    in_body,
                ),
            decreases members.len() - i,
        {
            proof {
                assert(all.take(i + 1).drop_last() == all.take(i as int));
                assert(all.take(i + 1).last() == all[i as int]);
            }
            let key = members[i].name.as_str();
            if !contains_text(allowed, key) {
                let mut path = String::new();
                let mut message = String::new();
                if in_body {
                    path.append("body.");
                    message.append("Unexpected property in body: '");
                } else {
                    message.append("Unexpected property '");
                }
                path.append(key);
                message.append(key);
                message.append("'. Allowed properties: ");
                push_joined(&mut message, allowed, ", ");
                let e = ValidationError { field_path: path, message };
                proof {
                    lemma_views_push(errors@, e);
                    let before = unexpected_errors(all.take(i as int), texts(allowed@), in_body);
                    assert(e@ =~= unexpected_error(key@, texts(allowed@), in_body)) by {
                        assert(e@.field_path =~= unexpected_error(
                            key@,
                            texts(allowed@),
                            in_body,
                        ).field_path);
                        assert(e@.message =~= unexpected_error(
                            key@,
                            texts(allowed@),
                            in_body,
                        ).message);
                    }
                    assert((start + before).push(e@) =~= start + before.push(e@));
                }
                errors.push(e);
            }
            i += 1;
        }
        proof {
            assert(all.take(i as int) == all);
        }
    }

    /// Reports each required property that is not there.
    fn check_required(
        &self,
        members: &Vec<Member>,
        required: &Vec<String>,
        errors: &mut Vec<ValidationError>,
    )
        ensures
            views(final(errors)@) == views(old(errors)@) + missing_errors(
                texts(required@),
                members_view(members@),
            ),
    {
        let ghost all = texts(required@);
        let ghost start = views(errors@);
        assert(start + Seq::<ValidationErrorView>::empty() =~= start);
        let mut i: usize = 0;
        while i < required.len()
            invariant
                i <= required.len(),
                all == texts(required@),
                views(errors@) == start + missing_errors(
                    all.take(i as int),
                    members_view(members@),
                ),
            decreases required.len() - i,
        {
            proof {
                assert(all.take(i + 1).drop_last() == all.take(i as int));
                assert(all.take(i + 1).last() == all[i as int]);
            }
            let name = required[i].as_str();
            if find_member(members, name).is_none() {
                let mut message = String::from_str("Required property '");
                message.append(name);
                message.append("' is missing");
                let e = ValidationError { field_path: String::from_str(name), message };
                proof {
                    lemma_views_push(errors@, e);
                    let before = missing_errors(all.take(i as int), members_view(members@));
                    assert((start + before).push(e@) =~= start + before.push(e@));
                }
                errors.push(e);
            }
            i += 1;
        }
        proof {
            assert(all.take(i as int) == all);
        }
    }

    /// Reports what the properties that are there break of their rules.
    fn check_properties(
        &self,
        members: &Vec<Member>,
        properties: &Vec<PropertyRules>,
        prefix: &str,
        errors: &mut Vec<ValidationError>,
    )
        ensures
            views(final(errors)@) == views(old(errors)@) + properties_errors(
                views(properties@),
                members_view(members@),
                prefix@,
            ),
    {
        let ghost all = views(properties@);
        let ghost start = views(errors@);
        assert(start + Seq::<ValidationErrorView>::empty() =~= start);
        let mut i: usize = 0;
        while i < properties.len()
            invariant
                i <= properties.len(),
                all == views(properties@),
                views(errors@) == start + properties_errors(
                    all.take(i as int),
                    members_view(members@),
                    prefix@,
                ),
            decreases properties.len() - i,
        {
            proof {
                assert(all.take(i + 1).drop_last() == all.take(i as int));
                assert(all.take(i + 1).last() == properties@[i as int]@);
            }
            let ghost before = properties_errors(
                all.take(i as int),
                members_view(members@),
                prefix@,
            );
            let ghost found = present_errors(properties@[i as int]@, members_view(members@), prefix@);
            let property = &properties[i];
            match get_member(members, property.name.as_str()) {
                Some(value) => {
                    let mut path = String::from_str(prefix);
                    path.append(property.name.as_str());
                    let outcome = self.validate_property(value, &property.rules, path.as_str());
                    collect(errors, outcome, Ghost(found));
                },
                None => {
                    assert(views(errors@) + found =~= views(errors@));
                },
            }
            proof {
                assert((start + before) + found =~= start + (before + found));
            }
            i += 1;
        }
        proof {
            assert(all.take(i as int) == all);
        }
    }

    /// Validates the `body` object of a memo.
    pub fn validate_body(&self, body: &Vec<Member>) -> (r: ValidationResult)
        ensures
            reports(r, body_errors(self.schema_view().body_schema, members_view(body@))),
    {
        let mut errors: Vec<ValidationError> = Vec::new();
        assert(views(errors@) =~= Seq::<ValidationErrorView>::empty());
        self.check_unexpected(body, &self.schema.body_schema.allowed_properties, true, &mut errors);
        self.check_properties(body, &self.schema.body_schema.properties, "body.", &mut errors);
        proof {
            let a = unexpected_errors(
                members_view(body@),
                self.schema_view().body_schema.allowed_properties,
                true,
            );
            let b = properties_errors(
                self.schema_view().body_schema.properties,
                members_view(body@),
                "body."@,
            );
            assert(views(errors@) =~= a + b);
        }
        finish(errors)
    }

    /// Validates a memo: reports every error that it has under the schema,
    /// and accepts it if and only if it has none.
    pub fn validate_memo(&self, data: &Vec<Member>) -> (r: ValidationResult)
        ensures
            reports(r, memo_errors(self.schema_view(), members_view(data@))),
            r is Ok <==> conforms(self.schema_view(), members_view(data@)),
            forall|i: int|
                0 <= i < self.schema_view().required_properties.len() && !has_key(
                    members_view(data@),
                    #[trigger] self.schema_view().required_properties[i],
                ) ==> r is Err && views(r->Err_0@).contains(
                    missing_error(self.schema_view().required_properties[i]),
                ),
    {
        let ghost members = members_view(data@);
        let ghost schema = self.schema_view();
        let mut errors: Vec<ValidationError> = Vec::new();
        assert(views(errors@) =~= Seq::<ValidationErrorView>::empty());
        self.check_unexpected(data, &self.schema.allowed_properties, false, &mut errors);
        self.check_required(data, &self.schema.required_properties, &mut errors);
        self.check_properties(data, &self.schema.properties, "", &mut errors);
        let ghost first = unexpected_errors(members, schema.allowed_properties, false)
            + missing_errors(schema.required_properties, members) + properties_errors(
            schema.properties,
            members,
            ""@,
        );
        assert(views(errors@) =~= first);
        if let Some(Json::Array(items)) = get_member(data, "references") {
            proof {
                lemma_array_view(*items);
            }
            let outcome = self.validate_array_items(items, ValueType::String, "references");
            collect(&mut errors, outcome, Ghost(references_errors(members)));
        } else {
            assert(views(errors@) + references_errors(members) =~= views(errors@));
        }
        assert(views(errors@) == first + references_errors(members));
        if let Some(Json::Object(body)) = get_member(data, "body") {
            proof {
                lemma_object_view(*body);
            }
            let outcome = self.validate_body(body);
            collect(&mut errors, outcome, Ghost(nested_body_errors(schema.body_schema, members)));
        } else {
            assert(views(errors@) + nested_body_errors(schema.body_schema, members) =~= views(
                errors@,
            ));
        }
        proof {
            lemma_no_errors_iff_conforms(schema, members);
            assert forall|i: int|
                0 <= i < schema.required_properties.len() && !has_key(
                    members,
                    #[trigger] schema.required_properties[i],
                ) implies memo_errors(schema, members).contains(
                missing_error(schema.required_properties[i]),
            ) by {
                lemma_missing_is_reported(schema, members, i);
            }
        }
        finish(errors)
    }

    /// Validates a JSON text that holds a memo.
    pub fn validate_json(&self, json_input: &str) -> (r: ValidationResult)
        ensures
            text_reports(r, self.schema_view(), json_input@),
            parsed_json(json_input@) matches Ok(JsonView::Object(members)) ==> (r is Ok
                <==> conforms(self.schema_view(), members)),
    {
        match parse_text(json_input) {
            Ok(value) => match value {
                Json::Object(members) => {
                    proof {
                        lemma_object_view(members);
                    }
                    self.validate_memo(&members)
                },
                _ => {
                    assert(!(value@ is Object));
                    Err(single("root", String::from_str("Root must be a JSON object")))
                },
            },
            Err(failure) => {
                let mut message = String::from_str("Invalid JSON: ");
                message.append(failure.message.as_str());
                Err(single("root", message))
            },
        }
    }
}

impl MemoValidator {
    /// Reads a memo from JSON text, fills in its defaults and writes it
    /// back as indented JSON text.
    pub fn apply_defaults(&self, json_input: &str) -> (r: Result<String, serde_json::Error>)
        ensures
            r is Ok <==> defaults_text(json_input@) is Ok,
            r is Ok ==> r->Ok_0@ == defaults_text(json_input@)->Ok_0,
    {
        match parse_text(json_input) {
            Ok(value) => {
                let filled = apply_defaults_value(value);
                match write_pretty(&filled) {
                    Ok(text) => Ok(text),
                    Err(failure) => Err(failure.source),
                }
            },
            Err(failure) => Err(failure.source),
        }
    }
}

impl Default for MemoValidator {
    fn default() -> (r: Self)
        ensures
            r.schema_view() == official_schema(),
    {
        MemoValidator::new()
    }
}

} // verus!
