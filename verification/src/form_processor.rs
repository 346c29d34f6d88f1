//! Content blocks and the preparation of a memo for the compiler.
//!
//! A content block is markup, which passes through as it is, or a rich-text
//! document, which is turned into markup. Preparing a memo fills its
//! `body_raw` with the markup of its `body`.

use vstd::prelude::*;
use vstd::string::*;
use crate::delta_parser::{
    error_message, text_result, transpile_text, DeltaParser, ParserError, ParserErrorView,
};
use crate::form_validation::{
    error, memo_errors, official_schema, reports, MemoValidator, ValidationError,
    ValidationErrorView, ValidationResult,
};
use crate::json::{
    compact_text, get_member, lemma_object_view, lookup, parse_text, parsed_json, set_member,
    with_member, write_compact, Json, JsonView,
};
use crate::text::{str_eq, views};

verus! {

/// The formats of a content block.
#[derive(Debug, Clone, Copy, PartialEq, Eq, Structural)]
pub enum ContentFormat {
    /// Markup, given as it is.
    Markup,
    /// A rich-text document as JSON text.
    Delta,
}

impl Default for ContentFormat {
    fn default() -> (r: Self)
        ensures
            r == ContentFormat::Markup,
    {
        ContentFormat::Markup
    }
}

/// A content block: data in a format.
#[derive(Debug, Clone)]
pub struct Content {
    pub format: ContentFormat,
    pub data: String,
}

/// The mathematical value of a [`Content`].
pub struct ContentView {
    pub format: ContentFormat,
    pub data: Seq<char>,
}

impl View for Content {
    type V = ContentView;

    open spec fn view(&self) -> ContentView {
        ContentView { format: self.format, data: self.data@ }
    }
}

/// The markup of a content block: its data where that is markup, else the
/// markup of the document that its data holds.
pub open spec fn content_markup(content: ContentView) -> Result<Seq<char>, ParserErrorView> {
    match content.format {
        ContentFormat::Markup => Ok(content.data),
        ContentFormat::Delta => transpile_text(content.data),
    }
}

/// The format that the members of a content block name: `markup` where
/// they name none, and nothing where `format` is anything but the strings
/// `markup` and `delta`.
pub open spec fn decode_format(members: Seq<(Seq<char>, JsonView)>) -> Option<ContentFormat> {
    match lookup(members, "format"@) {
        None => Some(ContentFormat::Markup),
        Some(JsonView::String(name)) => if name == "markup"@ {
            Some(ContentFormat::Markup)
        } else if name == "delta"@ {
            Some(ContentFormat::Delta)
        } else {
            None
        },
        Some(_) => None,
    }
}

/// The content block that a JSON value holds: an object with a string
/// `data` and a format.
pub open spec fn decode_content(value: JsonView) -> Option<ContentView> {
    match value {
        JsonView::Object(members) => match (decode_format(members), lookup(members, "data"@)) {
            (Some(format), Some(JsonView::String(data))) => Some(ContentView { format, data }),
            _ => None,
        },
        _ => None,
    }
}

/// The markup of a content block that is given as JSON text.
pub open spec fn content_text_markup(json: Seq<char>) -> Result<Seq<char>, ParserErrorView> {
    match parsed_json(json) {
        Err(reason) => Err(ParserErrorView::InvalidFormat("Invalid content JSON: "@ + reason)),
        Ok(value) => match decode_content(value) {
            Some(content) => content_markup(content),
            None => Err(
                ParserErrorView::InvalidFormat(
                    "Invalid content JSON: expected an object with a string `data` and a `format` of `markup` or `delta`"@,
                ),
            ),
        },
    }
}

/// The errors of a form under the schema of the official memorandum.
pub open spec fn form_errors(form: JsonView) -> Seq<ValidationErrorView> {
    match form {
        JsonView::Object(members) => memo_errors(official_schema(), members),
        _ => seq![error("root"@, "Root must be a JSON object"@)],
    }
}

/// What the first of some errors says, and where.
pub open spec fn mismatch(errors: Seq<ValidationErrorView>) -> ParserErrorView {
    ParserErrorView::InvalidFormat(
        "Form JSON does not match schema: "@ + errors[0].message + " at "@ + errors[0].field_path,
    )
}

/// Whether a form meets the schema of the official memorandum; where it
/// does not, the error tells the first thing that is wrong with it.
pub open spec fn form_check(form: JsonView) -> Result<(), ParserErrorView> {
    if form_errors(form).len() == 0 {
        Ok(())
    } else {
        Err(mismatch(form_errors(form)))
    }
}

/// Whether a form that is given as JSON text meets the schema of the
/// official memorandum.
pub open spec fn schema_check(text: Seq<char>) -> Result<(), ParserErrorView> {
    match parsed_json(text) {
        Err(reason) => Err(ParserErrorView::InvalidFormat("Invalid form JSON: "@ + reason)),
        Ok(form) => form_check(form),
    }
}

/// Whether a form has no markup of its body yet: `body_raw` is absent, null
/// or an empty string.
pub open spec fn needs_body_raw(form: JsonView) -> bool {
    match form.get("body_raw"@) {
        None => true,
        Some(JsonView::Null) => true,
        Some(JsonView::String(s)) => s.len() == 0,
        Some(_) => false,
    }
}

/// The content block of a form's `body`, where it holds one.
pub open spec fn body_content(form: JsonView) -> Option<ContentView> {
    match form.get("body"@) {
        Some(body) => decode_content(body),
        None => None,
    }
}

/// A form made ready: where it has no markup of its body yet and its `body`
/// is a content block, `body_raw` is set to the markup of that block. Any
/// other form stays as it is.
pub open spec fn preprocessed(form: JsonView) -> Result<JsonView, ParserErrorView> {
    if needs_body_raw(form) && body_content(form) is Some {
        match content_markup(body_content(form)->Some_0) {
            Ok(markup) => Ok(
                JsonView::Object(
                    with_member(form->Object_0, "body_raw"@, JsonView::String(markup)),
                ),
            ),
            Err(e) => Err(
                ParserErrorView::InvalidFormat(
                    "Failed to process body content: "@ + error_message(e),
                ),
            ),
        }
    } else {
        Ok(form)
    }
}

/// A form that is given as JSON text, made ready and written back as
/// compact JSON text.
pub open spec fn preprocessed_text(text: Seq<char>) -> Result<Seq<char>, ParserErrorView> {
    match parsed_json(text) {
        Err(reason) => Err(ParserErrorView::InvalidFormat("Invalid form JSON: "@ + reason)),
        Ok(form) => match preprocessed(form) {
            Err(e) => Err(e),
            Ok(ready) => match compact_text(ready) {
                Ok(written) => Ok(written),
                Err(reason) => Err(
                    ParserErrorView::InvalidFormat(
                        "Failed to serialize processed input: "@ + reason,
                    ),
                ),
            },
        },
    }
}

/// A form checked against the schema and then made ready.
pub open spec fn checked_and_preprocessed(text: Seq<char>) -> Result<Seq<char>, ParserErrorView> {
    match schema_check(text) {
        Err(e) => Err(e),
        Ok(()) => preprocessed_text(text),
    }
}

/// The view of a result that carries nothing.
pub open spec fn unit_result(r: Result<(), ParserError>) -> Result<(), ParserErrorView> {
    match r {
        Ok(()) => Ok(()),
        Err(e) => Err(e@),
    }
}

/// The view of a result that carries a value.
pub open spec fn value_result(r: Result<Json, ParserError>) -> Result<JsonView, ParserErrorView> {
    match r {
        Ok(v) => Ok(v@),
        Err(e) => Err(e@),
    }
}

/// `InvalidFormat` with `prefix` and `detail` as its message.
fn invalid_format(prefix: &str, detail: &str) -> (r: ParserError)
    ensures
        r@ == ParserErrorView::InvalidFormat(prefix@ + detail@),
{
    let mut message = String::from_str(prefix);
    message.append(detail);
    ParserError::InvalidFormat(message)
}

/// Turns a content block into markup.
pub fn process_content(content: &Content) -> (r: Result<String, ParserError>)
    ensures
        text_result(r) == content_markup(content@),
{
    match content.format {
        ContentFormat::Markup => Ok(content.data.clone()),
        ContentFormat::Delta => {
            let parser = DeltaParser::new();
            parser.parse(content.data.as_str())
        },
    }
}

/// The content block that a JSON value holds.
pub fn content_of_json(value: &Json) -> (r: Option<Content>)
    ensures
        match r {
            Some(content) => decode_content(value@) == Some(content@),
            None => decode_content(value@) is None,
        },
{
    match value {
        Json::Object(members) => {
            proof {
                lemma_object_view(*members);
            }
            let format = match get_member(members, "format") {
                None => ContentFormat::Markup,
                Some(Json::String(name)) => {
                    if str_eq(name.as_str(), "markup") {
                        ContentFormat::Markup
                    } else if str_eq(name.as_str(), "delta") {
                        ContentFormat::Delta
                    } else {
                        return None;
                    }
                },
                Some(_) => {
                    return None;
                },
            };
            match get_member(members, "data") {
                Some(Json::String(data)) => Some(Content { format, data: data.clone() }),
                _ => None,
            }
        },
        _ => None,
    }
}

/// Reads a content block from JSON text and turns it into markup.
pub fn process_content_json(json: &str) -> (r: Result<String, ParserError>)
    ensures
        text_result(r) == content_text_markup(json@),
{
    match parse_text(json) {
        Err(failure) => Err(invalid_format("Invalid content JSON: ", failure.message.as_str())),
        Ok(value) => match content_of_json(&value) {
            Some(content) => process_content(&content),
            None => Err(
                ParserError::InvalidFormat(
                    String::from_str(
                        "Invalid content JSON: expected an object with a string `data` and a `format` of `markup` or `delta`",
                    ),
                ),
            ),
        },
    }
}

/// Checks a form against the schema of the official memorandum.
pub fn validate_form(form: &Json) -> (r: Result<(), ParserError>)
    ensures
        unit_result(r) == form_check(form@),
{
    let validator = MemoValidator::new();
    let outcome: ValidationResult = match form {
        Json::Object(members) => {
            proof {
                lemma_object_view(*members);
            }
            validator.validate_memo(members)
        },
        _ => {
            let mut list = Vec::new();
            list.push(ValidationError::new("root", "Root must be a JSON object"));
            assert(views(list@) =~= form_errors(form@));
            Err(list)
        },
    };
    assert(reports(outcome, form_errors(form@)));
    match outcome {
        Ok(()) => Ok(()),
        Err(errors) => {
            assert(views(errors@)[0] == errors@[0]@);
            let mut message = String::from_str("Form JSON does not match schema: ");
            message.append(errors[0].message.as_str());
            message.append(" at ");
            message.append(errors[0].field_path.as_str());
            Err(ParserError::InvalidFormat(message))
        },
    }
}

/// Checks a form, given as JSON text, against the schema of the official
/// memorandum.
pub fn validate_official_memo_schema(form_json: &str) -> (r: Result<(), ParserError>)
    ensures
        unit_result(r) == schema_check(form_json@),
{
    match parse_text(form_json) {
        Err(failure) => Err(invalid_format("Invalid form JSON: ", failure.message.as_str())),
        Ok(form) => validate_form(&form),
    }
}

/// Whether a form has no markup of its body yet.
fn wants_body_raw(form: &Json) -> (r: bool)
    ensures
        r == needs_body_raw(form@),
{
    match form.get("body_raw") {
        None => true,
        Some(Json::Null) => true,
        Some(Json::String(s)) => s.as_str().is_empty(),
        Some(_) => false,
    }
}

/// Makes a form ready for the compiler: fills `body_raw` with the markup
/// of `body`, where there is none yet and `body` is a content block.
pub fn preprocess_form(form: Json) -> (r: Result<Json, ParserError>)
    ensures
        value_result(r) == preprocessed(form@),
{
    if !wants_body_raw(&form) {
        return Ok(form);
    }
    let content = match form.get("body") {
        Some(body) => content_of_json(body),
        None => None,
    };
    match content {
        None => Ok(form),
        Some(content) => match process_content(&content) {
            Ok(markup) => match form {
                Json::Object(members) => {
                    let mut members = members;
                    proof {
                        lemma_object_view(members);
                    }
                    set_member(&mut members, String::from_str("body_raw"), Json::String(markup));
                    proof {
                        lemma_object_view(members);
                    }
                    Ok(Json::Object(members))
                },
                other => Ok(other),
            },
            Err(e) => {
                let detail = e.message();
                Err(invalid_format("Failed to process body content: ", detail.as_str()))
            },
        },
    }
}

/// Reads a form from JSON text, makes it ready for the compiler and writes
/// it back as compact JSON text.
pub fn preprocess_form_json(form_json: &str) -> (r: Result<String, ParserError>)
    ensures
        text_result(r) == preprocessed_text(form_json@),
{
    match parse_text(form_json) {
        Err(failure) => Err(invalid_format("Invalid form JSON: ", failure.message.as_str())),
        Ok(form) => match preprocess_form(form) {
            Err(e) => Err(e),
            Ok(ready) => match write_compact(&ready) {
                Ok(written) => Ok(written),
                Err(failure) => Err(
                    invalid_format(
                        "Failed to serialize processed input: ",
                        failure.message.as_str(),
                    ),
                ),
            },
        },
    }
}

/// Checks a form against the schema of the official memorandum and then
/// makes it ready for the compiler.
pub fn validate_and_preprocess_form_json(form_json: &str) -> (r: Result<String, ParserError>)
    ensures
        text_result(r) == checked_and_preprocessed(form_json@),
{
    match validate_official_memo_schema(form_json) {
        Err(e) => Err(e),
        Ok(()) => preprocess_form_json(form_json),
    }
}

} // verus!
