//! Rich text to markup.
//!
//! A rich-text document is a JSON object whose member `ops` is an array of
//! operations. Each operation that carries an `insert` adds text, an image
//! or a line break; an operation that carries `retain` or `delete` belongs
//! to a change, not to a document, and is refused. [`transpile`] says what
//! markup a document gives; [`DeltaParser::parse`] computes it.

use vstd::prelude::*;
use vstd::string::*;
use crate::json::{
    debug_string, debug_text, flag, get_member, items_view, lemma_array_view,
    lemma_object_view, lookup, members_debug_string, members_debug_text, members_view, parse_text,
    parsed_json, Json, JsonView, Member,
};
use crate::text::{push_repeated, repeated, str_eq, trim_end, trimmed_end};

verus! {

/// Why a document could not be turned into markup.
#[derive(Debug, Clone, PartialEq)]
pub enum ParserError {
    /// The input does not have the shape of a document.
    InvalidFormat(String),
    /// The document holds something that markup cannot express.
    UnsupportedOperation(String),
    /// The input is not JSON.
    JsonError(String),
}

/// The mathematical value of a [`ParserError`].
pub enum ParserErrorView {
    InvalidFormat(Seq<char>),
    UnsupportedOperation(Seq<char>),
    JsonError(Seq<char>),
}

impl View for ParserError {
    type V = ParserErrorView;

    open spec fn view(&self) -> ParserErrorView {
        match self {
            ParserError::InvalidFormat(m) => ParserErrorView::InvalidFormat(m@),
            ParserError::UnsupportedOperation(m) => ParserErrorView::UnsupportedOperation(m@),
            ParserError::JsonError(m) => ParserErrorView::JsonError(m@),
        }
    }
}

/// An error in words.
pub open spec fn error_message(e: ParserErrorView) -> Seq<char> {
    match e {
        ParserErrorView::InvalidFormat(m) => "Invalid Quill Delta format: "@ + m,
        ParserErrorView::UnsupportedOperation(m) => "Unsupported operation: "@ + m,
        ParserErrorView::JsonError(m) => "JSON parsing error: "@ + m,
    }
}

impl ParserError {
    /// The error in words.
    pub fn message(&self) -> (r: String)
        ensures
            r@ == error_message(self@),
    {
        match self {
            ParserError::InvalidFormat(m) => {
                let mut out = String::from_str("Invalid Quill Delta format: ");
                out.append(m.as_str());
                out
            },
            ParserError::UnsupportedOperation(m) => {
                let mut out = String::from_str("Unsupported operation: ");
                out.append(m.as_str());
                out
            },
            ParserError::JsonError(m) => {
                let mut out = String::from_str("JSON parsing error: ");
                out.append(m.as_str());
                out
            },
        }
    }
}

/// The view of a result that carries text.
pub open spec fn text_result(r: Result<String, ParserError>) -> Result<Seq<char>, ParserErrorView> {
    match r {
        Ok(s) => Ok(s@),
        Err(e) => Err(e@),
    }
}

/// The kind of a list.
#[derive(Debug, Clone, Copy, PartialEq, Eq, Structural)]
pub enum ListType {
    Bullet,
    Ordered,
}

/// What the attributes of a line break say of a list item.
#[derive(Debug, Clone, Copy)]
pub struct ListInfo {
    pub list_type: ListType,
    pub indent_level: u64,
}

/// What has been read of a document: the markup of the finished lines, the
/// markup of the line that is still open, and the kinds of the lists that
/// are open, outermost first.
pub struct Progress {
    pub output: Seq<char>,
    pub line: Seq<char>,
    pub levels: Seq<ListType>,
}

/// The attributes of an operation, where it has an object of them.
pub open spec fn attributes_of(op: JsonView) -> Option<Seq<(Seq<char>, JsonView)>> {
    match op.get("attributes"@) {
        Some(JsonView::Object(members)) => Some(members),
        _ => None,
    }
}

/// A run of text inside its inline markers. Bold is innermost, then italic,
/// underline and strike; code is outermost. Only an attribute that is `true`
/// adds its marker; any other attribute, and any other value, adds nothing.
pub open spec fn inline_markup(
    text: Seq<char>,
    attributes: Option<Seq<(Seq<char>, JsonView)>>,
) -> Seq<char> {
    match attributes {
        None => text,
        Some(attrs) => {
            let bold = if flag(attrs, "bold"@) {
                "*"@ + text + "*"@
            } else {
                text
            };
            let italic = if flag(attrs, "italic"@) {
                "_"@ + bold + "_"@
            } else {
                bold
            };
            let underline = if flag(attrs, "underline"@) {
                "#underline["@ + italic + "]"@
            } else {
                italic
            };
            let strike = if flag(attrs, "strike"@) {
                "#strike["@ + underline + "]"@
            } else {
                underline
            };
            if flag(attrs, "code"@) {
                "`"@ + strike + "`"@
            } else {
                strike
            }
        },
    }
}

/// The level of a header, where the attributes give one.
pub open spec fn header_level(attrs: Seq<(Seq<char>, JsonView)>) -> Option<u64> {
    match lookup(attrs, "header"@) {
        Some(v) => v.as_u64(),
        None => None,
    }
}

/// A line inside its block markers: header first, then block quote, then
/// code block.
pub open spec fn block_markup(text: Seq<char>, attrs: Seq<(Seq<char>, JsonView)>) -> Seq<char> {
    let header = match header_level(attrs) {
        Some(level) => repeated("="@, level as nat) + " "@ + text,
        None => text,
    };
    let quote = if flag(attrs, "blockquote"@) {
        "> "@ + header
    } else {
        header
    };
    if flag(attrs, "code-block"@) {
        "```\n"@ + quote + "\n```"@
    } else {
        quote
    }
}

/// The indent of a list item: the attribute `indent`, or 0.
pub open spec fn indent_of(attrs: Seq<(Seq<char>, JsonView)>) -> u64 {
    match lookup(attrs, "indent"@) {
        Some(v) => match v.as_u64() {
            Some(n) => n,
            None => 0,
        },
        None => 0,
    }
}

/// What the attributes say of a list: `Ok(Some(..))` for an item of a
/// bullet or ordered list, `Ok(None)` where `list` is absent or no string,
/// and `Err` with the string where it names no kind of list.
pub open spec fn list_info(attrs: Seq<(Seq<char>, JsonView)>) -> Result<
    Option<ListInfo>,
    Seq<char>,
> {
    match lookup(attrs, "list"@) {
        Some(JsonView::String(kind)) => if kind == "bullet"@ {
            Ok(Some(ListInfo { list_type: ListType::Bullet, indent_level: indent_of(attrs) }))
        } else if kind == "ordered"@ {
            Ok(Some(ListInfo { list_type: ListType::Ordered, indent_level: indent_of(attrs) }))
        } else {
            Err(kind)
        },
        _ => Ok(None),
    }
}

/// The marker of a list item.
pub open spec fn marker(list_type: ListType) -> Seq<char> {
    match list_type {
        ListType::Bullet => "-"@,
        ListType::Ordered => "+"@,
    }
}

/// The line of a list item: two spaces for each level of indent, the
/// marker, a space, the text and a line break.
pub open spec fn list_item_markup(text: Seq<char>, info: ListInfo) -> Seq<char> {
    repeated("  "@, info.indent_level as nat) + marker(info.list_type) + " "@ + text + "\n"@
}

/// The open lists after an item: those above its level stay, and its own
/// kind comes last.
pub open spec fn entered(levels: Seq<ListType>, info: ListInfo) -> Seq<ListType> {
    if levels.len() > info.indent_level {
        levels.take(info.indent_level as int).push(info.list_type)
    } else {
        levels.push(info.list_type)
    }
}

/// The markup of an embedded object: an image, or nothing for any other.
pub open spec fn embed_markup(embed: Seq<(Seq<char>, JsonView)>) -> Option<Seq<char>> {
    match lookup(embed, "image"@) {
        Some(JsonView::String(url)) => Some("#image(\""@ + url + "\")"@),
        _ => None,
    }
}

/// The output with the line break that ends a run of list items.
pub open spec fn closed_list(p: Progress) -> Seq<char> {
    if p.levels.len() > 0 {
        p.output + "\n"@
    } else {
        p.output
    }
}

/// What a line break does: it ends the open line as a list item, as a
/// block, or as a plain paragraph.
pub open spec fn line_break(p: Progress, attributes: Option<Seq<(Seq<char>, JsonView)>>) -> Result<
    Progress,
    ParserErrorView,
> {
    match attributes {
        Some(attrs) => match list_info(attrs) {
            Err(kind) => Err(
                ParserErrorView::UnsupportedOperation("Unsupported list type: "@ + kind),
            ),
            Ok(Some(info)) => Ok(
                Progress {
                    output: p.output + list_item_markup(p.line, info),
                    line: Seq::empty(),
                    levels: entered(p.levels, info),
                },
            ),
            Ok(None) => {
                let block = block_markup(p.line, attrs);
                let body = closed_list(p) + block;
                Ok(
                    Progress {
                        output: if block.len() > 0 {
                            body + "\n"@
                        } else {
                            body
                        },
                        line: Seq::empty(),
                        levels: Seq::empty(),
                    },
                )
            },
        },
        None => Ok(
            Progress {
                output: closed_list(p) + p.line + "\n"@,
                line: Seq::empty(),
                levels: Seq::empty(),
            },
        ),
    }
}

/// What one operation does.
pub open spec fn step(p: Progress, op: JsonView) -> Result<Progress, ParserErrorView> {
    if op.get("retain"@) is Some {
        Err(
            ParserErrorView::UnsupportedOperation(
                "Retain operations are not supported in document parsing"@,
            ),
        )
    } else if op.get("delete"@) is Some {
        Err(
            ParserErrorView::UnsupportedOperation(
                "Delete operations are not supported in document parsing"@,
            ),
        )
    } else {
        match op.get("insert"@) {
            None => Ok(p),
            Some(JsonView::String(text)) => if text == "\n"@ {
                line_break(p, attributes_of(op))
            } else {
                Ok(
                    Progress {
                        output: p.output,
                        line: p.line + inline_markup(text, attributes_of(op)),
                        levels: p.levels,
                    },
                )
            },
            Some(JsonView::Object(embed)) => match embed_markup(embed) {
                Some(markup) => Ok(
                    Progress { output: p.output, line: p.line + markup, levels: p.levels },
                ),
                None => Err(
                    ParserErrorView::UnsupportedOperation(
                        "Unsupported embed type: "@ + members_debug_text(embed),
                    ),
                ),
            },
            Some(other) => Err(
                ParserErrorView::InvalidFormat("Unsupported insert type: "@ + debug_text(other)),
            ),
        }
    }
}

/// What a sequence of operations does, from an empty document on. The first
/// operation that is refused ends it.
pub open spec fn run(ops: Seq<JsonView>) -> Result<Progress, ParserErrorView>
    decreases ops.len(),
{
    if ops.len() == 0 {
        Ok(Progress { output: Seq::empty(), line: Seq::empty(), levels: Seq::empty() })
    } else {
        match run(ops.drop_last()) {
            Ok(p) => step(p, ops.last()),
            Err(e) => Err(e),
        }
    }
}

/// The markup of a document: what its operations give, with the open line
/// added and white space at the end removed.
pub open spec fn transpile(document: JsonView) -> Result<Seq<char>, ParserErrorView> {
    match document.get("ops"@) {
        Some(JsonView::Array(ops)) => match run(ops) {
            Ok(p) => Ok(trimmed_end(p.output + p.line)),
            Err(e) => Err(e),
        },
        _ => Err(ParserErrorView::InvalidFormat("Missing ops array"@)),
    }
}

/// The markup of a document that is given as JSON text.
pub open spec fn transpile_text(text: Seq<char>) -> Result<Seq<char>, ParserErrorView> {
    match parsed_json(text) {
        Ok(document) => transpile(document),
        Err(m) => Err(ParserErrorView::JsonError(m)),
    }
}

/// Once a prefix of the operations is refused, so is the whole, with the
/// same error.
pub proof fn lemma_run_keeps_error(ops: Seq<JsonView>, n: int)
    requires
        0 <= n <= ops.len(),
        run(ops.take(n)) is Err,
    ensures
        run(ops) == run(ops.take(n)),
    decreases ops.len(),
{
    if n < ops.len() {
        assert(ops.drop_last().take(n) == ops.take(n));
        lemma_run_keeps_error(ops.drop_last(), n);
    } else {
        assert(ops.take(n) == ops);
    }
}

/// Whether an operation carries `retain` or `delete`.
pub open spec fn is_change(op: JsonView) -> bool {
    op.get("retain"@) is Some || op.get("delete"@) is Some
}

/// Whether an operation inserts something that is neither text nor an
/// object.
pub open spec fn inserts_other(op: JsonView) -> bool {
    !is_change(op) && match op.get("insert"@) {
        Some(JsonView::String(_)) => false,
        Some(JsonView::Object(_)) => false,
        Some(_) => true,
        None => false,
    }
}

/// Operations in which none before `n` inserts anything but text and
/// objects are refused, if at all, as unsupported.
pub proof fn lemma_run_error_kind(ops: Seq<JsonView>, n: int)
    requires
        0 <= n <= ops.len(),
        forall|j: int| 0 <= j < n ==> !inserts_other(#[trigger] ops[j]),
    ensures
        run(ops.take(n)) is Err ==> run(ops.take(n))->Err_0 is UnsupportedOperation,
    decreases n,
{
    if n > 0 {
        assert(ops.take(n).drop_last() == ops.take(n - 1));
        lemma_run_error_kind(ops, n - 1);
        assert(!inserts_other(ops[n - 1]));
    }
}

/// Whether some operation of a document carries `retain` or `delete`.
pub open spec fn has_change(document: JsonView) -> bool {
    match document.get("ops"@) {
        Some(JsonView::Array(ops)) => exists|k: int| 0 <= k < ops.len() && is_change(#[trigger] ops[k]),
        _ => false,
    }
}

/// A document with an operation that carries `retain` or `delete` gives no
/// markup.
pub proof fn lemma_change_gives_no_markup(document: JsonView, ops: Seq<JsonView>, k: int)
    requires
        document.get("ops"@) == Some(JsonView::Array(ops)),
        0 <= k < ops.len(),
        is_change(ops[k]),
    ensures
        transpile(document) is Err,
{
    assert(ops.take(k + 1).drop_last() == ops.take(k));
    lemma_run_keeps_error(ops, k + 1);
}

/// A document with an operation that carries `retain` or `delete` is refused
/// as unsupported, provided that no operation before it inserts anything
/// but text and objects.
pub proof fn lemma_change_is_unsupported(document: JsonView, ops: Seq<JsonView>, k: int)
    requires
        document.get("ops"@) == Some(JsonView::Array(ops)),
        0 <= k < ops.len(),
        is_change(ops[k]),
        forall|j: int| 0 <= j < k ==> !inserts_other(#[trigger] ops[j]),
    ensures
        transpile(document) is Err,
        transpile(document)->Err_0 is UnsupportedOperation,
{
    assert(ops.take(k + 1).drop_last() == ops.take(k));
    lemma_run_error_kind(ops, k);
    lemma_run_keeps_error(ops, k + 1);
}

/// Turns rich-text documents into markup.
pub struct DeltaParser {}

/// Whether the member `key` is there and is `true`.
fn has_flag(members: &Vec<Member>, key: &str) -> (r: bool)
    ensures
        r == flag(members_view(members@), key@),
{
    match get_member(members, key) {
        Some(Json::Bool(b)) => *b,
        _ => false,
    }
}

/// The member `key` as an unsigned integer, where it is one.
fn unsigned_member(members: &Vec<Member>, key: &str) -> (r: Option<u64>)
    ensures
        r == match lookup(members_view(members@), key@) {
            Some(v) => v.as_u64(),
            None => None,
        },
{
    match get_member(members, key) {
        Some(v) => v.as_u64(),
        None => None,
    }
}

/// `open`, `text` and `close` in a row.
fn wrap(open: &str, text: String, close: &str) -> (r: String)
    ensures
        r@ == open@ + text@ + close@,
{
    let mut out = String::from_str(open);
    out.append(text.as_str());
    out.append(close);
    out
}

/// The attributes of an operation, where it has an object of them.
fn attributes<'a>(op: &'a Json) -> (r: Option<&'a Vec<Member>>)
    ensures
        match r {
            Some(members) => attributes_of(op@) == Some(members_view(members@)),
            None => attributes_of(op@) is None,
        },
{
    match op.get("attributes") {
        Some(Json::Object(members)) => {
            proof {
                lemma_object_view(*members);
            }
            Some(members)
        },
        _ => None,
    }
}

/// The view of optional attributes.
pub open spec fn attributes_view(attributes: Option<&Vec<Member>>) -> Option<
    Seq<(Seq<char>, JsonView)>,
> {
    match attributes {
        Some(members) => Some(members_view(members@)),
        None => None,
    }
}

impl DeltaParser {
    /// A parser. It holds nothing: what a call needs lives and dies with it.
    pub fn new() -> (r: Self) {
        DeltaParser {  }
    }

    /// Reads a document from JSON text and turns it into markup.
    pub fn parse(&self, delta_json: &str) -> (r: Result<String, ParserError>)
        ensures
            text_result(r) == transpile_text(delta_json@),
            parsed_json(delta_json@) matches Ok(document) ==> (has_change(document) ==> r is Err),
    {
        match parse_text(delta_json) {
            Ok(document) => self.convert_json_to_typst(&document),
            Err(failure) => Err(ParserError::JsonError(failure.message)),
        }
    }

    /// Turns a document into markup.
    pub fn convert_json_to_typst(&self, json_value: &Json) -> (r: Result<String, ParserError>)
        ensures
            text_result(r) == transpile(json_value@),
            has_change(json_value@) ==> r is Err,
    {
        proof {
            if has_change(json_value@) {
                let ops = json_value@.get("ops"@)->Some_0->Array_0;
                let k = choose|k: int| 0 <= k < ops.len() && is_change(#[trigger] ops[k]);
                lemma_change_gives_no_markup(json_value@, ops, k);
            }
        }
        let ops: &Vec<Json> = match json_value.get("ops") {
            Some(Json::Array(items)) => {
                proof {
                    lemma_array_view(*items);
                }
                items
            },
            _ => {
                return Err(ParserError::InvalidFormat(String::from_str("Missing ops array")));
            },
        };
        let ghost all = items_view(ops@);
        let mut result = String::new();
        let mut current_line = String::new();
        let mut levels: Vec<ListType> = Vec::new();
        let mut i: usize = 0;
        while i < ops.len()
            invariant
                i <= ops.len(),
                all == items_view(ops@),
                json_value@.get("ops"@) == Some(JsonView::Array(all)),
                run(all.take(i as int)) == Ok::<Progress, ParserErrorView>(
                    Progress { output: result@, line: current_line@, levels: levels@ },
                ),
            decreases ops.len() - i,
        {
            let ghost before = Progress { output: result@, line: current_line@, levels: levels@ };
            proof {
                assert(all.take(i + 1).drop_last() == all.take(i as int));
                assert(all.take(i + 1).last() == ops@[i as int]@);
                assert(run(all.take(i + 1)) == step(before, ops@[i as int]@));
            }
            match self.apply_operation(&ops[i], &mut result, &mut current_line, &mut levels) {
                Ok(()) => {},
                Err(e) => {
                    proof {
                        lemma_run_keeps_error(all, i + 1);
                    }
                    return Err(e);
                },
            }
            i += 1;
        }
        proof {
            assert(all.take(i as int) == all);
        }
        result.append(current_line.as_str());
        Ok(trim_end(result.as_str()))
    }

    /// Applies one operation to what has been read so far.
    fn apply_operation(
        &self,
        op: &Json,
        result: &mut String,
        current_line: &mut String,
        levels: &mut Vec<ListType>,
    ) -> (r: Result<(), ParserError>)
        ensures
            match r {
                Ok(()) => step(
                    Progress {
                        output: old(result)@,
                        line: old(current_line)@,
                        levels: old(levels)@,
                    },
                    op@,
                ) == Ok::<Progress, ParserErrorView>(
                    Progress {
                        output: final(result)@,
                        line: final(current_line)@,
                        levels: final(levels)@,
                    },
                ),
                Err(e) => step(
                    Progress {
                        output: old(result)@,
                        line: old(current_line)@,
                        levels: old(levels)@,
                    },
                    op@,
                ) == Err::<Progress, ParserErrorView>(e@),
            },
    {
        if op.get("retain").is_some() {
            return Err(
                ParserError::UnsupportedOperation(
                    String::from_str("Retain operations are not supported in document parsing"),
                ),
            );
        }
        if op.get("delete").is_some() {
            return Err(
                ParserError::UnsupportedOperation(
                    String::from_str("Delete operations are not supported in document parsing"),
                ),
            );
        }
        let attrs = attributes(op);
        match op.get("insert") {
            None => Ok(()),
            Some(Json::String(text)) => {
                if str_eq(text.as_str(), "\n") {
                    self.handle_newline(attrs, result, current_line, levels)
                } else {
                    let formatted = self.apply_text_formatting(text.as_str(), attrs);
                    current_line.append(formatted.as_str());
                    Ok(())
                }
            },
            Some(Json::Object(embed)) => {
                proof {
                    lemma_object_view(*embed);
                }
                match self.handle_embed(embed) {
                    Ok(markup) => {
                        current_line.append(markup.as_str());
                        Ok(())
                    },
                    Err(e) => Err(e),
                }
            },
            Some(other) => {
                let mut message = String::from_str("Unsupported insert type: ");
                let shown = debug_string(other);
                message.append(shown.as_str());
                Err(ParserError::InvalidFormat(message))
            },
        }
    }

    /// Ends the open line at a line break.
    fn handle_newline(
        &self,
        attributes: Option<&Vec<Member>>,
        result: &mut String,
        current_line: &mut String,
        levels: &mut Vec<ListType>,
    ) -> (r: Result<(), ParserError>)
        ensures
            match r {
                Ok(()) => line_break(
                    Progress {
                        output: old(result)@,
                        line: old(current_line)@,
                        levels: old(levels)@,
                    },
                    attributes_view(attributes),
                ) == Ok::<Progress, ParserErrorView>(
                    Progress {
                        output: final(result)@,
                        line: final(current_line)@,
                        levels: final(levels)@,
                    },
                ),
                Err(e) => line_break(
                    Progress {
                        output: old(result)@,
                        line: old(current_line)@,
                        levels: old(levels)@,
                    },
                    attributes_view(attributes),
                ) == Err::<Progress, ParserErrorView>(e@),
            },
    {
        match attributes {
            Some(attrs) => {
                match self.extract_list_info(attrs) {
                    Err(e) => {
                        return Err(e);
                    },
                    Ok(Some(info)) => {
                        let item = self.format_list_item(current_line.as_str(), &info);
                        result.append(item.as_str());
                        if levels.len() as u64 > info.indent_level {
                            levels.truncate(info.indent_level as usize);
                        }
                        levels.push(info.list_type);
                    },
                    Ok(None) => {
                        let block = self.handle_line_formatting(current_line.as_str(), attrs);
                        if levels.len() > 0 {
                            result.append("\n");
                        }
                        result.append(block.as_str());
                        if !block.as_str().is_empty() {
                            result.append("\n");
                        }
                        levels.clear();
                    },
                }
            },
            None => {
                if levels.len() > 0 {
                    result.append("\n");
                }
                result.append(current_line.as_str());
                result.append("\n");
                levels.clear();
            },
        }
        *current_line = String::new();
        Ok(())
    }

    /// A run of text inside its inline markers.
    fn apply_text_formatting(&self, text: &str, attributes: Option<&Vec<Member>>) -> (r: String)
        ensures
            r@ == inline_markup(text@, attributes_view(attributes)),
    {
        let mut formatted = String::from_str(text);
        if let Some(attrs) = attributes {
            if has_flag(attrs, "bold") {
                formatted = wrap("*", formatted, "*");
            }
            if has_flag(attrs, "italic") {
                formatted = wrap("_", formatted, "_");
            }
            if has_flag(attrs, "underline") {
                formatted = wrap("#underline[", formatted, "]");
            }
            if has_flag(attrs, "strike") {
                formatted = wrap("#strike[", formatted, "]");
            }
            if has_flag(attrs, "code") {
                formatted = wrap("`", formatted, "`");
            }
        }
        formatted
    }

    /// A line inside its block markers.
    fn handle_line_formatting(&self, text: &str, attributes: &Vec<Member>) -> (r: String)
        ensures
            r@ == block_markup(text@, members_view(attributes@)),
    {
        let mut result = String::from_str(text);
        if let Some(level) = unsigned_member(attributes, "header") {
            let mut header = String::new();
            push_repeated(&mut header, "=", level);
            header.append(" ");
            header.append(result.as_str());
            result = header;
        }
        if has_flag(attributes, "blockquote") {
            let mut quoted = String::from_str("> ");
            quoted.append(result.as_str());
            result = quoted;
        }
        if has_flag(attributes, "code-block") {
            result = wrap("```\n", result, "\n```");
        }
        result
    }

    /// What the attributes of a line break say of a list.
    fn extract_list_info(&self, attributes: &Vec<Member>) -> (r: Result<
        Option<ListInfo>,
        ParserError,
    >)
        ensures
            match r {
                Ok(info) => list_info(members_view(attributes@)) == Ok::<
                    Option<ListInfo>,
                    Seq<char>,
                >(info),
                Err(e) => list_info(members_view(attributes@)) is Err && e@
                    == ParserErrorView::UnsupportedOperation(
                    "Unsupported list type: "@ + list_info(members_view(attributes@))->Err_0,
                ),
            },
    {
        match get_member(attributes, "list") {
            Some(Json::String(kind)) => {
                let indent_level = match unsigned_member(attributes, "indent") {
                    Some(n) => n,
                    None => 0,
                };
                if str_eq(kind.as_str(), "bullet") {
                    Ok(Some(ListInfo { list_type: ListType::Bullet, indent_level }))
                } else if str_eq(kind.as_str(), "ordered") {
                    Ok(Some(ListInfo { list_type: ListType::Ordered, indent_level }))
                } else {
                    let mut message = String::from_str("Unsupported list type: ");
                    message.append(kind.as_str());
                    Err(ParserError::UnsupportedOperation(message))
                }
            },
            _ => Ok(None),
        }
    }

    /// The line of a list item.
    fn format_list_item(&self, text: &str, list_info: &ListInfo) -> (r: String)
        ensures
            r@ == list_item_markup(text@, *list_info),
    {
        let mut out = String::new();
        push_repeated(&mut out, "  ", list_info.indent_level);
        match list_info.list_type {
            ListType::Bullet => out.append("-"),
            ListType::Ordered => out.append("+"),
        }
        out.append(" ");
        out.append(text);
        out.append("\n");
        out
    }

    /// The markup of an embedded object.
    fn handle_embed(&self, embed: &Vec<Member>) -> (r: Result<String, ParserError>)
        ensures
            match r {
                Ok(markup) => embed_markup(members_view(embed@)) == Some(markup@),
                Err(e) => embed_markup(members_view(embed@)) is None && e@
                    == ParserErrorView::UnsupportedOperation(
                    "Unsupported embed type: "@ + members_debug_text(members_view(embed@)),
                ),
            },
    {
        match get_member(embed, "image") {
            Some(Json::String(url)) => {
                let mut out = String::from_str("#image(\"");
                out.append(url.as_str());
                out.append("\")");
                Ok(out)
            },
            _ => {
                let mut message = String::from_str("Unsupported embed type: ");
                let shown = members_debug_string(embed);
                message.append(shown.as_str());
                Err(ParserError::UnsupportedOperation(message))
            },
        }
    }
}

impl Default for DeltaParser {
    fn default() -> Self {
        DeltaParser::new()
    }
}

} // verus!
