//! JSON values as the rest of the library reads them.
//!
//! Text is turned into values, and values back into text, by `serde_json`.
//! Everything between works on [`Json`], whose view [`JsonView`] is the
//! mathematical value that the contracts of this crate speak of.

use vstd::prelude::*;
use vstd::string::*;
use crate::text::str_eq;

verus! {

/// A JSON number: its canonical text, and its value where it is a
/// non-negative integer below 2^64.
#[derive(Debug)]
pub struct JsonNumber {
    unsigned: Option<u64>,
    text: String,
}

/// The mathematical value of a [`JsonNumber`].
pub struct NumberView {
    pub unsigned: Option<u64>,
    pub text: Seq<char>,
}

impl View for JsonNumber {
    type V = NumberView;

    closed spec fn view(&self) -> NumberView {
        NumberView { unsigned: self.unsigned, text: self.text@ }
    }
}

impl JsonNumber {
    /// The number as an unsigned integer, where it is one.
    pub fn as_u64(&self) -> (r: Option<u64>)
        ensures
            r == self@.unsigned,
    {
        self.unsigned
    }

    /// The number as `serde_json` writes it.
    pub fn text(&self) -> (r: &str)
        ensures
            r@ == self@.text,
    {
        self.text.as_str()
    }

    /// A copy of this number.
    pub fn duplicate(&self) -> (r: JsonNumber)
        ensures
            r@ == self@,
    {
        JsonNumber { unsigned: self.unsigned, text: self.text.clone() }
    }
}

/// One member of a JSON object.
#[derive(Debug)]
pub struct Member {
    pub name: String,
    pub value: Json,
}

/// A JSON value. An object keeps its members in a sequence; where a name
/// occurs twice, the first member of that name is the one that is read.
#[derive(Debug)]
pub enum Json {
    Null,
    Bool(bool),
    Number(JsonNumber),
    String(String),
    Array(Vec<Json>),
    Object(Vec<Member>),
}

/// The mathematical value of a [`Json`].
pub enum JsonView {
    Null,
    Bool(bool),
    Number(NumberView),
    String(Seq<char>),
    Array(Seq<JsonView>),
    Object(Seq<(Seq<char>, JsonView)>),
}

/// The value of a [`Json`].
pub open spec fn json_view(value: Json) -> JsonView
    decreases value,
{
    match value {
        Json::Null => JsonView::Null,
        Json::Bool(b) => JsonView::Bool(b),
        Json::Number(n) => JsonView::Number(n@),
        Json::String(s) => JsonView::String(s@),
        Json::Array(items) => JsonView::Array(
            Seq::new(
                items@.len(),
                |i: int|
                    if 0 <= i < items@.len() {
                        json_view(items@[i])
                    } else {
                        JsonView::Null
                    },
            ),
        ),
        Json::Object(members) => JsonView::Object(
            Seq::new(
                members@.len(),
                |i: int|
                    if 0 <= i < members@.len() {
                        (members@[i].name@, json_view(members@[i].value))
                    } else {
                        (Seq::empty(), JsonView::Null)
                    },
            ),
        ),
    }
}

impl View for Json {
    type V = JsonView;

    open spec fn view(&self) -> JsonView {
        json_view(*self)
    }
}

/// The values of a sequence of items.
pub open spec fn items_view(items: Seq<Json>) -> Seq<JsonView> {
    Seq::new(items.len(), |i: int| items[i]@)
}

/// The names and values of a sequence of members.
pub open spec fn members_view(members: Seq<Member>) -> Seq<(Seq<char>, JsonView)> {
    Seq::new(members.len(), |i: int| (members[i].name@, members[i].value@))
}

/// The view of an array is the views of its items.
pub proof fn lemma_array_view(items: Vec<Json>)
    ensures
        Json::Array(items)@ == JsonView::Array(items_view(items@)),
{
    assert(Json::Array(items)@->Array_0 =~= items_view(items@));
}

/// The view of an object is the views of its members.
pub proof fn lemma_object_view(members: Vec<Member>)
    ensures
        Json::Object(members)@ == JsonView::Object(members_view(members@)),
{
    assert(Json::Object(members)@->Object_0 =~= members_view(members@));
}

/// The index of the first member called `key`; the number of members where
/// there is none.
pub open spec fn position(members: Seq<(Seq<char>, JsonView)>, key: Seq<char>) -> int
    decreases members.len(),
{
    if members.len() == 0 {
        0
    } else if members[0].0 == key {
        0
    } else {
        1 + position(members.skip(1), key)
    }
}

/// Whether some member is called `key`.
pub open spec fn has_key(members: Seq<(Seq<char>, JsonView)>, key: Seq<char>) -> bool {
    position(members, key) < members.len()
}

/// The value of the first member called `key`.
pub open spec fn lookup(members: Seq<(Seq<char>, JsonView)>, key: Seq<char>) -> Option<
    JsonView,
> {
    if has_key(members, key) {
        Some(members[position(members, key)].1)
    } else {
        None
    }
}

/// The members with `key` set to `value`: in place of the first member of
/// that name, or at the end where there is none.
pub open spec fn with_member(
    members: Seq<(Seq<char>, JsonView)>,
    key: Seq<char>,
    value: JsonView,
) -> Seq<(Seq<char>, JsonView)> {
    if has_key(members, key) {
        members.update(position(members, key), (key, value))
    } else {
        members.push((key, value))
    }
}

/// `position` is the least index of a member of that name.
pub proof fn lemma_position(members: Seq<(Seq<char>, JsonView)>, key: Seq<char>)
    ensures
        0 <= position(members, key) <= members.len(),
        position(members, key) < members.len() ==> members[position(members, key)].0 == key,
        forall|j: int| 0 <= j < position(members, key) ==> (#[trigger] members[j]).0 != key,
    decreases members.len(),
{
    if members.len() > 0 && members[0].0 != key {
        let rest = members.skip(1);
        lemma_position(rest, key);
        assert forall|j: int| 0 <= j < position(members, key) implies (#[trigger] members[j]).0
            != key by {
            if j > 0 {
                assert(members[j] == rest[j - 1]);
            }
        }
    }
}

/// An index whose member is the first of its name is the `position`.
pub proof fn lemma_position_is(members: Seq<(Seq<char>, JsonView)>, key: Seq<char>, i: int)
    requires
        0 <= i <= members.len(),
        i < members.len() ==> members[i].0 == key,
        forall|j: int| 0 <= j < i ==> (#[trigger] members[j]).0 != key,
    ensures
        position(members, key) == i,
{
    lemma_position(members, key);
    let p = position(members, key);
    if p < i {
        assert(members[p].0 != key);
    } else if i < p {
        assert(members[i].0 != key);
    }
}

/// Members that agree in their names have the first member of each name at
/// the same index.
pub proof fn lemma_position_same_names(
    a: Seq<(Seq<char>, JsonView)>,
    b: Seq<(Seq<char>, JsonView)>,
    key: Seq<char>,
)
    requires
        a.len() == b.len(),
        forall|i: int| 0 <= i < a.len() ==> (#[trigger] a[i]).0 == b[i].0,
    ensures
        position(a, key) == position(b, key),
{
    lemma_position(a, key);
    let p = position(a, key);
    assert forall|j: int| 0 <= j < p implies (#[trigger] b[j]).0 != key by {
        assert(a[j].0 != key);
    }
    if p < a.len() {
        assert(a[p].0 == b[p].0);
    }
    lemma_position_is(b, key, p);
}

/// Where the first member of a name stands after one more member is added
/// at the end.
pub proof fn lemma_position_push(
    members: Seq<(Seq<char>, JsonView)>,
    name: Seq<char>,
    value: JsonView,
    key: Seq<char>,
)
    ensures
        position(members.push((name, value)), key) == if has_key(members, key) {
            position(members, key)
        } else if name == key {
            members.len() as int
        } else {
            members.len() as int + 1
        },
{
    lemma_position(members, key);
    let longer = members.push((name, value));
    let p = position(members, key);
    assert forall|j: int| 0 <= j < p implies (#[trigger] longer[j]).0 != key by {
        assert(members[j].0 != key);
    }
    if p < members.len() {
        assert(longer[p] == members[p]);
        lemma_position_is(longer, key, p);
    } else if name == key {
        lemma_position_is(longer, key, p);
    } else {
        lemma_position_is(longer, key, p + 1);
    }
}

impl JsonView {
    /// The value of the member `key`, where this is an object that has one.
    pub open spec fn get(self, key: Seq<char>) -> Option<JsonView> {
        match self {
            JsonView::Object(members) => lookup(members, key),
            _ => None,
        }
    }

    /// The text, where this is a string.
    pub open spec fn as_str(self) -> Option<Seq<char>> {
        match self {
            JsonView::String(s) => Some(s),
            _ => None,
        }
    }

    /// The truth value, where this is one.
    pub open spec fn as_bool(self) -> Option<bool> {
        match self {
            JsonView::Bool(b) => Some(b),
            _ => None,
        }
    }

    /// The number, where this is a non-negative integer below 2^64.
    pub open spec fn as_u64(self) -> Option<u64> {
        match self {
            JsonView::Number(n) => n.unsigned,
            _ => None,
        }
    }
}

/// Whether the member `key` is there and is `true`.
pub open spec fn flag(members: Seq<(Seq<char>, JsonView)>, key: Seq<char>) -> bool {
    lookup(members, key) == Some(JsonView::Bool(true))
}

/// The index of the first member called `key`.
pub fn find_member(members: &Vec<Member>, key: &str) -> (r: Option<usize>)
    ensures
        r is Some <==> has_key(members_view(members@), key@),
        r is Some ==> r->Some_0 == position(members_view(members@), key@),
{
    let ghost view = members_view(members@);
    let mut i: usize = 0;
    while i < members.len()
        invariant
            i <= members.len(),
            view == members_view(members@),
            forall|j: int| 0 <= j < i ==> (#[trigger] view[j]).0 != key@,
        decreases members.len() - i,
    {
        if str_eq(members[i].name.as_str(), key) {
            proof {
                lemma_position_is(view, key@, i as int);
            }
            return Some(i);
        }
        i += 1;
    }
    proof {
        lemma_position_is(view, key@, i as int);
    }
    None
}

/// The value of the first member called `key`.
pub fn get_member<'a>(members: &'a Vec<Member>, key: &str) -> (r: Option<&'a Json>)
    ensures
        r is Some <==> lookup(members_view(members@), key@) is Some,
        r is Some ==> r->Some_0@ == lookup(members_view(members@), key@)->Some_0,
{
    match find_member(members, key) {
        Some(i) => Some(&members[i].value),
        None => None,
    }
}

/// Sets the member `key` to `value`: in place of the first member of that
/// name, or at the end where there is none.
pub fn set_member(members: &mut Vec<Member>, key: String, value: Json)
    ensures
        members_view(final(members)@) == with_member(
            members_view(old(members)@),
            key@,
            value@,
        ),
{
    match find_member(members, key.as_str()) {
        Some(i) => {
            members.set(i, Member { name: key, value });
            assert(members_view(members@) =~= with_member(
                members_view(old(members)@),
                key@,
                value@,
            ));
        },
        None => {
            members.push(Member { name: key, value });
            assert(members_view(members@) =~= with_member(
                members_view(old(members)@),
                key@,
                value@,
            ));
        },
    }
}

impl Json {
    /// The value of the member `key`, where this is an object that has one.
    pub fn get<'a>(&'a self, key: &str) -> (r: Option<&'a Json>)
        ensures
            r is Some <==> self@.get(key@) is Some,
            r is Some ==> r->Some_0@ == self@.get(key@)->Some_0,
    {
        match self {
            Json::Object(members) => {
                proof {
                    lemma_object_view(*members);
                }
                get_member(members, key)
            },
            _ => None,
        }
    }

    /// The text, where this is a string.
    pub fn as_str<'a>(&'a self) -> (r: Option<&'a str>)
        ensures
            r is Some <==> self@.as_str() is Some,
            r is Some ==> r->Some_0@ == self@.as_str()->Some_0,
    {
        match self {
            Json::String(s) => Some(s.as_str()),
            _ => None,
        }
    }

    /// The truth value, where this is one.
    pub fn as_bool(&self) -> (r: Option<bool>)
        ensures
            r == self@.as_bool(),
    {
        match self {
            Json::Bool(b) => Some(*b),
            _ => None,
        }
    }

    /// The number, where this is a non-negative integer below 2^64.
    pub fn as_u64(&self) -> (r: Option<u64>)
        ensures
            r == self@.as_u64(),
    {
        match self {
            Json::Number(n) => n.as_u64(),
            _ => None,
        }
    }

    /// Whether this is null.
    pub fn is_null(&self) -> (r: bool)
        ensures
            r == (self@ is Null),
    {
        match self {
            Json::Null => true,
            _ => false,
        }
    }

    /// A copy of this value.
    pub fn duplicate(&self) -> (r: Json)
        ensures
            r@ == self@,
        decreases self,
    {
        match self {
            Json::Null => Json::Null,
            Json::Bool(b) => Json::Bool(*b),
            Json::Number(n) => Json::Number(n.duplicate()),
            Json::String(s) => Json::String(s.clone()),
            Json::Array(items) => {
                let mut out: Vec<Json> = Vec::new();
                let mut i: usize = 0;
                while i < items.len()
                    invariant
                        *self == Json::Array(*items),
                        i <= items.len(),
                        out.len() == i,
                        forall|j: int| 0 <= j < i ==> (#[trigger] out@[j])@ == items@[j]@,
                    decreases items.len() - i,
                {
                    assert(decreases_to!(self => items[i as int])) by {
                        assert(self->Array_0 == *items);
                        assert(decreases_to!(*self => self->Array_0));
                        assert(decreases_to!(items => items[i as int]));
                    }
                    out.push(items[i].duplicate());
                    i += 1;
                }
                proof {
                    lemma_array_view(out);
                    lemma_array_view(*items);
                    assert(items_view(out@) =~= items_view(items@));
                }
                Json::Array(out)
            },
            Json::Object(members) => {
                let mut out: Vec<Member> = Vec::new();
                let mut i: usize = 0;
                while i < members.len()
                    invariant
                        *self == Json::Object(*members),
                        i <= members.len(),
                        out.len() == i,
                        forall|j: int|
                            0 <= j < i ==> (#[trigger] out@[j]).name@ == members@[j].name@
                                && out@[j].value@ == members@[j].value@,
                    decreases members.len() - i,
                {
                    assert(decreases_to!(self => members[i as int].value)) by {
                        assert(self->Object_0 == *members);
                        assert(decreases_to!(*self => self->Object_0));
                        assert(decreases_to!(members => members[i as int]));
                    }
                    out.push(
                        Member { name: members[i].name.clone(), value: members[i].value.duplicate() },
                    );
                    i += 1;
                }
                proof {
                    lemma_object_view(out);
                    lemma_object_view(*members);
                    assert(members_view(out@) =~= members_view(members@));
                }
                Json::Object(out)
            },
        }
    }
}

/// What `serde_json::from_str` makes of a text: the value that it reads,
/// or what it says of a text that it refuses.
pub uninterp spec fn parsed_json(text: Seq<char>) -> Result<JsonView, Seq<char>>;

/// What `serde_json::to_string` makes of a value: the text that it writes,
/// or what it says where it fails.
pub uninterp spec fn compact_text(value: JsonView) -> Result<Seq<char>, Seq<char>>;

/// What `serde_json::to_string_pretty` makes of a value: the text that it
/// writes, or what it says where it fails.
pub uninterp spec fn pretty_text(value: JsonView) -> Result<Seq<char>, Seq<char>>;

/// How `serde_json::Value` shows itself under `{:?}`.
pub uninterp spec fn debug_text(value: JsonView) -> Seq<char>;

/// How a `serde_json::Map` of these members shows itself under `{:?}`.
pub uninterp spec fn members_debug_text(members: Seq<(Seq<char>, JsonView)>) -> Seq<char>;

/// A failure of `serde_json`: in words, and as its own error value.
#[derive(Debug)]
pub struct JsonFailure {
    pub message: String,
    pub source: serde_json::Error,
}

/// Whether a result carries this text, or fails with this message.
pub open spec fn gives_text(
    r: Result<String, JsonFailure>,
    expected: Result<Seq<char>, Seq<char>>,
) -> bool {
    match r {
        Ok(text) => expected == Ok::<Seq<char>, Seq<char>>(text@),
        Err(failure) => expected == Err::<Seq<char>, Seq<char>>(failure.message@),
    }
}

/// Whether a result carries this value, or fails with this message.
pub open spec fn gives_value(
    r: Result<Json, JsonFailure>,
    expected: Result<JsonView, Seq<char>>,
) -> bool {
    match r {
        Ok(value) => expected == Ok::<JsonView, Seq<char>>(value@),
        Err(failure) => expected == Err::<JsonView, Seq<char>>(failure.message@),
    }
}

/// `serde_json::Error`, of which nothing is known here.
#[verifier::external_type_specification]
#[verifier::external_body]
pub struct ExJsonError(serde_json::Error);

/// `serde_json::Value`, of which nothing is known here: it only passes
/// between `serde_json` and the two functions that copy it.
#[verifier::external_type_specification]
#[verifier::external_body]
pub struct ExJsonValue(serde_json::Value);

/// Copies a `serde_json::Value` into a [`Json`], variant by variant. A
/// number keeps what `Number::as_u64` and its `Display` give; an object
/// keeps its members in the order in which `serde_json` walks them.
#[verifier::external_body]
fn json_of_value(value: &serde_json::Value) -> Json {
    match value {
        serde_json::Value::Null => Json::Null,
        serde_json::Value::Bool(b) => Json::Bool(*b),
        serde_json::Value::Number(n) => Json::Number(
            JsonNumber { unsigned: n.as_u64(), text: n.to_string() },
        ),
        serde_json::Value::String(s) => Json::String(s.clone()),
        serde_json::Value::Array(a) => Json::Array(a.iter().map(json_of_value).collect()),
        serde_json::Value::Object(o) => Json::Object(
            o.iter().map(|(k, v)| Member { name: k.clone(), value: json_of_value(v) }).collect(),
        ),
    }
}

/// Copies a [`Json`] into a `serde_json::Value`, variant by variant. A
/// number is read back from its text; text that is no number gives `null`.
#[verifier::external_body]
fn value_of_json(value: &Json) -> serde_json::Value {
    match value {
        Json::Null => serde_json::Value::Null,
        Json::Bool(b) => serde_json::Value::Bool(*b),
        Json::Number(n) => match serde_json::from_str::<serde_json::Number>(&n.text) {
            Ok(number) => serde_json::Value::Number(number),
            Err(_) => serde_json::Value::Null,
        },
        Json::String(s) => serde_json::Value::String(s.clone()),
        Json::Array(a) => serde_json::Value::Array(a.iter().map(value_of_json).collect()),
        Json::Object(o) => serde_json::Value::Object(
            o.iter().map(|m| (m.name.clone(), value_of_json(&m.value))).collect(),
        ),
    }
}

/// `serde_json::from_str`, read as a `serde_json::Value`: whether it takes
/// the text, the value that it reads and the `Display` form of its error
/// depend on the text alone.
#[verifier::external_body]
pub(crate) fn parse_text(text: &str) -> (r: Result<Json, JsonFailure>)
    ensures
        gives_value(r, parsed_json(text@)),
{
    match serde_json::from_str::<serde_json::Value>(text) {
        Ok(value) => Ok(json_of_value(&value)),
        Err(e) => Err(JsonFailure { message: e.to_string(), source: e }),
    }
}

/// `serde_json::to_string` on the value: whether it succeeds, the text
/// that it writes and the `Display` form of its error depend on the value
/// alone.
#[verifier::external_body]
pub(crate) fn write_compact(value: &Json) -> (r: Result<String, JsonFailure>)
    ensures
        gives_text(r, compact_text(value@)),
{
    match serde_json::to_string(&value_of_json(value)) {
        Ok(text) => Ok(text),
        Err(e) => Err(JsonFailure { message: e.to_string(), source: e }),
    }
}

/// `serde_json::to_string_pretty` on the value: whether it succeeds, the
/// text that it writes and the `Display` form of its error depend on the
/// value alone.
#[verifier::external_body]
pub(crate) fn write_pretty(value: &Json) -> (r: Result<String, JsonFailure>)
    ensures
        gives_text(r, pretty_text(value@)),
{
    match serde_json::to_string_pretty(&value_of_json(value)) {
        Ok(text) => Ok(text),
        Err(e) => Err(JsonFailure { message: e.to_string(), source: e }),
    }
}

/// The `Debug` form of `serde_json::Value`, which depends on the value
/// alone.
#[verifier::external_body]
pub(crate) fn debug_string(value: &Json) -> (r: String)
    ensures
        r@ == debug_text(value@),
{
    format!("{:?}", value_of_json(value))
}

/// The `Debug` form of a `serde_json::Map` that holds these members, which
/// depends on the members alone.
#[verifier::external_body]
pub(crate) fn members_debug_string(members: &Vec<Member>) -> (r: String)
    ensures
        r@ == members_debug_text(members_view(members@)),
{
    let map: serde_json::Map<String, serde_json::Value> = members.iter().map(
        |m| (m.name.clone(), value_of_json(&m.value)),
    ).collect();
    format!("{:?}", map)
}

/// Reads a JSON text.
pub fn parse(text: &str) -> (r: Result<Json, JsonFailure>)
    ensures
        gives_value(r, parsed_json(text@)),
{
    parse_text(text)
}

/// Writes a value as compact JSON text.
pub fn to_text(value: &Json) -> (r: Result<String, JsonFailure>)
    ensures
        gives_text(r, compact_text(value@)),
{
    write_compact(value)
}

/// Writes a value as indented JSON text.
pub fn to_pretty_text(value: &Json) -> (r: Result<String, JsonFailure>)
    ensures
        gives_text(r, pretty_text(value@)),
{
    write_pretty(value)
}

} // verus!
