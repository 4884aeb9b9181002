//! JSON text: string literals written by `serde_json`, and the framing of the
//! objects and arrays that this crate writes itself.

use vstd::prelude::*;
use vstd::string::*;

verus! {

/// The JSON string literal, quotes and escapes included, that stands for
/// `text`.
pub uninterp spec fn json_string_literal(text: Seq<char>) -> Seq<char>;

/// Calls `serde_json::to_string` on a string slice. Serialising a string
/// writes into a byte vector and cannot fail, so the result is `Some`; the
/// literal depends on `text` alone and is named by `json_string_literal`.
#[verifier::external_body]
fn to_json_string(text: &str) -> (literal: Option<String>)
    ensures
        literal is Some,
        literal->Some_0@ == json_string_literal(text@),
{
    serde_json::to_string(text).ok()
}

/// The JSON text of an optional string: its literal, or `null`.
pub open spec fn json_optional_literal(text: Option<Seq<char>>) -> Seq<char> {
    match text {
        Some(t) => json_string_literal(t),
        None => "null"@,
    }
}

/// Appends the JSON string literal of `text` to `out`.
pub fn push_json_string(out: &mut String, text: &str)
    ensures
        final(out)@ == old(out)@ + json_string_literal(text@),
{
    match to_json_string(text) {
        Some(literal) => out.append(literal.as_str()),
        None => {},
    }
}

/// Appends `null` to `out`.
pub fn push_json_null(out: &mut String)
    ensures
        final(out)@ == old(out)@ + "null"@,
{
    out.append("null");
}

/// A JSON value, as plain text and sequences. A number keeps its text; the
/// members of an object stand in the order in which the parser hands them
/// out.
pub enum JsonView {
    Null,
    Bool(bool),
    Number(Seq<char>),
    Text(Seq<char>),
    Array(Seq<JsonView>),
    Object(Seq<JsonMemberView>),
}

/// A member of a JSON object, as plain text and sequences.
pub struct JsonMemberView {
    pub name: Seq<char>,
    pub value: JsonView,
}

/// A member of a JSON object: a name and the value under it.
#[derive(Debug, PartialEq, Eq)]
pub struct JsonMember {
    pub name: String,
    pub value: Json,
}

/// A JSON value.
#[derive(Debug, PartialEq, Eq)]
pub enum Json {
    Null,
    Bool(bool),
    Number(String),
    Text(String),
    Array(Vec<Json>),
    Object(Vec<JsonMember>),
}

impl View for Json {
    type V = JsonView;

    open spec fn view(&self) -> JsonView
        decreases self,
    {
        match self {
            Json::Null => JsonView::Null,
            Json::Bool(b) => JsonView::Bool(*b),
            Json::Number(n) => JsonView::Number(n@),
            Json::Text(t) => JsonView::Text(t@),
            Json::Object(members) => JsonView::Object(
                Seq::new(
                    members@.len(),
                    |i: int|
                        if 0 <= i < members@.len() {
                            JsonMemberView { name: members@[i].name@, value: members@[i].value@ }
                        } else {
                            JsonMemberView { name: Seq::empty(), value: JsonView::Null }
                        },
                ),
            ),
            Json::Array(items) => JsonView::Array(
                Seq::new(
                    items@.len(),
                    |i: int|
                        if 0 <= i < items@.len() {
                            items@[i]@
                        } else {
                            JsonView::Null
                        },
                ),
            ),
        }
    }
}

/// The value of the first member of `members` whose name is `name`.
pub open spec fn member_of(members: Seq<JsonMemberView>, name: Seq<char>) -> Option<JsonView>
    decreases members.len(),
{
    if members.len() == 0 {
        None
    } else if members[0].name == name {
        Some(members[0].value)
    } else {
        member_of(members.drop_first(), name)
    }
}

impl JsonView {
    /// The member `name` of an object; nothing for any other value and for
    /// an object without such a member.
    pub open spec fn member(self, name: Seq<char>) -> Option<JsonView> {
        match self {
            JsonView::Object(members) => member_of(members, name),
            _ => None,
        }
    }

    /// The text of a string; nothing for any other value.
    pub open spec fn text(self) -> Option<Seq<char>> {
        match self {
            JsonView::Text(t) => Some(t),
            _ => None,
        }
    }

    /// The text of a string or the absence that `null` stands for; nothing
    /// for any other value.
    pub open spec fn optional_text(self) -> Option<Option<Seq<char>>> {
        match self {
            JsonView::Text(t) => Some(Some(t)),
            JsonView::Null => Some(None),
            _ => None,
        }
    }

    /// The items of an array; nothing for any other value.
    pub open spec fn items(self) -> Option<Seq<JsonView>> {
        match self {
            JsonView::Array(items) => Some(items),
            _ => None,
        }
    }

    /// The text of the member `name`, which must be there and be a string.
    pub open spec fn member_text(self, name: Seq<char>) -> Option<Seq<char>> {
        match self.member(name) {
            Some(value) => value.text(),
            None => None,
        }
    }

    /// The text of the member `name`, or the absence that `null` and a
    /// missing member stand for; nothing where the member is anything else.
    pub open spec fn member_optional_text(self, name: Seq<char>) -> Option<Option<Seq<char>>> {
        match self.member(name) {
            Some(value) => value.optional_text(),
            None => Some(None),
        }
    }
}

/// The view of an optional JSON value.
pub open spec fn optional_json(json: Option<Json>) -> Option<JsonView> {
    match json {
        Some(j) => Some(j@),
        None => None,
    }
}

/// The views of a sequence of JSON values.
pub open spec fn json_views(items: Seq<Json>) -> Seq<JsonView> {
    Seq::new(items.len(), |i: int| items[i]@)
}

impl Json {
    /// The member `name` of an object; nothing for any other value and for
    /// an object without such a member.
    pub fn member(&self, name: &str) -> (value: Option<&Json>)
        ensures
            value is Some <==> self@.member(name@) is Some,
            value matches Some(v) ==> Some(v@) == self@.member(name@),
    {
        match self {
            Json::Object(members) => {
                let ghost all = self@->Object_0;
                assert(all.skip(0) =~= all);
                let wanted = name.to_owned();
                let mut i: usize = 0;
                while i < members.len()
                    invariant
                        i <= members.len(),
                        wanted@ == name@,
                        self@ == JsonView::Object(all),
                        all.len() == members.len(),
                        forall|k: int|
                            0 <= k < members.len() ==> #[trigger] all[k] == (JsonMemberView {
                                name: members[k].name@,
                                value: members[k].value@,
                            }),
                        member_of(all, name@) == member_of(all.skip(i as int), name@),
                    decreases members.len() - i,
                {
                    proof {
                        assert(all.skip(i as int).drop_first() =~= all.skip(i + 1));
                        assert(all.skip(i as int)[0] == all[i as int]);
                    }
                    if members[i].name == wanted {
                        return Some(&members[i].value);
                    }
                    i += 1;
                }
                assert(all.skip(i as int).len() == 0);
                None
            },
            _ => None,
        }
    }

    /// The text of a string; nothing for any other value.
    pub fn text(&self) -> (text: Option<&str>)
        ensures
            text is Some <==> self@.text() is Some,
            text matches Some(t) ==> Some(t@) == self@.text(),
    {
        match self {
            Json::Text(t) => Some(t.as_str()),
            _ => None,
        }
    }

    /// The text of a string or the absence that `null` stands for; nothing
    /// for any other value.
    pub fn optional_text(&self) -> (text: Option<Option<&str>>)
        ensures
            text is Some <==> self@.optional_text() is Some,
            text matches Some(Some(t)) ==> self@.optional_text() == Some(Some(t@)),
            text matches Some(None) ==> self@.optional_text() == Some(None::<Seq<char>>),
    {
        match self {
            Json::Text(t) => Some(Some(t.as_str())),
            Json::Null => Some(None),
            _ => None,
        }
    }

    /// The text of the member `name`, which must be there and be a string.
    pub fn member_text(&self, name: &str) -> (text: Option<&str>)
        ensures
            text is Some <==> self@.member_text(name@) is Some,
            text matches Some(t) ==> Some(t@) == self@.member_text(name@),
    {
        match self.member(name) {
            Some(value) => value.text(),
            None => None,
        }
    }

    /// The text of the member `name`, or the absence that `null` and a
    /// missing member stand for; nothing where the member is anything else.
    pub fn member_optional_text(&self, name: &str) -> (text: Option<Option<&str>>)
        ensures
            text is Some <==> self@.member_optional_text(name@) is Some,
            text matches Some(Some(t)) ==> self@.member_optional_text(name@) == Some(Some(t@)),
            text matches Some(None) ==> self@.member_optional_text(name@) == Some(
                None::<Seq<char>>,
            ),
    {
        match self.member(name) {
            Some(value) => value.optional_text(),
            None => Some(None),
        }
    }

    /// The items of an array; nothing for any other value.
    pub fn items(&self) -> (items: Option<&Vec<Json>>)
        ensures
            items is Some <==> self@.items() is Some,
            items matches Some(v) ==> Some(json_views(v@)) == self@.items(),
    {
        match self {
            Json::Array(items) => {
                assert(json_views(items@) =~= self@->Array_0);
                Some(items)
            },
            _ => None,
        }
    }
}

/// What `text` parses to as JSON; nothing where it is not one JSON value.
pub uninterp spec fn parsed_json(text: Seq<char>) -> Option<JsonView>;

/// What a parsed value holds.
pub uninterp spec fn value_view(value: serde_json::Value) -> JsonView;

#[verifier::external_type_specification]
#[verifier::external_body]
pub struct ExValue(serde_json::Value);

/// Calls `serde_json::from_str` for a `serde_json::Value`. Whether the text
/// parses and what the value then holds depend on the text alone; both are
/// named by `parsed_json`.
#[verifier::external_body]
fn parse_value(text: &str) -> (value: Option<serde_json::Value>)
    ensures
        value is Some <==> parsed_json(text@) is Some,
        value matches Some(v) ==> Some(value_view(v)) == parsed_json(text@),
{
    serde_json::from_str::<serde_json::Value>(text).ok()
}

/// Tells the six variants of a `serde_json::Value` apart and moves what each
/// holds into a `Json`: a number as the text that its `Display` writes, the
/// items of an array and the members of an object in the order in which
/// their iterators hand them out.
#[verifier::external_body]
fn lower_value(value: &serde_json::Value) -> (json: Json)
    ensures
        json@ == value_view(*value),
{
    match value {
        serde_json::Value::Null => Json::Null,
        serde_json::Value::Bool(b) => Json::Bool(*b),
        serde_json::Value::Number(n) => Json::Number(n.to_string()),
        serde_json::Value::String(s) => Json::Text(s.clone()),
        serde_json::Value::Array(a) => Json::Array(a.iter().map(lower_value).collect()),
        serde_json::Value::Object(m) => Json::Object(
            m.iter().map(|(k, v)| JsonMember { name: k.clone(), value: lower_value(v) }).collect(),
        ),
    }
}

/// Parses `text` as one JSON value; nothing where it is not one.
pub fn parse_json(text: &str) -> (json: Option<Json>)
    ensures
        optional_json(json) == parsed_json(text@),
{
    match parse_value(text) {
        Some(value) => Some(lower_value(&value)),
        None => None,
    }
}

} // verus!
