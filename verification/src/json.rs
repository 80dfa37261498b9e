//! JSON documents as plain values.

use crate::text::same_text;
use serde_json::Value;
use vstd::prelude::*;

verus! {

/// A JSON number. One that is no 64-bit integer is kept as its text.
#[derive(Debug, PartialEq, Eq)]
pub enum JsonNumber {
    Unsigned(u64),
    Negative(i64),
    Other(String),
}

/// A member of a JSON object.
#[derive(Debug, PartialEq, Eq)]
pub struct JsonMember {
    pub key: String,
    pub value: Json,
}

/// A JSON document.
#[derive(Debug, PartialEq, Eq)]
pub enum Json {
    Null,
    Bool(bool),
    Number(JsonNumber),
    Text(String),
    Array(Vec<Json>),
    Object(Vec<JsonMember>),
}

/// The error that `serde_json` reports for a text that is no JSON document.
#[verifier::external_type_specification]
#[verifier::external_body]
pub struct ExJsonError(serde_json::Error);

/// A JSON document as `serde_json` holds it.
#[verifier::external_type_specification]
#[verifier::external_body]
pub struct ExJsonValue(serde_json::Value);

/// What a document of `serde_json` holds.
pub uninterp spec fn json_content(value: serde_json::Value) -> Json;

/// The document that a text stands for; `None` where it is no JSON.
pub uninterp spec fn json_text(text: Seq<char>) -> Option<Json>;

/// `serde_json::from_str::<serde_json::Value>`: reads a JSON text. Whether the
/// text is JSON, and which document it stands for, depends on the text alone.
#[verifier::external_body]
fn read_value(text: &str) -> (r: Result<serde_json::Value, serde_json::Error>)
    ensures
        match r {
            Ok(value) => json_text(text@) == Some(json_content(value)),
            Err(_) => json_text(text@) is None,
        },
{
    serde_json::from_str::<serde_json::Value>(text)
}

/// Takes a `serde_json::Value` apart: each variant becomes the variant of the
/// same kind, with the same items and members in the order in which the value's
/// `Vec` and `Map` iterate.
#[verifier::external_body]
fn value_json(value: Value) -> (r: Json)
    ensures
        r == json_content(value),
{
    match value {
        Value::Null => Json::Null,
        Value::Bool(flag) => Json::Bool(flag),
        Value::Number(n) => Json::Number(match (n.as_u64(), n.as_i64()) {
            (Some(unsigned), _) => JsonNumber::Unsigned(unsigned),
            (None, Some(negative)) => JsonNumber::Negative(negative),
            (None, None) => JsonNumber::Other(n.to_string()),
        }),
        Value::String(text) => Json::Text(text),
        Value::Array(items) => Json::Array(items.into_iter().map(value_json).collect()),
        Value::Object(map) => Json::Object(map.into_iter()
            .map(|(key, value)| JsonMember { key, value: value_json(value) }).collect()),
    }
}

/// Reads a JSON text.
pub fn parse_json(text: &str) -> (r: Option<Json>)
    ensures
        r == json_text(text@),
{
    match read_value(text) {
        Ok(value) => Some(value_json(value)),
        Err(_) => None,
    }
}

/// The position of a member from a position on; the number of members where
/// there is none of that key.
pub open spec fn member_index(members: Seq<JsonMember>, key: Seq<char>, from: int) -> int
    decreases members.len() - from,
{
    if from < 0 || from >= members.len() {
        members.len() as int
    } else if members[from].key@ == key {
        from
    } else {
        member_index(members, key, from + 1)
    }
}

/// Whether a list of members holds a key.
pub open spec fn has_member(members: Seq<JsonMember>, key: Seq<char>) -> bool {
    0 <= member_index(members, key, 0) < members.len()
}

/// The value of a member of a document; `None` where the document is no object
/// or has no such member.
pub open spec fn member(json: Json, key: Seq<char>) -> Option<Json> {
    match json {
        Json::Object(members) => if has_member(members@, key) {
            Some(members@[member_index(members@, key, 0)].value)
        } else {
            None
        },
        _ => None,
    }
}

/// The text of a document; `None` where it is no text.
pub open spec fn text(json: Option<Json>) -> Option<String> {
    match json {
        Some(Json::Text(t)) => Some(t),
        _ => None,
    }
}

/// The text of a member of a document.
pub open spec fn member_text(json: Json, key: Seq<char>) -> Option<String> {
    text(member(json, key))
}

/// A member that is found has the key that was looked for.
pub proof fn lemma_member_has_its_key(members: Seq<JsonMember>, key: Seq<char>, from: int)
    requires
        0 <= from,
    ensures
        member_index(members, key, from) <= members.len(),
        member_index(members, key, from) < members.len() ==> members[member_index(
            members,
            key,
            from,
        )].key@ == key,
    decreases members.len() - from,
{
    if from < members.len() && members[from].key@ != key {
        lemma_member_has_its_key(members, key, from + 1);
    }
}

/// Finds a member by its key.
pub fn find_member(members: &Vec<JsonMember>, key: &str) -> (r: usize)
    ensures
        r == member_index(members@, key@, 0),
        r <= members@.len(),
{
    let mut i: usize = 0;
    while i < members.len()
        invariant
            i <= members@.len(),
            member_index(members@, key@, 0) == member_index(members@, key@, i as int),
        decreases members@.len() - i,
    {
        if same_text(members[i].key.as_str(), key) {
            return i;
        }
        i = i + 1;
    }
    i
}

impl Json {
    /// The value of a member.
    pub fn get(&self, key: &str) -> (r: Option<&Json>)
        ensures
            match r {
                Some(value) => member(*self, key@) == Some(*value),
                None => member(*self, key@) is None,
            },
    {
        match self {
            Json::Object(members) => {
                let i = find_member(members, key);
                if i < members.len() {
                    Some(&members[i].value)
                } else {
                    None
                }
            },
            _ => None,
        }
    }

    /// The text of a document.
    pub fn as_text(&self) -> (r: Option<String>)
        ensures
            r == text(Some(*self)),
    {
        match self {
            Json::Text(t) => Some(t.clone()),
            _ => None,
        }
    }

    /// The text of a member.
    pub fn get_text(&self, key: &str) -> (r: Option<String>)
        ensures
            r == member_text(*self, key@),
    {
        match self.get(key) {
            Some(value) => value.as_text(),
            None => None,
        }
    }
}

} // verus!
