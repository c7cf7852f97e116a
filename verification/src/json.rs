//! JSON documents, read by the `serde_json` crate.
//!
//! A document is held as a tree of the library's own, so that what reads a
//! manifest out of it can be verified. The two functions that hand a parsed
//! document over are not proved: they state what `serde_json` is trusted to
//! do.

use vstd::prelude::*;
use serde_json::{Error, Value};

verus! {

/// A JSON value.
#[derive(Debug)]
pub enum Json {
    Null,
    Bool(bool),
    /// A number, as its decimal text.
    Number(String),
    Text(String),
    Array(Vec<Json>),
    /// The members of an object, each with its key.
    Object(Vec<(String, Json)>),
}

/// `serde_json::Value`, a parsed JSON value.
#[verifier::external_type_specification]
#[verifier::external_body]
pub struct ExValue(Value);

/// `serde_json::Error`, why a text is no JSON document.
#[verifier::external_type_specification]
#[verifier::external_body]
pub struct ExJsonError(Error);

/// What a parsed value holds, as a tree of the library: every variant by
/// the variant of the same name, a number by its text, the members of an
/// object in the order in which `serde_json` walks them.
pub uninterp spec fn json_of(value: Value) -> Json;

/// The document that the bytes spell, where `serde_json::from_slice`
/// accepts them as one JSON value.
pub uninterp spec fn parsed_json(bytes: Seq<u8>) -> Option<Json>;

/// Calls `serde_json::from_slice` for a `Value`. It fails exactly on the
/// bytes that spell no document, and else returns the document that
/// `parsed_json` names.
#[verifier::external_body]
pub(crate) fn parse_value(bytes: &[u8]) -> (r: Result<Value, Error>)
    ensures
        r is Ok <==> parsed_json(bytes@) is Some,
        r is Ok ==> parsed_json(bytes@) == Some(json_of(r->Ok_0)),
{
    serde_json::from_slice::<Value>(bytes)
}

/// Moves a `serde_json::Value` into a tree of the library, variant by
/// variant.
#[verifier::external_body]
pub(crate) fn json_from_value(value: Value) -> (json: Json)
    ensures
        json == json_of(value),
{
    match value {
        Value::Null => Json::Null,
        Value::Bool(b) => Json::Bool(b),
        Value::Number(n) => Json::Number(n.to_string()),
        Value::String(s) => Json::Text(s),
        Value::Array(items) => Json::Array(items.into_iter().map(json_from_value).collect()),
        Value::Object(members) => Json::Object(
            members.into_iter().map(|(k, v)| (k, json_from_value(v))).collect(),
        ),
    }
}

/// The index of the first member at or after `from` whose key is `key`, or
/// the number of members where there is none.
pub open spec fn member_index(members: Seq<(String, Json)>, key: Seq<char>, from: int) -> int
    decreases members.len() - from,
{
    if from < 0 || from >= members.len() {
        members.len() as int
    } else if members[from].0@ == key {
        from
    } else {
        member_index(members, key, from + 1)
    }
}

/// The value of the first member whose key is `key`.
pub open spec fn member(members: Seq<(String, Json)>, key: Seq<char>) -> Option<Json> {
    let i = member_index(members, key, 0);
    if i < members.len() {
        Some(members[i].1)
    } else {
        None
    }
}

impl Json {
    /// Reads one JSON document from `bytes`; `None` where the bytes spell
    /// no document.
    pub fn parse(bytes: &[u8]) -> (r: Option<Json>)
        ensures
            r == parsed_json(bytes@),
    {
        match parse_value(bytes) {
            Ok(value) => Some(json_from_value(value)),
            Err(_) => None,
        }
    }
}

/// Finds the value of the first member whose key is `key`.
pub fn find_member<'a>(members: &'a Vec<(String, Json)>, key: &str) -> (r: Option<&'a Json>)
    ensures
        r is Some <==> member(members@, key@) is Some,
        r is Some ==> *r->0 == member(members@, key@)->0,
{
    let mut i: usize = 0;
    while i < members.len()
        invariant
            i <= members.len(),
            member_index(members@, key@, 0) == member_index(members@, key@, i as int),
        decreases members.len() - i,
    {
        if crate::text::same_name(members[i].0.as_str(), key) {
            return Some(&members[i].1);
        }
        i += 1;
    }
    None
}

} // verus!
