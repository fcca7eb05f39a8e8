//! JSON values, as far as the guardrail rules read them.
use vstd::prelude::*;

use crate::string_map::{lookup, StringMap};
use crate::text::text_of;

verus! {

/// A JSON value.
#[derive(Debug)]
pub enum JsonValue {
    /// A string.
    Text(String),
    /// An object.
    Object(StringMap<JsonValue>),
    /// A null, a boolean, a number or an array, none of which a rule looks into.
    Other,
}

/// The text of a value that is a string.
pub open spec fn json_text(value: JsonValue) -> Option<Seq<char>> {
    match value {
        JsonValue::Text(text) => Some(text@),
        _ => None,
    }
}

/// The text of an object's member that is a string.
pub open spec fn member_text(members: Seq<(Seq<char>, JsonValue)>, key: Seq<char>) -> Option<
    Seq<char>,
> {
    match lookup(members, key) {
        Some(value) => json_text(value),
        None => None,
    }
}

impl JsonValue {
    /// The members of a value that is an object.
    pub fn as_object(&self) -> (members: Option<&StringMap<JsonValue>>)
        ensures
            match members {
                Some(map) => *self == JsonValue::Object(*map),
                None => !(*self is Object),
            },
    {
        match self {
            JsonValue::Object(members) => Some(members),
            _ => None,
        }
    }

    /// The text of a value that is a string.
    pub fn as_str(&self) -> (text: Option<&str>)
        ensures
            text_of(text) == json_text(*self),
    {
        match self {
            JsonValue::Text(text) => Some(text.as_str()),
            _ => None,
        }
    }
}

/// Read an object's member that is a string.
pub fn get_text<'a>(members: &'a StringMap<JsonValue>, key: &str) -> (text: Option<&'a str>)
    ensures
        text_of(text) == member_text(members@, key@),
{
    match members.get(key) {
        Some(value) => value.as_str(),
        None => None,
    }
}

/// A member is read as text exactly when it is there and is a string.
pub proof fn law_member_text(members: Seq<(Seq<char>, JsonValue)>, key: Seq<char>, text: Seq<char>)
    ensures
        member_text(members, key) == Some(text) <==> (lookup(members, key) matches Some(
            JsonValue::Text(own),
        ) && own@ == text),
{
}

/// A string has its own text, and no other value has one.
pub proof fn law_json_text(value: JsonValue, text: Seq<char>)
    ensures
        json_text(value) == Some(text) <==> (value matches JsonValue::Text(own) && own@ == text),
{
}

} // verus!
