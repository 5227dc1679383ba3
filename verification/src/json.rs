//! JSON documents as `serde_json` parses and holds them.

use vstd::prelude::*;

verus! {

#[verifier::external_type_specification]
#[verifier::external_body]
pub struct ExJsonValue(serde_json::Value);

#[verifier::external_type_specification]
#[verifier::external_body]
pub struct ExJsonError(serde_json::Error);

/// What a JSON document holds.
pub enum Json {
    Null,
    Bool(bool),
    /// A number. Which number it is, is not looked at.
    Number,
    Text(Seq<char>),
    Array(Seq<Json>),
    Object(Map<Seq<char>, Json>),
}

impl Json {
    /// The member `key` of an object; `Null` where there is no such member or
    /// the document is no object.
    pub open spec fn member(self, key: Seq<char>) -> Json {
        match self {
            Json::Object(members) => if members.dom().contains(key) {
                members[key]
            } else {
                Json::Null
            },
            _ => Json::Null,
        }
    }

    /// The element at `index` of an array; `Null` where the array is shorter
    /// or the document is no array.
    pub open spec fn element(self, index: int) -> Json {
        match self {
            Json::Array(elements) => if 0 <= index < elements.len() {
                elements[index]
            } else {
                Json::Null
            },
            _ => Json::Null,
        }
    }

    /// The truth value, where the document is one.
    pub open spec fn as_bool(self) -> Option<bool> {
        match self {
            Json::Bool(b) => Some(b),
            _ => None,
        }
    }

    /// The text, where the document is a string.
    pub open spec fn as_text(self) -> Option<Seq<char>> {
        match self {
            Json::Text(text) => Some(text),
            _ => None,
        }
    }
}

/// The document that a `serde_json::Value` holds.
pub uninterp spec fn json_of(value: serde_json::Value) -> Json;

/// The document that `serde_json` reads from a text, or `None` for a text that
/// it refuses.
pub uninterp spec fn json_parsed(text: Seq<char>) -> Option<Json>;

/// `serde_json::from_str` for a `serde_json::Value`. Trusted: what comes back
/// depends on the text alone, so the document it holds is `json_parsed` of the
/// text, and an error comes back exactly where `json_parsed` is `None`.
#[verifier::external_body]
pub(crate) fn parse_json(text: &str) -> (r: Result<serde_json::Value, serde_json::Error>)
    ensures
        r matches Ok(value) ==> json_parsed(text@) == Some(json_of(value)),
        r is Err ==> json_parsed(text@) is None,
{
    serde_json::from_str::<serde_json::Value>(text)
}

/// Indexing a `serde_json::Value` by a string. Trusted: it gives the member
/// of that name of an object, and a null in every other case.
#[verifier::external_body]
pub(crate) fn json_member<'a>(value: &'a serde_json::Value, key: &str) -> (r:
    &'a serde_json::Value)
    ensures
        json_of(*r) == json_of(*value).member(key@),
{
    &value[key]
}

/// Indexing a `serde_json::Value` by a number. Trusted: it gives the element
/// at that place of an array, and a null in every other case.
#[verifier::external_body]
pub(crate) fn json_element<'a>(value: &'a serde_json::Value, index: usize) -> (r:
    &'a serde_json::Value)
    ensures
        json_of(*r) == json_of(*value).element(index as int),
{
    &value[index]
}

/// `serde_json::Value::as_bool`. Trusted: it gives the truth value of a
/// boolean and `None` for every other document.
#[verifier::external_body]
pub(crate) fn json_bool(value: &serde_json::Value) -> (r: Option<bool>)
    ensures
        r == json_of(*value).as_bool(),
{
    value.as_bool()
}

/// `serde_json::Value::as_str`. Trusted: it gives the text of a string and
/// `None` for every other document.
#[verifier::external_body]
pub(crate) fn json_text<'a>(value: &'a serde_json::Value) -> (r: Option<&'a str>)
    ensures
        r matches Some(text) ==> json_of(*value).as_text() == Some(text@),
        r is None ==> json_of(*value).as_text() is None,
{
    value.as_str()
}

} // verus!
