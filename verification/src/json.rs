//! JSON texts, and what is read out of them.
//!
//! A value is held as its text; what the JSON library finds in it is text again.

use crate::search;
use serde_json::Value;
use vstd::prelude::*;

verus! {

/// The text is JSON.
pub uninterp spec fn is_json(text: Seq<char>) -> bool;

/// `serde_json::from_str` into a `Value`, asked only whether it succeeds. The result depends on
/// the text alone and is named [`is_json`]; the grammar of JSON is not stated.
#[verifier::external_body]
pub(crate) fn parses(text: &str) -> (valid: bool)
    ensures
        valid == is_json(text@),
{
    serde_json::from_str::<Value>(text).is_ok()
}

/// The value of a field of a JSON object, as text; nothing if the text is no JSON object or has no
/// such field.
pub uninterp spec fn field_text(text: Seq<char>, name: Seq<char>) -> Option<Seq<char>>;

/// `serde_json::Value::get` with a field's name. The result depends on the text and the name alone
/// and is named [`field_text`].
#[verifier::external_body]
pub(crate) fn field(text: &str, name: &str) -> (value: Option<String>)
    ensures
        match value {
            Some(value) => field_text(text@, name@) == Some(value@),
            None => field_text(text@, name@) is None,
        },
{
    let value = serde_json::from_str::<Value>(text).ok()?;
    value.get(name).map(Value::to_string)
}

/// The items of a JSON array, as texts; nothing if the text is no JSON array.
pub uninterp spec fn item_texts(text: Seq<char>) -> Option<Seq<Seq<char>>>;

/// `serde_json::Value::as_array`. The result depends on the text alone and is named
/// [`item_texts`].
#[verifier::external_body]
pub(crate) fn items(text: &str) -> (values: Option<Vec<String>>)
    ensures
        match values {
            Some(values) => item_texts(text@) == Some(search::texts(values@)),
            None => item_texts(text@) is None,
        },
{
    let value = serde_json::from_str::<Value>(text).ok()?;
    value.as_array().map(|items| items.iter().map(Value::to_string).collect())
}

/// The names of the fields of a JSON object; nothing if the text is no JSON object.
pub uninterp spec fn key_texts(text: Seq<char>) -> Option<Seq<Seq<char>>>;

/// `serde_json::Value::as_object` and the keys of the map. The result depends on the text alone
/// and is named [`key_texts`].
#[verifier::external_body]
pub(crate) fn keys(text: &str) -> (names: Option<Vec<String>>)
    ensures
        match names {
            Some(names) => key_texts(text@) == Some(search::texts(names@)),
            None => key_texts(text@) is None,
        },
{
    let value = serde_json::from_str::<Value>(text).ok()?;
    value.as_object().map(|fields| fields.keys().cloned().collect())
}

/// What a JSON string holds; nothing if the text is no JSON string.
pub uninterp spec fn string_text(text: Seq<char>) -> Option<Seq<char>>;

/// `serde_json::Value::as_str`. The result depends on the text alone and is named
/// [`string_text`].
#[verifier::external_body]
pub(crate) fn string(text: &str) -> (value: Option<String>)
    ensures
        match value {
            Some(value) => string_text(text@) == Some(value@),
            None => string_text(text@) is None,
        },
{
    let value = serde_json::from_str::<Value>(text).ok()?;
    value.as_str().map(str::to_owned)
}

/// The number that a JSON text stands for, if it is a whole number that 64 bits can hold without a
/// sign.
pub uninterp spec fn number_value(text: Seq<char>) -> Option<u64>;

/// `serde_json::Value::as_u64`. The result depends on the text alone and is named
/// [`number_value`].
#[verifier::external_body]
pub(crate) fn number(text: &str) -> (value: Option<u64>)
    ensures
        value == number_value(text@),
{
    serde_json::from_str::<Value>(text).ok()?.as_u64()
}

/// The number that a JSON text stands for, if it is a whole number that 64 bits can hold with a sign.
pub uninterp spec fn signed_value(text: Seq<char>) -> Option<i64>;

/// `serde_json::Value::as_i64`. The result depends on the text alone and is named
/// [`signed_value`].
#[verifier::external_body]
pub(crate) fn signed(text: &str) -> (value: Option<i64>)
    ensures
        value == signed_value(text@),
{
    serde_json::from_str::<Value>(text).ok()?.as_i64()
}

/// A text as a JSON string.
pub uninterp spec fn json_string(text: Seq<char>) -> Seq<char>;

/// `serde_json::Value::String` and its `to_string`. The result depends on the text alone and is
/// named [`json_string`]; how characters are escaped is not stated.
#[verifier::external_body]
pub(crate) fn quote(text: &str) -> (quoted: String)
    ensures
        quoted@ == json_string(text@),
{
    Value::String(text.to_owned()).to_string()
}

/// A JSON text, indented; nothing if the text is no JSON.
pub uninterp spec fn indented_json(text: Seq<char>) -> Option<Seq<char>>;

/// `serde_json::to_string_pretty` of the `Value` that a text stands for. The result depends on the
/// text alone and is named [`indented_json`].
#[verifier::external_body]
pub(crate) fn indent(text: &str) -> (indented: Option<String>)
    ensures
        match indented {
            Some(indented) => indented_json(text@) == Some(indented@),
            None => indented_json(text@) is None,
        },
{
    let value = serde_json::from_str::<Value>(text).ok()?;
    serde_json::to_string_pretty(&value).ok()
}

/// The string that a field of a JSON object holds.
pub open spec fn string_field(text: Seq<char>, name: Seq<char>) -> Option<Seq<char>> {
    match field_text(text, name) {
        Some(value) => string_text(value),
        None => None,
    }
}

/// Reads the string that a field of a JSON object holds.
pub fn read_string(text: &str, name: &str) -> (value: Option<String>)
    ensures
        match value {
            Some(value) => string_field(text@, name@) == Some(value@),
            None => string_field(text@, name@) is None,
        },
{
    match field(text, name) {
        Some(value) => string(value.as_str()),
        None => None,
    }
}

/// The whole number that a field of a JSON object holds.
pub open spec fn number_field(text: Seq<char>, name: Seq<char>) -> Option<u64> {
    match field_text(text, name) {
        Some(value) => number_value(value),
        None => None,
    }
}

/// Reads the whole number that a field of a JSON object holds.
pub fn read_number(text: &str, name: &str) -> (value: Option<u64>)
    ensures
        value == number_field(text@, name@),
{
    match field(text, name) {
        Some(value) => number(value.as_str()),
        None => None,
    }
}

/// The signed whole number that a field of a JSON object holds.
pub open spec fn signed_field(text: Seq<char>, name: Seq<char>) -> Option<i64> {
    match field_text(text, name) {
        Some(value) => signed_value(value),
        None => None,
    }
}

/// Reads the signed whole number that a field of a JSON object holds.
pub fn read_signed(text: &str, name: &str) -> (value: Option<i64>)
    ensures
        value == signed_field(text@, name@),
{
    match field(text, name) {
        Some(value) => signed(value.as_str()),
        None => None,
    }
}

} // verus!
