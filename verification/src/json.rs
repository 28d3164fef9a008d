//! JSON texts. A value is held as the text that writes it; what is in it is
//! read by key.

use vstd::prelude::*;
use vstd::string::*;
use crate::text::{optional_text, texts};

verus! {

/// A result with texts, as a value.
pub open spec fn text_result(result: Result<String, String>) -> Result<Seq<char>, Seq<char>> {
    match result {
        Ok(text) => Ok(text@),
        Err(message) => Err(message@),
    }
}

/// The value that a text writes, written without white space; or why the text
/// is no JSON.
pub uninterp spec fn json_text(text: Seq<char>) -> Result<Seq<char>, Seq<char>>;

/// Calls `serde_json::from_str` and writes the value, or the error, as text.
#[verifier::external_body]
pub(crate) fn read_value(text: &str) -> (r: Result<String, String>)
    ensures
        text_result(r) == json_text(text@),
{
    match serde_json::from_str::<serde_json::Value>(text) {
        Ok(value) => Ok(value.to_string()),
        Err(error) => Err(error.to_string()),
    }
}

/// The unsigned number under a key of a JSON object in a text.
pub uninterp spec fn json_unsigned(text: Seq<char>, key: Seq<char>) -> Option<u64>;

/// Calls `serde_json::from_str`, `serde_json::Value::get` and
/// `serde_json::Value::as_u64`. The result is the unsigned number under a key
/// of the object that the text writes; none where the text writes no such
/// object or no such number.
#[verifier::external_body]
pub(crate) fn read_unsigned(text: &str, key: &str) -> (r: Option<u64>)
    ensures
        r == json_unsigned(text@, key@),
{
    serde_json::from_str::<serde_json::Value>(text).ok()?.get(key)?.as_u64()
}

/// The string under a key of a JSON object in a text.
pub uninterp spec fn json_string(text: Seq<char>, key: Seq<char>) -> Option<Seq<char>>;

/// Calls `serde_json::from_str`, `serde_json::Value::get` and
/// `serde_json::Value::as_str`. The result is the string under a key of the
/// object that the text writes; none where the text writes no such object or
/// no such string.
#[verifier::external_body]
pub(crate) fn read_string(text: &str, key: &str) -> (r: Option<String>)
    ensures
        optional_text(r) == json_string(text@, key@),
{
    serde_json::from_str::<serde_json::Value>(text).ok()?.get(key)?.as_str().map(str::to_owned)
}

/// The value under a key of a JSON object in a text, written without white
/// space; `null` where there is none.
pub uninterp spec fn json_member(text: Seq<char>, key: Seq<char>) -> Option<Seq<char>>;

/// Calls `serde_json::from_str` and the index operator of `serde_json::Value`.
/// The result is the value under a key, written as text, with `null` where the
/// value has no such key; none where the text is no JSON.
#[verifier::external_body]
pub(crate) fn read_member(text: &str, key: &str) -> (r: Option<String>)
    ensures
        optional_text(r) == json_member(text@, key@),
{
    Some(serde_json::from_str::<serde_json::Value>(text).ok()?[key].to_string())
}

/// A list of optional texts as values.
pub open spec fn optional_texts(list: Option<Vec<String>>) -> Option<Seq<Seq<char>>> {
    match list {
        Some(values) => Some(texts(values@)),
        None => None,
    }
}

/// The elements of the array at a JSON pointer, each written without white
/// space.
pub uninterp spec fn json_elements(text: Seq<char>, pointer: Seq<char>) -> Option<Seq<Seq<char>>>;

/// Calls `serde_json::from_str`, `serde_json::Value::pointer` and
/// `serde_json::Value::as_array`. The result holds the elements of the array
/// at a pointer, each written as text; none where the text writes no such
/// array.
#[verifier::external_body]
pub(crate) fn read_elements(text: &str, pointer: &str) -> (r: Option<Vec<String>>)
    ensures
        optional_texts(r) == json_elements(text@, pointer@),
{
    let value = serde_json::from_str::<serde_json::Value>(text).ok()?;
    let elements = value.pointer(pointer)?.as_array()?;
    Some(elements.iter().map(|element| element.to_string()).collect())
}

/// A JSON object with an unsigned number under a key.
pub uninterp spec fn json_with(text: Seq<char>, key: Seq<char>, value: u64) -> Option<Seq<char>>;

/// Calls `serde_json::from_str`, `serde_json::Value::as_object_mut` and
/// `serde_json::Map::insert`. The result is the object that the text writes,
/// with a number put under a key, and none where the text writes no object. The
/// number is read back under that key, and the numbers under other keys stay.
#[verifier::external_body]
pub(crate) fn write_unsigned(text: &str, key: &str, value: u64) -> (r: Option<String>)
    ensures
        optional_text(r) == json_with(text@, key@, value),
        r matches Some(object) ==> json_unsigned(object@, key@) == Some(value),
        r matches Some(object) ==> forall|other: Seq<char>|
            other != key@ ==> #[trigger] json_unsigned(object@, other) == json_unsigned(
                text@,
                other,
            ),
{
    let mut object = serde_json::from_str::<serde_json::Value>(text).ok()?;
    object.as_object_mut()?.insert(key.to_owned(), serde_json::Value::from(value));
    Some(object.to_string())
}

} // verus!
