//! The JSON codec calls the library makes (`serde_json`). What the parser
//! and the writer produce is named, not restated: the contracts below tie
//! each call's result to those names and to nothing else.
use vstd::prelude::*;

use crate::text::{opt_string_view, strings_view};

verus! {

/// `serde_json::Error`, carried through to the error message only.
#[verifier::external_type_specification]
#[verifier::external_body]
pub struct ExJsonError(serde_json::Error);

/// `serde_json::Value`, a parsed JSON document of any shape, carried through
/// unopened.
#[verifier::external_type_specification]
#[verifier::external_body]
pub struct ExJsonValue(serde_json::Value);

/// Whether `text` is a JSON document, as `serde_json::from_str::<Value>`
/// accepts it.
pub uninterp spec fn json_is_value(text: Seq<char>) -> bool;

/// The strings of `text` read as a JSON array of strings, as
/// `serde_json::from_str::<Vec<String>>` gives them; `None` where the text
/// is not such an array.
pub uninterp spec fn json_string_list(text: Seq<char>) -> Option<Seq<Seq<char>>>;

/// The JSON text that `serde_json::to_string` writes for a list of strings.
pub uninterp spec fn json_text_of_string_list(items: Seq<Seq<char>>) -> Seq<char>;

/// The string stored under `key` of `text` read as a JSON object, as
/// `serde_json::from_str::<serde_json::Value>` gives it; `None` where the
/// text is not a JSON object or `key` does not hold a JSON string there.
pub uninterp spec fn json_object_string_field(text: Seq<char>, key: Seq<char>) -> Option<
    Seq<char>,
>;

/// Calls `serde_json::from_str::<Vec<String>>`. Claims that the outcome is
/// [`json_string_list`] of the text: `Ok` exactly where that is `Some`, with
/// those strings in that order.
#[verifier::external_body]
pub(crate) fn decode_string_list(text: &str) -> (r: Option<Vec<String>>)
    ensures
        match r {
            Some(v) => json_string_list(text@) == Some(strings_view(v@)),
            None => json_string_list(text@) is None,
        },
{
    serde_json::from_str::<Vec<String>>(text).ok()
}

/// Calls `serde_json::to_string` on a list of strings. Claims that the call
/// succeeds (a list of strings written into memory has no failing case:
/// `to_string` goes through `to_vec`, whose writer is a `Vec<u8>`), that it
/// writes [`json_text_of_string_list`] of the list, and that reading that
/// text back as a list of strings gives the list again.
#[verifier::external_body]
pub(crate) fn encode_string_list(items: &Vec<String>) -> (r: Result<String, serde_json::Error>)
    ensures
        r is Ok,
        r matches Ok(s) ==> s@ == json_text_of_string_list(strings_view(items@)),
        r matches Ok(s) ==> json_string_list(s@) == Some(strings_view(items@)),
{
    serde_json::to_string(items)
}

/// Calls `serde_json::from_str::<serde_json::Value>` and reads the string
/// under `key` when the value is an object. Claims that the outcome is
/// [`json_object_string_field`] of the text and key.
#[verifier::external_body]
pub(crate) fn decode_object_string_field(text: &str, key: &str) -> (r: Option<String>)
    ensures
        opt_string_view(r) == json_object_string_field(text@, key@),
{
    match serde_json::from_str::<serde_json::Value>(text) {
        Ok(serde_json::Value::Object(mut map)) => match map.remove(key) {
            Some(serde_json::Value::String(s)) => Some(s),
            _ => None,
        },
        _ => None,
    }
}

/// Calls `serde_json::from_str::<serde_json::Value>`. Claims that it
/// succeeds exactly where [`json_is_value`] holds of the text.
#[verifier::external_body]
pub(crate) fn json_parses(text: &str) -> (ok: bool)
    ensures
        ok == json_is_value(text@),
{
    serde_json::from_str::<serde_json::Value>(text).is_ok()
}

/// Calls `serde_json::to_string` on a `serde_json::Value`. Claims only that
/// the call succeeds: the writer is a `Vec<u8>`, the keys of a `Value`
/// object are strings and its numbers are finite, so no case fails. What
/// text a value gives is not stated (the value is opaque here), nor that the
/// text reads back: the reader refuses documents nested 128 levels deep or
/// more, which the writer writes.
#[verifier::external_body]
pub(crate) fn json_value_text(value: &serde_json::Value) -> (r: Result<String, serde_json::Error>)
    ensures
        r is Ok,
{
    serde_json::to_string(value)
}

/// The `Display` text of a `serde_json::Error`. Nothing is claimed of it.
#[verifier::external_body]
pub(crate) fn json_error_text(e: &serde_json::Error) -> String {
    e.to_string()
}

} // verus!
