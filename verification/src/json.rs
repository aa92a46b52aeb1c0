//! JSON text for the composite fields of a row.

use vstd::prelude::*;
use crate::output::texts;

verus! {

/// `serde_json::Error`, opaque to the verifier.
#[verifier::external_type_specification]
#[verifier::external_body]
pub struct ExJsonError(serde_json::Error);

/// The JSON text that `serde_json` produces for a string, or `None` where
/// it reports an error.
pub uninterp spec fn json_string(text: Seq<char>) -> Option<Seq<char>>;

/// The JSON text that `serde_json` produces for a list of strings, or `None`
/// where it reports an error.
pub uninterp spec fn json_string_list(list: Seq<Seq<char>>) -> Option<Seq<char>>;

/// The text, and the empty text in place of none.
pub open spec fn text_or_empty(text: Option<Seq<char>>) -> Seq<char> {
    match text {
        Some(text) => text,
        None => Seq::empty(),
    }
}

/// Calls `serde_json::to_string` on a string.
///
/// The outcome is a function of the characters alone; the contract gives it
/// the name `json_string` and claims nothing else about it.
#[verifier::external_body]
fn serialize_string(text: &String) -> (json: Result<String, serde_json::Error>)
    ensures
        match json {
            Ok(json) => json_string(text@) == Some(json@),
            Err(_) => json_string(text@) is None,
        },
{
    serde_json::to_string(text)
}

/// Calls `serde_json::to_string` on a list of strings.
///
/// The outcome is a function of the strings alone; the contract gives it the
/// name `json_string_list` and claims nothing else about it.
#[verifier::external_body]
fn serialize_string_list(list: &Vec<String>) -> (json: Result<String, serde_json::Error>)
    ensures
        match json {
            Ok(json) => json_string_list(texts(list@)) == Some(json@),
            Err(_) => json_string_list(texts(list@)) is None,
        },
{
    serde_json::to_string(list)
}

/// The JSON text of a string; the empty text where serialization fails.
pub fn string_to_json(text: &String) -> (json: String)
    ensures
        json@ == text_or_empty(json_string(text@)),
{
    match serialize_string(text) {
        Ok(json) => json,
        Err(_) => String::new(),
    }
}

/// The JSON text of a list of strings; the empty text where serialization
/// fails.
pub fn string_list_to_json(list: &Vec<String>) -> (json: String)
    ensures
        json@ == text_or_empty(json_string_list(texts(list@))),
{
    match serialize_string_list(list) {
        Ok(json) => json,
        Err(_) => String::new(),
    }
}

} // verus!
