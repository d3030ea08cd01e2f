//! JSON values, held as their texts.

use crate::text::{opt_text, texts};
use vstd::prelude::*;

verus! {

/// The text of the member `key` of the object that a JSON text is; `None` where the text is no
/// JSON object or has no such member.
pub uninterp spec fn json_member_text(json: Seq<char>, key: Seq<char>) -> Option<Seq<char>>;

/// `serde_json::Value::get` on the value of a JSON text: the member's value, as text again.
#[verifier::external_body]
pub(crate) fn json_member(json: &str, key: &str) -> (r: Option<String>)
    ensures
        opt_text(r) == json_member_text(json@, key@),
{
    let value = serde_json::from_str::<serde_json::Value>(json).ok()?;
    value.get(key).map(|member| member.to_string())
}

/// The texts of the items of the array that a JSON text is; `None` where it is no JSON array.
pub uninterp spec fn json_item_texts(json: Seq<char>) -> Option<Seq<Seq<char>>>;

/// The texts of an optional list.
pub open spec fn opt_texts(list: Option<Vec<String>>) -> Option<Seq<Seq<char>>> {
    match list {
        Some(l) => Some(texts(l@)),
        None => None,
    }
}

/// `serde_json::Value::as_array` on the value of a JSON text: the items' values, as texts again.
#[verifier::external_body]
pub(crate) fn json_items(json: &str) -> (r: Option<Vec<String>>)
    ensures
        opt_texts(r) == json_item_texts(json@),
{
    let value = serde_json::from_str::<serde_json::Value>(json).ok()?;
    value.as_array().map(|items| items.iter().map(|item| item.to_string()).collect())
}

/// The string that a JSON text is; `None` where it is no JSON string.
pub uninterp spec fn json_string_text(json: Seq<char>) -> Option<Seq<char>>;

/// `serde_json::Value::as_str` on the value of a JSON text.
#[verifier::external_body]
pub(crate) fn json_string(json: &str) -> (r: Option<String>)
    ensures
        opt_text(r) == json_string_text(json@),
{
    let value = serde_json::from_str::<serde_json::Value>(json).ok()?;
    value.as_str().map(|text| text.to_string())
}

/// The first item of the array that a JSON text is.
pub open spec fn json_first_text(json: Seq<char>) -> Option<Seq<char>> {
    match json_item_texts(json) {
        Some(items) if items.len() > 0 => Some(items[0]),
        _ => None,
    }
}

/// The first item of the array that a JSON text is.
pub fn json_first(json: &str) -> (r: Option<String>)
    ensures
        opt_text(r) == json_first_text(json@),
{
    match json_items(json) {
        Some(items) => {
            assert(texts(items@).len() == items@.len());
            if items.len() > 0 {
                Some(items[0].clone())
            } else {
                None
            }
        },
        None => None,
    }
}

/// The string that the member `key` of a JSON object is.
pub open spec fn string_member_text(json: Seq<char>, key: Seq<char>) -> Option<Seq<char>> {
    match json_member_text(json, key) {
        Some(member) => json_string_text(member),
        None => None,
    }
}

/// The string that the member `key` of a JSON object is.
pub fn string_member(json: &str, key: &str) -> (r: Option<String>)
    ensures
        opt_text(r) == string_member_text(json@, key@),
{
    match json_member(json, key) {
        Some(member) => json_string(member.as_str()),
        None => None,
    }
}

} // verus!
