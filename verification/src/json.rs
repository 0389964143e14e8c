//! JSON values as they come out of a decoded document, and their text.

use vstd::prelude::*;

verus! {

/// `serde_json::Value`: a JSON value, carried as it is.
#[verifier::external_type_specification]
#[verifier::external_body]
pub struct ExJsonValue(serde_json::Value);

/// `serde_json::Error`: why a value could not be written.
#[verifier::external_type_specification]
#[verifier::external_body]
pub struct ExJsonError(serde_json::Error);

/// The compact JSON text of a value as `serde_json` writes it, or `None`
/// where it cannot write the value.
pub uninterp spec fn json_text(value: serde_json::Value) -> Option<Seq<char>>;

/// Calls `serde_json::to_string` on a value. The text depends on the value
/// alone: one value always gives the same text, or always the error.
#[verifier::external_body]
fn to_json_text(value: &serde_json::Value) -> (res: Result<String, serde_json::Error>)
    ensures
        match res {
            Ok(text) => json_text(*value) == Some(text@),
            Err(_) => json_text(*value) is None,
        },
{
    serde_json::to_string(value)
}

/// The text shown for a JSON value: its compact JSON text, and the empty
/// text where it has none.
pub open spec fn display_text(value: serde_json::Value) -> Seq<char> {
    match json_text(value) {
        Some(text) => text,
        None => Seq::empty(),
    }
}

/// The text shown for a JSON value that may be absent.
pub open spec fn display_text_of(value: Option<serde_json::Value>) -> Option<Seq<char>> {
    match value {
        Some(v) => Some(display_text(v)),
        None => None,
    }
}

/// The text to show for what serialising a value gave.
pub fn text_or_empty(serialised: Result<String, serde_json::Error>) -> (res: String)
    ensures
        match serialised {
            Ok(text) => res == text,
            Err(_) => res@ == Seq::<char>::empty(),
        },
{
    match serialised {
        Ok(text) => text,
        Err(_) => String::new(),
    }
}

/// The text to show for a JSON value.
pub fn json_display(value: &serde_json::Value) -> (res: String)
    ensures
        res@ == display_text(*value),
{
    text_or_empty(to_json_text(value))
}

/// The text to show for a JSON value that may be absent.
pub fn json_display_of(value: &Option<serde_json::Value>) -> (res: Option<String>)
    ensures
        res.deep_view() == display_text_of(*value),
{
    match value {
        Some(v) => Some(json_display(v)),
        None => None,
    }
}

/// The member of a JSON object under a key, as `serde_json` finds it;
/// `None` where the value is no object or has no such member.
pub uninterp spec fn json_member(value: serde_json::Value, key: Seq<char>) -> Option<
    serde_json::Value,
>;

/// The text of a JSON string; `None` for a value of any other kind.
pub uninterp spec fn json_string(value: serde_json::Value) -> Option<Seq<char>>;

/// Calls `serde_json::Value::get` with a key: the member under that key, if
/// the value is an object that has one. The same value and key always give
/// the same member.
#[verifier::external_body]
fn member<'a>(value: &'a serde_json::Value, key: &str) -> (res: Option<&'a serde_json::Value>)
    ensures
        match res {
            Some(found) => json_member(*value, key@) == Some(*found),
            None => json_member(*value, key@) is None,
        },
{
    value.get(key)
}

/// Calls `serde_json::Value::as_str`: the text, if the value is a string.
#[verifier::external_body]
fn as_text<'a>(value: &'a serde_json::Value) -> (res: Option<&'a str>)
    ensures
        match res {
            Some(text) => json_string(*value) == Some(text@),
            None => json_string(*value) is None,
        },
{
    value.as_str()
}

/// The text under a key of a JSON object: there where the value has a
/// member under the key and the member is a string.
pub open spec fn text_member_of(value: serde_json::Value, key: Seq<char>) -> Option<Seq<char>> {
    match json_member(value, key) {
        Some(found) => json_string(found),
        None => None,
    }
}

/// The text under a key of a JSON object, if there is one.
pub fn text_member<'a>(value: &'a serde_json::Value, key: &str) -> (res: Option<&'a str>)
    ensures
        match res {
            Some(text) => text_member_of(*value, key@) == Some(text@),
            None => text_member_of(*value, key@) is None,
        },
{
    match member(value, key) {
        Some(found) => as_text(found),
        None => None,
    }
}

} // verus!
