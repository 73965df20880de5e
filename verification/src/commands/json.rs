//! What the batch commands read from a JSON document.
//!
//! The document is a `serde_json::Value`, which is opaque here. The commands
//! read members of its top-level object only, and only integers and strings.

use vstd::prelude::*;
use serde_json::Value;

verus! {

#[verifier::external_type_specification]
#[verifier::external_body]
pub struct ExValue(serde_json::Value);

/// The members of the document's top-level object that hold an integer within
/// the range of `i64`, by key. Empty where the document is no object.
pub uninterp spec fn integer_members(data: Value) -> Map<Seq<char>, i64>;

/// The members of the document's top-level object that hold a string, by key.
/// Empty where the document is no object.
pub uninterp spec fn text_members(data: Value) -> Map<Seq<char>, Seq<char>>;

/// The integer under `key`, if there is one.
pub open spec fn integer_at(data: Value, key: Seq<char>) -> Option<i64> {
    if integer_members(data).contains_key(key) {
        Some(integer_members(data)[key])
    } else {
        None
    }
}

/// The string under `key`, if there is one.
pub open spec fn text_at(data: Value, key: Seq<char>) -> Option<Seq<char>> {
    if text_members(data).contains_key(key) {
        Some(text_members(data)[key])
    } else {
        None
    }
}

/// The view of an optional string slice.
pub open spec fn text_view(text: Option<&str>) -> Option<Seq<char>> {
    match text {
        Some(text) => Some(text@),
        None => None,
    }
}

/// `serde_json::Value`'s indexing by a string, followed by `Value::as_i64`.
/// Indexing gives the member of that key, or `Null` where the document is no
/// object or has no such member, and never panics; `as_i64` gives the number
/// where the member is an integer that fits `i64`, and `None` for anything else.
#[verifier::external_body]
pub(crate) fn member_as_i64(data: &Value, key: &str) -> (number: Option<i64>)
    ensures
        integer_members(*data).contains_key(key@) ==> number == Some(integer_members(*data)[key@]),
        !integer_members(*data).contains_key(key@) ==> number is None,
{
    data[key].as_i64()
}

/// `serde_json::Value`'s indexing by a string, followed by `Value::as_str`.
/// Indexing gives the member of that key, or `Null` where the document is no
/// object or has no such member, and never panics; `as_str` gives the text where
/// the member is a string, and `None` for anything else.
#[verifier::external_body]
pub(crate) fn member_as_str<'a>(data: &'a Value, key: &str) -> (text: Option<&'a str>)
    ensures
        text_members(*data).contains_key(key@) ==> text_view(text) == Some(
            text_members(*data)[key@],
        ),
        !text_members(*data).contains_key(key@) ==> text is None,
{
    data[key].as_str()
}

} // verus!
