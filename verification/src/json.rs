//! Reading strings out of JSON text and writing them into it.
//!
//! The JSON itself is read and written by `serde_json`. What it finds at a
//! place in a document has a name here, so that the locator can say which
//! address it returns.

use vstd::prelude::*;

verus! {

#[verifier::external_type_specification]
#[verifier::external_body]
pub struct ExJsonError(serde_json::Error);

/// The string that the JSON document `text` holds at the JSON pointer
/// `pointer`; `None` where `text` is no JSON document, where the pointer
/// leads nowhere in it, and where what it leads to is no string.
pub uninterp spec fn json_string_at(text: Seq<char>, pointer: Seq<char>) -> Option<Seq<char>>;

/// Whether the JSON document `text` holds an array at the JSON pointer
/// `pointer`; `false` also where `text` is no JSON document or the pointer
/// leads nowhere in it.
pub uninterp spec fn json_array_at(text: Seq<char>, pointer: Seq<char>) -> bool;

/// The JSON string literal that writes `s`: `s` between quotation marks,
/// with the characters escaped that JSON wants escaped.
pub uninterp spec fn json_string_literal(s: Seq<char>) -> Seq<char>;

/// `serde_json::from_str` to a `Value`, then `Value::pointer` and
/// `Value::as_str`: the string found at the pointer is `json_string_at` of
/// the two texts. An error says that the text is no JSON document.
#[verifier::external_body]
pub(crate) fn string_at(text: &str, pointer: &str) -> (r: Result<
    Option<String>,
    serde_json::Error,
>)
    ensures
        match r {
            Ok(Some(found)) => json_string_at(text@, pointer@) == Some(found@),
            Ok(None) => json_string_at(text@, pointer@) is None,
            Err(_) => json_string_at(text@, pointer@) is None,
        },
{
    let document: serde_json::Value = serde_json::from_str(text)?;
    Ok(document.pointer(pointer).and_then(serde_json::Value::as_str).map(String::from))
}

/// `serde_json::from_str` to a `Value`, then `Value::pointer` and
/// `Value::is_array`: whether an array stands at the pointer is
/// `json_array_at` of the two texts. An error says that the text is no JSON
/// document.
#[verifier::external_body]
pub(crate) fn array_at(text: &str, pointer: &str) -> (r: Result<bool, serde_json::Error>)
    ensures
        match r {
            Ok(found) => json_array_at(text@, pointer@) == found,
            Err(_) => !json_array_at(text@, pointer@),
        },
{
    let document: serde_json::Value = serde_json::from_str(text)?;
    Ok(document.pointer(pointer).map(serde_json::Value::is_array).unwrap_or_default())
}

/// `serde_json::to_string` of a string: the JSON string literal that writes
/// it. Writing a string into memory has nothing that can fail.
#[verifier::external_body]
pub(crate) fn quote(s: &str) -> (r: Result<String, serde_json::Error>)
    ensures
        match r {
            Ok(literal) => literal@ == json_string_literal(s@),
            Err(_) => false,
        },
{
    serde_json::to_string(s)
}

} // verus!
