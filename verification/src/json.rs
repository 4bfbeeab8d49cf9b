//! Looking up values in JSON documents.

use vstd::prelude::*;
use serde_json::Value;

verus! {

/// Whether bytes are a JSON document.
pub uninterp spec fn is_json(document: Seq<u8>) -> bool;

/// The text at a path of a document, if there is one.
pub uninterp spec fn json_text(document: Seq<u8>, path: Seq<char>) -> Option<Seq<char>>;

/// The number at a path of a document, as the bits of the double-precision
/// number nearest to it.
pub uninterp spec fn json_number(document: Seq<u8>, path: Seq<char>) -> Option<u64>;

/// The whole number at a path of a document, if it is one that 64 bits hold.
pub uninterp spec fn json_natural(document: Seq<u8>, path: Seq<char>) -> Option<u64>;

/// The truth value at a path of a document.
pub uninterp spec fn json_flag(document: Seq<u8>, path: Seq<char>) -> Option<bool>;

/// The length of the array at a path of a document.
pub uninterp spec fn json_length(document: Seq<u8>, path: Seq<char>) -> Option<usize>;

/// `serde_json::from_slice` into a `serde_json::Value`.
///
/// Whether it succeeds depends on the bytes alone.
#[verifier::external_body]
pub(crate) fn valid_json(document: &Vec<u8>) -> (result: bool)
    ensures
        result == is_json(document@),
{
    serde_json::from_slice::<Value>(document).is_ok()
}

/// `serde_json::Value::pointer` and `serde_json::Value::as_str`, on the value
/// that `serde_json::from_slice` reads.
///
/// The result depends on the bytes and the path alone; it is nothing where the
/// bytes are no document, the path leads nowhere, or it leads to something else.
#[verifier::external_body]
pub(crate) fn text_at(document: &Vec<u8>, path: &str) -> (result: Option<String>)
    ensures
        match result {
            Some(text) => json_text(document@, path@) == Some(text@),
            None => json_text(document@, path@) is None,
        },
{
    serde_json::from_slice::<Value>(document).ok()?.pointer(path)?.as_str().map(String::from)
}

/// `serde_json::Value::pointer` and `serde_json::Value::as_f64`, on the value
/// that `serde_json::from_slice` reads.
///
/// The result depends on the bytes and the path alone.
#[verifier::external_body]
pub(crate) fn number_at(document: &Vec<u8>, path: &str) -> (result: Option<u64>)
    ensures
        result == json_number(document@, path@),
{
    let value = serde_json::from_slice::<Value>(document).ok()?;
    value.pointer(path)?.as_f64().map(|number| number.to_bits())
}

/// `serde_json::Value::pointer` and `serde_json::Value::as_u64`, on the value
/// that `serde_json::from_slice` reads.
///
/// The result depends on the bytes and the path alone.
#[verifier::external_body]
pub(crate) fn natural_at(document: &Vec<u8>, path: &str) -> (result: Option<u64>)
    ensures
        result == json_natural(document@, path@),
{
    serde_json::from_slice::<Value>(document).ok()?.pointer(path)?.as_u64()
}

/// `serde_json::Value::pointer` and `serde_json::Value::as_bool`, on the value
/// that `serde_json::from_slice` reads.
///
/// The result depends on the bytes and the path alone.
#[verifier::external_body]
pub(crate) fn flag_at(document: &Vec<u8>, path: &str) -> (result: Option<bool>)
    ensures
        result == json_flag(document@, path@),
{
    serde_json::from_slice::<Value>(document).ok()?.pointer(path)?.as_bool()
}

/// `serde_json::Value::pointer` and `serde_json::Value::as_array`, on the value
/// that `serde_json::from_slice` reads, and the length of the array.
///
/// The result depends on the bytes and the path alone.
#[verifier::external_body]
pub(crate) fn length_at(document: &Vec<u8>, path: &str) -> (result: Option<usize>)
    ensures
        result == json_length(document@, path@),
{
    let value = serde_json::from_slice::<Value>(document).ok()?;
    value.pointer(path)?.as_array().map(|array| array.len())
}

} // verus!
