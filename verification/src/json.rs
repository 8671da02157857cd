use vstd::prelude::*;

use crate::record::texts_view;

verus! {

/// The integer under `key` in the JSON document `blob`. Stands for what
/// `serde_json::from_str::<Value>`, `Value::get` and `Value::as_u64` return
/// together: a value that depends on the text and the key alone. It is
/// `Some` when the blob parses as a JSON object (within the parser's
/// nesting limit) whose `key` holds a non-negative integer that fits.
pub uninterp spec fn json_u64_field(blob: Seq<char>, key: Seq<char>) -> Option<u64>;

/// The text under `key` in the JSON document `blob`: as `json_u64_field`,
/// but through `Value::as_str`, so `Some` when the field holds a JSON
/// string.
pub uninterp spec fn json_text_field(blob: Seq<char>, key: Seq<char>) -> Option<Seq<char>>;

/// The texts under `key` in the JSON document `blob`: as `json_u64_field`,
/// but through `Value::as_array` with `Value::as_str` on each element, so
/// `Some` when the field holds a JSON array of strings.
pub uninterp spec fn json_text_list_field(blob: Seq<char>, key: Seq<char>) -> Option<
    Seq<Seq<char>>,
>;

/// The decimal text under `key` in the JSON document `blob`: as
/// `json_u64_field`, but through `Value::as_number` and the `Display` of
/// `serde_json::Number`, so `Some` when the field holds a JSON number.
pub uninterp spec fn json_number_text_field(blob: Seq<char>, key: Seq<char>) -> Option<Seq<char>>;

/// Relies on `serde_json::from_str::<Value>`, `Value::get` and
/// `Value::as_u64`: the integer field of one JSON document.
#[verifier::external_body]
pub fn blob_u64_field(blob: &str, key: &str) -> (r: Option<u64>)
    ensures
        r == json_u64_field(blob@, key@),
{
    serde_json::from_str::<serde_json::Value>(blob).ok().and_then(
        |v| v.get(key).and_then(|f| f.as_u64()),
    )
}

/// Relies on `serde_json::from_str::<Value>`, `Value::get` and
/// `Value::as_str`: the text field of one JSON document.
#[verifier::external_body]
pub fn blob_text_field(blob: &str, key: &str) -> (r: Option<String>)
    ensures
        (r is Some) == (json_text_field(blob@, key@) is Some),
        r matches Some(s) ==> json_text_field(blob@, key@) == Some(s@),
{
    serde_json::from_str::<serde_json::Value>(blob).ok().and_then(
        |v| v.get(key).and_then(|f| f.as_str().map(str::to_string)),
    )
}

/// Relies on `serde_json::from_str::<Value>`, `Value::get`,
/// `Value::as_array` and `Value::as_str` on each element: the
/// list-of-text field of one JSON document.
#[verifier::external_body]
pub fn blob_text_list_field(blob: &str, key: &str) -> (r: Option<Vec<String>>)
    ensures
        (r is Some) == (json_text_list_field(blob@, key@) is Some),
        r matches Some(v) ==> json_text_list_field(blob@, key@) == Some(texts_view(v@)),
{
    let doc = serde_json::from_str::<serde_json::Value>(blob).ok()?;
    let items = doc.get(key)?.as_array()?;
    items.iter().map(|x| x.as_str().map(str::to_string)).collect()
}

/// Relies on `serde_json::from_str::<Value>`, `Value::get`,
/// `Value::as_number` and the `Display` of `serde_json::Number`: the
/// decimal text of the number field of one JSON document.
#[verifier::external_body]
pub fn blob_number_text_field(blob: &str, key: &str) -> (r: Option<String>)
    ensures
        (r is Some) == (json_number_text_field(blob@, key@) is Some),
        r matches Some(s) ==> json_number_text_field(blob@, key@) == Some(s@),
{
    let doc = serde_json::from_str::<serde_json::Value>(blob).ok()?;
    doc.get(key)?.as_number().map(|n| n.to_string())
}

} // verus!
