//! Reading fields out of JSON payloads with `serde_json`.
//!
//! JSON payloads travel through the library as their JSON text.

use vstd::prelude::*;

verus! {

/// The integer `serde_json` reads at `key` of the JSON object in `text`:
/// `None` when the text is not JSON, the key is absent, or the value is not
/// an `i64`.
pub uninterp spec fn json_i64_at(text: Seq<char>, key: Seq<char>) -> Option<i64>;

/// `serde_json::from_str::<Value>`, then `Value::get(key)` and
/// `Value::as_i64`. The result is named; it depends on the text and key
/// alone.
#[verifier::external_body]
pub(crate) fn json_i64_field(text: &str, key: &str) -> (r: Option<i64>)
    ensures
        r == json_i64_at(text@, key@),
{
    let value: serde_json::Value = serde_json::from_str(text).ok()?;
    value.get(key)?.as_i64()
}

/// The string `serde_json` reads at `key` of the JSON object in `text`:
/// `None` when the text is not JSON, the key is absent, or the value is not
/// a string.
pub uninterp spec fn json_str_at(text: Seq<char>, key: Seq<char>) -> Option<Seq<char>>;

/// `serde_json::from_str::<Value>`, then `Value::get(key)` and
/// `Value::as_str`. The result is named; it depends on the text and key
/// alone.
#[verifier::external_body]
pub(crate) fn json_str_field(text: &str, key: &str) -> (r: Option<String>)
    ensures
        match r {
            Some(s) => json_str_at(text@, key@) == Some(s@),
            None => json_str_at(text@, key@) is None,
        },
{
    let value: serde_json::Value = serde_json::from_str(text).ok()?;
    value.get(key)?.as_str().map(|s| s.to_string())
}

/// The whitespace JSON allows around a value: space, line feed, tab and
/// carriage return.
pub open spec fn is_json_space(c: char) -> bool {
    c == ' ' || c == '\n' || c == '\t' || c == '\r'
}

/// Whether the text is JSON `null`: the four letters `null` with nothing
/// but JSON whitespace before or after them.
pub open spec fn json_null(text: Seq<char>) -> bool {
    exists|i: int|
        0 <= i && i + 4 <= text.len() && #[trigger] text.subrange(i, i + 4) == "null"@
            && (forall|k: int| 0 <= k < i ==> is_json_space(text[k]))
            && (forall|k: int| i + 4 <= k < text.len() ==> is_json_space(text[k]))
}

/// `serde_json::from_str::<Value>` followed by `Value::is_null`; text that
/// is not JSON is not null. The parser skips JSON whitespace before the
/// value, reads `null` as the only spelling of the null value, and refuses
/// any trailing character but JSON whitespace.
#[verifier::external_body]
pub(crate) fn json_is_null(text: &str) -> (r: bool)
    ensures
        r == json_null(text@),
{
    match serde_json::from_str::<serde_json::Value>(text) {
        Ok(v) => v.is_null(),
        Err(_) => false,
    }
}

/// The JSON text `serde_json` writes for the member `key` of the object in
/// `text`: `None` when the text is not JSON or has no such member.
pub uninterp spec fn json_member_at(text: Seq<char>, key: Seq<char>) -> Option<Seq<char>>;

/// `serde_json::from_str::<Value>`, `Value::get(key)`, then
/// `serde_json::to_string` of the member. The result is named; it depends
/// on the text and key alone.
#[verifier::external_body]
pub(crate) fn json_member(text: &str, key: &str) -> (r: Option<String>)
    ensures
        match r {
            Some(m) => json_member_at(text@, key@) == Some(m@),
            None => json_member_at(text@, key@) is None,
        },
{
    let value: serde_json::Value = serde_json::from_str(text).ok()?;
    serde_json::to_string(value.get(key)?).ok()
}

/// The JSON texts of the elements of the array in `text`, in order: `None`
/// when the text is not a JSON array.
pub uninterp spec fn json_items(text: Seq<char>) -> Option<Seq<Seq<char>>>;

/// `serde_json::from_str::<Value>`, `Value::as_array`, then
/// `serde_json::to_string` of each element. The result is named; it depends
/// on the text alone.
#[verifier::external_body]
pub(crate) fn json_array_items(text: &str) -> (r: Option<Vec<String>>)
    ensures
        match r {
            Some(v) => json_items(text@) matches Some(items) && items.len() == v@.len()
                && forall|i: int| 0 <= i < v@.len() ==> (#[trigger] v@[i])@ == items[i],
            None => json_items(text@) is None,
        },
{
    let value: serde_json::Value = serde_json::from_str(text).ok()?;
    let items = value.as_array()?;
    let mut out = Vec::new();
    for item in items {
        out.push(serde_json::to_string(item).ok()?);
    }
    Some(out)
}

/// The string the JSON text holds: `None` when it is not a JSON string.
pub uninterp spec fn json_string_value(text: Seq<char>) -> Option<Seq<char>>;

/// `serde_json::from_str::<Value>` followed by `Value::as_str`. The result
/// is named; it depends on the text alone.
#[verifier::external_body]
pub(crate) fn json_as_str(text: &str) -> (r: Option<String>)
    ensures
        match r {
            Some(s) => json_string_value(text@) == Some(s@),
            None => json_string_value(text@) is None,
        },
{
    let value: serde_json::Value = serde_json::from_str(text).ok()?;
    value.as_str().map(|s| s.to_string())
}

/// The keys of the JSON object in `text`, in the order `serde_json` keeps
/// them: `None` when the text is not a JSON object.
pub uninterp spec fn json_keys(text: Seq<char>) -> Option<Seq<Seq<char>>>;

/// `serde_json::from_str::<Value>`, `Value::as_object`, then the map's
/// keys. The result is named; it depends on the text alone.
#[verifier::external_body]
pub(crate) fn json_object_keys(text: &str) -> (r: Option<Vec<String>>)
    ensures
        match r {
            Some(v) => json_keys(text@) matches Some(keys) && keys.len() == v@.len()
                && forall|i: int| 0 <= i < v@.len() ==> (#[trigger] v@[i])@ == keys[i],
            None => json_keys(text@) is None,
        },
{
    let value: serde_json::Value = serde_json::from_str(text).ok()?;
    Some(value.as_object()?.keys().cloned().collect())
}

/// The JSON string literal `serde_json` writes for `s`: quoted, with the
/// characters JSON requires escaped.
pub uninterp spec fn json_quoted(s: Seq<char>) -> Seq<char>;

/// `serde_json::to_string` of a string. Writing a `&str` cannot fail. The
/// result is named; it depends on the string alone.
#[verifier::external_body]
pub(crate) fn json_quote(s: &str) -> (r: String)
    ensures
        r@ == json_quoted(s@),
{
    serde_json::to_string(s).unwrap_or_default()
}

} // verus!
