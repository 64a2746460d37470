//! Reading members out of JSON texts.

use vstd::prelude::*;

verus! {

/// `serde_json::Error`: why a text is no JSON text. It is read only for
/// its message.
#[verifier::external_type_specification]
#[verifier::external_body]
pub struct ExJsonError(serde_json::Error);

/// Whether `text` is a JSON text, as `serde_json::from_str` decides it.
pub uninterp spec fn json_valid(text: Seq<char>) -> bool;

/// The member `key` of the JSON object `text`, where the text is an object
/// that has such a member and the member is a string.
pub uninterp spec fn json_text(text: Seq<char>, key: Seq<char>) -> Option<Seq<char>>;

/// Parses `text` with `serde_json::from_str` and picks the string member
/// `key` with `Value::get` and `Value::as_str`. The contract only names
/// the results, which depend on the text and the key alone.
#[verifier::external_body]
pub(crate) fn json_text_member(text: &str, key: &str) -> (r: Result<Option<String>, serde_json::Error>)
    ensures
        match r {
            Ok(Some(s)) => json_valid(text@) && json_text(text@, key@) == Some(s@),
            Ok(None) => json_valid(text@) && json_text(text@, key@) is None,
            Err(_) => !json_valid(text@),
        },
{
    let v: serde_json::Value = serde_json::from_str(text)?;
    Ok(v.get(key).and_then(serde_json::Value::as_str).map(str::to_owned))
}

/// The message of a parse error, by its `to_string`. Nothing is claimed of
/// its text.
#[verifier::external_body]
pub(crate) fn json_error_text(e: &serde_json::Error) -> (r: String) {
    e.to_string()
}

} // verus!
