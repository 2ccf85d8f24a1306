//! The JSON values of the serde_json crate, as this crate holds and copies them.

use vstd::prelude::*;

verus! {

/// A JSON document of the serde_json crate (an opaque value here).
#[verifier::external_type_specification]
#[verifier::external_body]
pub struct ExJsonValue(serde_json::Value);

/// `serde_json::Value::clone` (a derived `Clone`) returns a value equal to its argument.
pub assume_specification[ <serde_json::Value as Clone>::clone ](v: &serde_json::Value) -> (r:
    serde_json::Value)
    ensures
        r == *v,
;

/// A parse error of the serde_json crate (opaque here).
#[verifier::external_type_specification]
#[verifier::external_body]
pub struct ExJsonError(serde_json::Error);

/// What `serde_json::from_str::<Vec<String>>` makes of the text `text`: the
/// list of strings it denotes, or the message of the error reported.
pub uninterp spec fn json_string_list(text: Seq<char>) -> Result<Seq<Seq<char>>, Seq<char>>;

/// The message that the `Display` of the serde_json error `e` writes.
pub uninterp spec fn json_error_text(e: serde_json::Error) -> Seq<char>;

/// Calls `serde_json::from_str::<Vec<String>>`. Stated: it succeeds exactly
/// when `json_string_list` gives a list, and then returns that list; on
/// failure the error's message is the one `json_string_list` gives.
#[verifier::external_body]
pub(crate) fn parse_json_string_list(text: &str) -> (r: Result<Vec<String>, serde_json::Error>)
    ensures
        match r {
            Ok(v) => json_string_list(text@) == Ok::<Seq<Seq<char>>, Seq<char>>(v.deep_view()),
            Err(e) => json_string_list(text@) == Err::<Seq<Seq<char>>, Seq<char>>(json_error_text(e)),
        },
{
    serde_json::from_str::<Vec<String>>(text)
}

/// Calls the `Display` of `serde_json::Error`; the result is
/// `json_error_text(e)`.
#[verifier::external_body]
pub(crate) fn json_error_message(e: &serde_json::Error) -> (m: String)
    ensures
        m@ == json_error_text(*e),
{
    e.to_string()
}

} // verus!
