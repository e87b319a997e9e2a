//! The JSON values that clients store in their wallets, read and written through `serde_json`.
use vstd::prelude::*;

verus! {

/// A JSON value, as `serde_json` holds it.
#[verifier::external_type_specification]
#[verifier::external_body]
pub struct ExJsonValue(serde_json::Value);

/// A failure of `serde_json` to read or write JSON.
#[verifier::external_type_specification]
#[verifier::external_body]
pub struct ExJsonError(serde_json::Error);

/// Whether `text` is a JSON text that `serde_json` reads into a value.
pub uninterp spec fn is_json_text(text: Seq<char>) -> bool;

/// The value that `serde_json` reads from `text`, where it reads one.
pub uninterp spec fn json_value_of(text: Seq<char>) -> serde_json::Value;

/// The failure that `serde_json` reports for `text`, where it reads no value.
pub uninterp spec fn json_failure_of(text: Seq<char>) -> serde_json::Error;

/// The JSON text that `serde_json` writes for `value`.
pub uninterp spec fn json_text_of(value: serde_json::Value) -> Seq<char>;

/// Reads a JSON value from `text`.
///
/// Trusted: `serde_json::from_str` at the type `serde_json::Value`. The contract claims that
/// the outcome depends on the text alone: whether it succeeds, the value read and the failure
/// reported are named over the text. Which texts read, and into what, is not stated.
#[verifier::external_body]
pub(crate) fn parse_json(text: &str) -> (r: Result<serde_json::Value, serde_json::Error>)
    ensures
        r is Ok == is_json_text(text@),
        r is Ok ==> r->Ok_0 == json_value_of(text@),
        r is Err ==> r->Err_0 == json_failure_of(text@),
{
    serde_json::from_str(text)
}

/// Writes `value` as JSON text.
///
/// Trusted: `serde_json::to_string` at the type `serde_json::Value`. Writing a `Value` always
/// succeeds (its `Serialize` impl writes into a `Vec`, which never fails, and its map keys are
/// strings); the text is named over the value. What the text is, is not stated.
#[verifier::external_body]
pub(crate) fn write_json(value: &serde_json::Value) -> (r: Result<String, serde_json::Error>)
    ensures
        r is Ok,
        r is Ok ==> r->Ok_0@ == json_text_of(*value),
{
    serde_json::to_string(value)
}

} // verus!
