//! Asking the registry for the latest version of a crate.
//!
//! The caller fetches the address that this module gives and hands the body
//! of the answer back as text. The `serde_json` crate reads the body; what it
//! hands back is named here by spec functions without a body.

use crate::cargo::Cargo;
use crate::error::{text_result, CargoError};
use vstd::prelude::*;

verus! {

/// `serde_json::Value`, an answer or a part of one. The library looks into
/// it only through the functions of this module that call `serde_json`.
#[verifier::external_type_specification]
#[verifier::external_body]
pub struct ExJsonValue(serde_json::Value);

/// `serde_json::Error`, the refusal of a text. The library reads nothing from it.
#[verifier::external_type_specification]
#[verifier::external_body]
pub struct ExJsonError(serde_json::Error);

/// The value that `serde_json::from_str` reads from a text, `None` where it
/// refuses the text.
pub uninterp spec fn json_document(text: Seq<char>) -> Option<serde_json::Value>;

/// What `serde_json::Value::get` finds in a value under a key: the member of
/// that name where the value is an object that has one.
pub uninterp spec fn json_member(value: serde_json::Value, key: Seq<char>) -> Option<
    serde_json::Value,
>;

/// What `serde_json::Value::as_str` gives: the text of a value that is a string.
pub uninterp spec fn json_text(value: serde_json::Value) -> Option<Seq<char>>;

/// Calls `serde_json::from_str` for a `serde_json::Value`. The contract names
/// what comes back: the same text always gives the same value or the same
/// refusal.
#[verifier::external_body]
pub(crate) fn parse_json(text: &str) -> (parsed: Result<serde_json::Value, serde_json::Error>)
    ensures
        parsed matches Ok(value) ==> json_document(text@) == Some(value),
        parsed is Err ==> json_document(text@) is None,
{
    serde_json::from_str::<serde_json::Value>(text)
}

/// Calls `serde_json::Value::get` with a text key. The contract names what
/// comes back.
#[verifier::external_body]
pub(crate) fn member<'a>(value: &'a serde_json::Value, key: &str) -> (found: Option<
    &'a serde_json::Value,
>)
    ensures
        found matches Some(inner) ==> json_member(*value, key@) == Some(*inner),
        found is None ==> json_member(*value, key@) is None,
{
    value.get(key)
}

/// Calls `serde_json::Value::as_str`. The contract names what comes back.
#[verifier::external_body]
pub(crate) fn json_text_of<'a>(value: &'a serde_json::Value) -> (text: Option<&'a str>)
    ensures
        text matches Some(inner) ==> json_text(*value) == Some(inner@),
        text is None ==> json_text(*value) is None,
{
    value.as_str()
}

/// Where the registry describes crates.
pub open spec fn registry_prefix() -> Seq<char> {
    "https://crates.io/api/v1/crates/"@
}

/// The latest version that an answer of the registry names: the text under
/// `crate.max_version`.
pub open spec fn max_version(answer: serde_json::Value) -> Option<Seq<char>> {
    match json_member(answer, "crate"@) {
        None => None,
        Some(described) => match json_member(described, "max_version"@) {
            None => None,
            Some(version) => json_text(version),
        },
    }
}

/// What reading the latest version from an answer gives.
pub open spec fn latest_in(answer: serde_json::Value) -> Result<Seq<char>, CargoError> {
    match max_version(answer) {
        None => Err(CargoError::NotFound),
        Some(version) => Ok(version),
    }
}

/// What reading the latest version from the body of an answer gives.
pub open spec fn latest_version(response: Seq<char>) -> Result<Seq<char>, CargoError> {
    match json_document(response) {
        None => Err(CargoError::ParseError),
        Some(answer) => latest_in(answer),
    }
}

/// The latest version that an answer of the registry names: the text under
/// `crate.max_version`.
///
/// Fails with `NotFound` where the answer has no `crate.max_version` or that
/// is no text.
pub fn latest_version_of(answer: &serde_json::Value) -> (version: Result<String, CargoError>)
    ensures
        text_result(version) == latest_in(*answer),
{
    match member(answer, "crate") {
        None => Err(CargoError::NotFound),
        Some(described) => match member(described, "max_version") {
            None => Err(CargoError::NotFound),
            Some(version) => match json_text_of(version) {
                None => Err(CargoError::NotFound),
                Some(text) => Ok(text.to_owned()),
            },
        },
    }
}

impl Cargo {
    /// The address at which the registry describes a crate.
    pub fn registry_url(crate_name: &str) -> (url: String)
        ensures
            url@ == registry_prefix() + crate_name@,
    {
        let mut url = "https://crates.io/api/v1/crates/".to_owned();
        url.append(crate_name);
        url
    }

    /// The latest version of a crate, read from the body of the registry's
    /// answer: the text under `crate.max_version`.
    ///
    /// Fails with `ParseError` where the body is no JSON text, and with
    /// `NotFound` where it has no `crate.max_version` or that is no text.
    pub fn get_latest_crate_version(response: &str) -> (version: Result<String, CargoError>)
        ensures
            text_result(version) == latest_version(response@),
    {
        match parse_json(response) {
            Err(_) => Err(CargoError::ParseError),
            Ok(answer) => latest_version_of(&answer),
        }
    }
}

} // verus!
