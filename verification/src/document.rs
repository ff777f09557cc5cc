//! Manifests read as TOML documents.
//!
//! The `toml` crate reads the text and holds the document. What it hands back
//! is named here by spec functions without a body, and the functions of this
//! module that call it say only that their result is the named one. Nothing
//! in the library says what these names are on a given text: that is the
//! work of the `toml` crate, and is not proved.

use crate::cargo::Cargo;
use crate::error::{text_result, CargoError};
use vstd::prelude::*;

verus! {

/// `toml::Value`, a document or a part of one. The library looks into it
/// only through the functions of this module that call the `toml` crate.
#[verifier::external_type_specification]
#[verifier::external_body]
pub struct ExTomlValue(toml::Value);

/// `toml::de::Error`, the refusal of a text. The library reads nothing from it.
#[verifier::external_type_specification]
#[verifier::external_body]
pub struct ExTomlError(toml::de::Error);

/// The document that `toml::from_str` reads from a text, `None` where it
/// refuses the text.
pub uninterp spec fn toml_document(text: Seq<char>) -> Option<toml::Value>;

/// What `toml::Value::get` finds in a value under a key: the entry of that
/// name where the value is a table that has one.
pub uninterp spec fn toml_entry(value: toml::Value, key: Seq<char>) -> Option<toml::Value>;

/// What `toml::Value::as_str` gives: the text of a value that is a string.
pub uninterp spec fn toml_text(value: toml::Value) -> Option<Seq<char>>;

/// What `toml::Value::as_array` gives: the items of a value that is an array.
pub uninterp spec fn toml_items(value: toml::Value) -> Option<Seq<toml::Value>>;

/// What `toml::Value::as_table` gives, as the table's iterator walks it: the
/// names and values of a value that is a table.
pub uninterp spec fn toml_entries(value: toml::Value) -> Option<Seq<(Seq<char>, toml::Value)>>;

/// Calls `toml::from_str` for a `toml::Value`. The contract names what comes
/// back: the same text always gives the same document or the same refusal.
#[verifier::external_body]
pub(crate) fn parse_document(text: &str) -> (parsed: Result<toml::Value, toml::de::Error>)
    ensures
        parsed matches Ok(document) ==> toml_document(text@) == Some(document),
        parsed is Err ==> toml_document(text@) is None,
{
    toml::from_str::<toml::Value>(text)
}

/// Calls `toml::Value::get` with a text key. The contract names what comes back.
#[verifier::external_body]
pub(crate) fn entry<'a>(value: &'a toml::Value, key: &str) -> (found: Option<&'a toml::Value>)
    ensures
        found matches Some(inner) ==> toml_entry(*value, key@) == Some(*inner),
        found is None ==> toml_entry(*value, key@) is None,
{
    value.get(key)
}

/// Calls `toml::Value::as_str`. The contract names what comes back.
#[verifier::external_body]
pub(crate) fn text_of<'a>(value: &'a toml::Value) -> (text: Option<&'a str>)
    ensures
        text matches Some(inner) ==> toml_text(*value) == Some(inner@),
        text is None ==> toml_text(*value) is None,
{
    value.as_str()
}

/// Calls `toml::Value::as_array`. The contract names what comes back.
#[verifier::external_body]
pub(crate) fn items_of<'a>(value: &'a toml::Value) -> (items: Option<&'a Vec<toml::Value>>)
    ensures
        items matches Some(inner) ==> toml_items(*value) == Some(inner@),
        items is None ==> toml_items(*value) is None,
{
    value.as_array()
}

/// The names and values that a list of borrowed table entries holds.
pub open spec fn entry_views(entries: Seq<(&String, &toml::Value)>) -> Seq<
    (Seq<char>, toml::Value),
> {
    entries.map_values(|entry: (&String, &toml::Value)| (entry.0@, *entry.1))
}

/// Whether no name stands twice among the entries.
pub open spec fn distinct_names<V>(entries: Seq<(Seq<char>, V)>) -> bool {
    forall|i: int, j: int|
        0 <= i < j < entries.len() ==> (#[trigger] entries[i]).0 != (#[trigger] entries[j]).0
}

/// Calls `toml::Value::as_table` and collects what the table's `iter` walks
/// over. The contract names what comes back, and says that no name comes
/// twice: the table is a map from names to values, and its iterator hands
/// each key of the map out once.
#[verifier::external_body]
pub(crate) fn entries_of<'a>(value: &'a toml::Value) -> (entries: Option<
    Vec<(&'a String, &'a toml::Value)>,
>)
    ensures
        entries matches Some(inner) ==> toml_entries(*value) == Some(entry_views(inner@)),
        entries matches Some(inner) ==> distinct_names(entry_views(inner@)),
        entries is None ==> toml_entries(*value) is None,
{
    value.as_table().map(|table| table.iter().collect())
}

/// The text under `key` in the table under `section`, where the document has
/// that table, the table has that key, and what stands there is a string.
pub open spec fn document_text(document: toml::Value, section: Seq<char>, key: Seq<char>) -> Option<
    Seq<char>,
> {
    match toml_entry(document, section) {
        None => None,
        Some(table) => match toml_entry(table, key) {
            None => None,
            Some(value) => toml_text(value),
        },
    }
}

/// What reading a text field of the `package` section of a manifest gives.
pub open spec fn package_field(manifest: Seq<char>, key: Seq<char>) -> Result<
    Seq<char>,
    CargoError,
> {
    match toml_document(manifest) {
        None => Err(CargoError::ParseError),
        Some(document) => match document_text(document, "package"@, key) {
            None => Err(CargoError::NotFound),
            Some(text) => Ok(text),
        },
    }
}

/// The text under `key` in the table under `section` of a document.
pub fn read_text(document: &toml::Value, section: &str, key: &str) -> (text: Option<String>)
    ensures
        text is Some == document_text(*document, section@, key@) is Some,
        text matches Some(inner) ==> document_text(*document, section@, key@) == Some(inner@),
{
    match entry(document, section) {
        None => None,
        Some(table) => match entry(table, key) {
            None => None,
            Some(value) => match text_of(value) {
                None => None,
                Some(text) => Some(text.to_owned()),
            },
        },
    }
}

/// A text field of the `package` section of a manifest.
pub fn read_package_field(manifest: &str, key: &str) -> (field: Result<String, CargoError>)
    ensures
        text_result(field) == package_field(manifest@, key@),
{
    match parse_document(manifest) {
        Err(_) => Err(CargoError::ParseError),
        Ok(document) => match read_text(&document, "package", key) {
            None => Err(CargoError::NotFound),
            Some(text) => Ok(text),
        },
    }
}

impl Cargo {
    /// The version that a manifest declares for its package.
    ///
    /// Fails with `ParseError` where the text is no TOML document, and with
    /// `NotFound` where it has no `package` section, the section has no
    /// `version`, or the version is not a string.
    pub fn get_package_version(manifest: &str) -> (version: Result<String, CargoError>)
        ensures
            text_result(version) == package_field(manifest@, "version"@),
    {
        read_package_field(manifest, "version")
    }

    /// The name that a manifest declares for its package.
    ///
    /// Fails with `ParseError` where the text is no TOML document, and with
    /// `NotFound` where it has no `package` section, the section has no
    /// `name`, or the name is not a string.
    pub fn get_package_name(manifest: &str) -> (name: Result<String, CargoError>)
        ensures
            text_result(name) == package_field(manifest@, "name"@),
    {
        read_package_field(manifest, "name")
    }

    /// The repository that a manifest declares for its package.
    ///
    /// Fails with `ParseError` where the text is no TOML document, and with
    /// `NotFound` where it has no `package` section, the section has no
    /// `repository`, or the repository is not a string.
    pub fn get_package_repo(manifest: &str) -> (repository: Result<String, CargoError>)
        ensures
            text_result(repository) == package_field(manifest@, "repository"@),
    {
        read_package_field(manifest, "repository")
    }

    /// Where the manifest of the package in `package_dir` lies.
    pub fn manifest_path(package_dir: &str) -> (path: String)
        ensures
            path@ == package_dir@ + "/Cargo.toml"@,
    {
        let mut path = package_dir.to_owned();
        path.append("/Cargo.toml");
        path
    }
}

} // verus!
