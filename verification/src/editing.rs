//! Setting the fields of the `package` section of a manifest.
//!
//! The `toml_edit` crate reads the manifest, holds it with its comments and
//! its layout, takes the new fields and writes the text out again. What it
//! hands back is named here by spec functions without a body. The library
//! proves which fields are set, to what, and that every other field of the
//! section and every other section is the one that was read; it does not
//! prove how `toml_edit` reads or writes text.

use crate::cargo::Cargo;
use crate::cargo_toml::Author;
use crate::catalog::CrateType;
use crate::error::{text_result, CargoError};
use crate::text::string_views;
use vstd::prelude::*;

verus! {

/// `toml_edit::Document`, a manifest with its layout. The library looks into
/// it only through the functions of this module that call `toml_edit`.
#[verifier::external_type_specification]
#[verifier::external_body]
pub struct ExEditDocument(toml_edit::Document);

/// `toml_edit::Item`, what stands under a key. The library carries it from
/// where it is made to where it is put and reads nothing from it.
#[verifier::external_type_specification]
#[verifier::external_body]
pub struct ExEditItem(toml_edit::Item);

/// `toml_edit::TomlError`, the refusal of a text. The library reads nothing from it.
#[verifier::external_type_specification]
#[verifier::external_body]
pub struct ExEditError(toml_edit::TomlError);

/// The document that `toml_edit::Document` reads from a text through its
/// `FromStr`, `None` where it refuses the text.
pub uninterp spec fn edit_document(text: Seq<char>) -> Option<toml_edit::Document>;

/// What a document holds under the name of a section where that is a table
/// written with a header of its own: the items of the table by their keys.
/// `None` where the root of the document is no table, or has nothing of that
/// name, or something that is no such table.
pub uninterp spec fn edit_section(document: toml_edit::Document, section: Seq<char>) -> Option<
    Map<Seq<char>, toml_edit::Item>,
>;

/// The item that `toml_edit::value` makes of a text.
pub uninterp spec fn edit_text_item(text: Seq<char>) -> toml_edit::Item;

/// The item that `toml_edit::value` makes of an array to which the texts
/// were pushed one after the other.
pub uninterp spec fn edit_list_item(texts: Seq<Seq<char>>) -> toml_edit::Item;

/// The document after `toml_edit::Table::insert` has put an item under a key
/// of one of its sections.
pub uninterp spec fn edit_with_item(
    document: toml_edit::Document,
    section: Seq<char>,
    key: Seq<char>,
    item: toml_edit::Item,
) -> toml_edit::Document;

/// The text that `toml_edit::Document` writes through its `Display`.
pub uninterp spec fn edit_rendered(document: toml_edit::Document) -> Seq<char>;

/// Calls `str::parse` for a `toml_edit::Document`. The contract names what
/// comes back: the same text always gives the same document or the same
/// refusal.
#[verifier::external_body]
pub(crate) fn parse_editable(text: &str) -> (parsed: Result<
    toml_edit::Document,
    toml_edit::TomlError,
>)
    ensures
        parsed matches Ok(document) ==> edit_document(text@) == Some(document),
        parsed is Err ==> edit_document(text@) is None,
{
    text.parse::<toml_edit::Document>()
}

/// Calls `toml_edit::Item::as_table` on the root of the document,
/// `toml_edit::Table::get` on that table and `toml_edit::Item::is_table` on
/// what it finds. The contract says that this tells whether the document has
/// the section. A document whose root is no table has no section.
#[verifier::external_body]
pub(crate) fn has_section(document: &toml_edit::Document, section: &str) -> (present: bool)
    ensures
        present == edit_section(*document, section@) is Some,
{
    let root = document.as_item().as_table();
    root.and_then(|table| table.get(section)).is_some_and(|item| item.is_table())
}

/// Calls `toml_edit::value` on a text. The contract names what comes back.
#[verifier::external_body]
pub(crate) fn text_item(text: &str) -> (item: toml_edit::Item)
    ensures
        item == edit_text_item(text@),
{
    toml_edit::value(text)
}

/// Calls `toml_edit::Array::push` for each text in turn and `toml_edit::value`
/// on the array. The contract names what comes back.
#[verifier::external_body]
pub(crate) fn list_item(texts: &Vec<String>) -> (item: toml_edit::Item)
    ensures
        item == edit_list_item(string_views(texts@)),
{
    let mut array = toml_edit::Array::new();
    for text in texts {
        array.push(text.as_str());
    }
    toml_edit::value(array)
}

/// Calls `toml_edit::Table::insert` on a section of the document. The
/// contract names the document that results, and says what the source of
/// `insert` shows: the section holds the item under the key, holds every
/// other item as before, and no other section has changed.
#[verifier::external_body]
pub(crate) fn set_item(
    document: &mut toml_edit::Document,
    section: &str,
    key: &str,
    item: toml_edit::Item,
)
    requires
        edit_section(*old(document), section@) is Some,
    ensures
        *final(document) == edit_with_item(*old(document), section@, key@, item),
        edit_section(*final(document), section@) == Some(
            edit_section(*old(document), section@)->0.insert(key@, item),
        ),
        forall|other: Seq<char>|
            other != section@ ==> #[trigger] edit_section(*final(document), other) == edit_section(
                *old(document),
                other,
            ),
{
    let root = document.as_item_mut().as_table_mut();
    let found = root.and_then(|table| table.get_mut(section));
    if let Some(table) = found.and_then(|inner| inner.as_table_mut()) {
        table.insert(key, item);
    }
}

/// Calls `to_string` on a document that has a `package` section. The
/// contract names what comes back. The section is asked for because the
/// `Display` of `toml_edit::Document` takes the root of the document to be a
/// table, which it is where the root has a section.
#[verifier::external_body]
pub(crate) fn render(document: &toml_edit::Document) -> (text: String)
    requires
        edit_section(*document, "package"@) is Some,
    ensures
        text@ == edit_rendered(*document),
{
    document.to_string()
}

/// The author of a package by the texts of the record.
pub struct AuthorView {
    pub name: Seq<char>,
    pub organization: Seq<char>,
    pub email: Seq<char>,
}

impl View for Author {
    type V = AuthorView;

    open spec fn view(&self) -> AuthorView {
        AuthorView { name: self.name@, organization: self.organization@, email: self.email@ }
    }
}

/// The fields that an update sets: its arguments as texts.
pub struct PackageFields {
    pub author: AuthorView,
    pub description: Seq<char>,
    pub repository: Seq<char>,
    pub license: Seq<char>,
    pub crate_type: CrateType,
}

impl PackageFields {
    /// The authors of the package: the organization, and then the person
    /// with the address in angle brackets.
    pub open spec fn authors(self) -> Seq<Seq<char>> {
        seq![
            self.author.organization,
            self.author.name + " <"@ + self.author.email + ">"@,
        ]
    }

    /// The keywords of the package: the one word that tells its kind.
    pub open spec fn keywords(self) -> Seq<Seq<char>> {
        match self.crate_type {
            CrateType::App => seq!["app"@],
            CrateType::Module => seq!["module"@],
        }
    }

    /// The document with the five fields set in its `package` section.
    pub open spec fn set_in(self, document: toml_edit::Document) -> toml_edit::Document {
        let package = "package"@;
        let first = edit_with_item(document, package, "authors"@, edit_list_item(self.authors()));
        let second = edit_with_item(
            first,
            package,
            "description"@,
            edit_text_item(self.description),
        );
        let third = edit_with_item(second, package, "repository"@, edit_text_item(self.repository));
        let fourth = edit_with_item(third, package, "license"@, edit_text_item(self.license));
        edit_with_item(fourth, package, "keywords"@, edit_list_item(self.keywords()))
    }

    /// The items of a `package` section with the five fields set.
    pub open spec fn set_among(self, items: Map<Seq<char>, toml_edit::Item>) -> Map<
        Seq<char>,
        toml_edit::Item,
    > {
        items.insert("authors"@, edit_list_item(self.authors())).insert(
            "description"@,
            edit_text_item(self.description),
        ).insert("repository"@, edit_text_item(self.repository)).insert(
            "license"@,
            edit_text_item(self.license),
        ).insert("keywords"@, edit_list_item(self.keywords()))
    }
}

/// Whether a key is one of the five that an update sets.
pub open spec fn is_set_key(key: Seq<char>) -> bool {
    key == "authors"@ || key == "description"@ || key == "repository"@ || key == "license"@ || key
        == "keywords"@
}

/// What updating the `package` section of a manifest gives.
pub open spec fn updated_manifest(manifest: Seq<char>, fields: PackageFields) -> Result<
    Seq<char>,
    CargoError,
> {
    match edit_document(manifest) {
        None => Err(CargoError::ParseError),
        Some(document) => if edit_section(document, "package"@) is None {
            Err(CargoError::SchemaError)
        } else {
            Ok(edit_rendered(fields.set_in(document)))
        },
    }
}

/// Setting the five fields leaves every other key of the section as it was:
/// a key that was there is still there with the item it had, and a key that
/// was not there has not appeared.
pub proof fn lemma_other_keys_stay(
    fields: PackageFields,
    items: Map<Seq<char>, toml_edit::Item>,
    key: Seq<char>,
)
    requires
        !is_set_key(key),
    ensures
        fields.set_among(items).dom().contains(key) == items.dom().contains(key),
        items.dom().contains(key) ==> fields.set_among(items)[key] == items[key],
{
}

/// What the author of a package is listed as: the name, and the address in
/// angle brackets.
pub fn author_line(author: &Author) -> (line: String)
    ensures
        line@ == author.name@ + " <"@ + author.email@ + ">"@,
{
    let mut line = author.name.clone();
    line.append(" <");
    line.append(author.email.as_str());
    line.append(">");
    line
}

/// The word that tells the kind of a crate among its keywords.
pub fn kind_keyword(crate_type: CrateType) -> (word: &'static str)
    ensures
        word@ == match crate_type {
            CrateType::App => "app"@,
            CrateType::Module => "module"@,
        },
{
    match crate_type {
        CrateType::App => "app",
        CrateType::Module => "module",
    }
}

/// Sets the five fields in the `package` section of a document.
///
/// Fails with `SchemaError`, and leaves the document as it is, where the
/// document has no `package` section.
pub fn set_package_fields(
    document: &mut toml_edit::Document,
    author: &Author,
    description: &str,
    repository: &str,
    license: &str,
    crate_type: CrateType,
) -> (done: Result<(), CargoError>)
    ensures
        ({
            let fields = PackageFields {
                author: author@,
                description: description@,
                repository: repository@,
                license: license@,
                crate_type,
            };
            match edit_section(*old(document), "package"@) {
                None => done == Err::<(), CargoError>(CargoError::SchemaError) && *final(document)
                    == *old(document),
                Some(items) => {
                    &&& done == Ok::<(), CargoError>(())
                    &&& *final(document) == fields.set_in(*old(document))
                    &&& edit_section(*final(document), "package"@) == Some(fields.set_among(items))
                    &&& forall|other: Seq<char>|
                        other != "package"@ ==> #[trigger] edit_section(*final(document), other)
                            == edit_section(*old(document), other)
                },
            }
        }),
{
    if !has_section(document, "package") {
        return Err(CargoError::SchemaError);
    }
    let mut authors: Vec<String> = Vec::new();
    authors.push(author.organization.clone());
    authors.push(author_line(author));
    let mut keywords: Vec<String> = Vec::new();
    keywords.push(kind_keyword(crate_type).to_owned());
    proof {
        let fields = PackageFields {
            author: author@,
            description: description@,
            repository: repository@,
            license: license@,
            crate_type,
        };
        assert(string_views(authors@) == fields.authors());
        assert(string_views(keywords@) == fields.keywords());
    }
    set_item(document, "package", "authors", list_item(&authors));
    set_item(document, "package", "description", text_item(description));
    set_item(document, "package", "repository", text_item(repository));
    set_item(document, "package", "license", text_item(license));
    set_item(document, "package", "keywords", list_item(&keywords));
    Ok(())
}

impl Cargo {
    /// The manifest with the author, the description, the repository, the
    /// license and the kind of the package set in its `package` section:
    /// `authors` becomes the organization and the person, `keywords` the one
    /// word `app` or `module`. Every other field of the section, and every
    /// other section, is the one that the manifest held.
    ///
    /// Fails with `ParseError` where the text is no TOML document, and with
    /// `SchemaError` where the document has no `package` section.
    pub fn update_cargo_toml(
        manifest: &str,
        author: &Author,
        description: &str,
        repository: &str,
        license: &str,
        crate_type: CrateType,
    ) -> (updated: Result<String, CargoError>)
        ensures
            ({
                let fields = PackageFields {
                    author: author@,
                    description: description@,
                    repository: repository@,
                    license: license@,
                    crate_type,
                };
                &&& text_result(updated) == updated_manifest(manifest@, fields)
                &&& updated is Ok ==> {
                    let before = edit_document(manifest@)->0;
                    let after = fields.set_in(before);
                    &&& edit_section(after, "package"@) == Some(
                        fields.set_among(edit_section(before, "package"@)->0),
                    )
                    &&& forall|other: Seq<char>|
                        other != "package"@ ==> #[trigger] edit_section(after, other)
                            == edit_section(before, other)
                }
            }),
    {
        match parse_editable(manifest) {
            Err(_) => Err(CargoError::ParseError),
            Ok(document) => {
                let mut document = document;
                match set_package_fields(
                    &mut document,
                    author,
                    description,
                    repository,
                    license,
                    crate_type,
                ) {
                    Err(error) => Err(error),
                    Ok(()) => Ok(render(&document)),
                }
            },
        }
    }
}

} // verus!
