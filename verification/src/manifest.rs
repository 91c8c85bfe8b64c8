//! The name of the project that is built, as its `Cargo.toml` gives it.
//!
//! The manifest is read as TOML by the `toml` crate; here is which entry of
//! it is the name, and what is reported if that entry is not there.

use vstd::prelude::*;

verus! {

/// A TOML value of the `toml` crate. Opaque here: it is only handed from
/// one call of the crate to the next.
#[verifier::external_type_specification]
#[verifier::external_body]
pub struct ExTomlValue(toml::Value);

/// The parse error of the `toml` crate. Opaque here.
#[verifier::external_type_specification]
#[verifier::external_body]
pub struct ExTomlError(toml::de::Error);

/// The document that `toml::from_str` reads from a text, `None` if the
/// text does not parse.
pub uninterp spec fn document_of(text: Seq<char>) -> Option<toml::Value>;

/// The entry that `toml::Value::get` finds in a value under a key, `None`
/// if the value is no table or has no such key.
pub uninterp spec fn entry_at(value: toml::Value, key: Seq<char>) -> Option<toml::Value>;

/// What `toml::Value::is_table` says of a value.
pub uninterp spec fn table_like(value: toml::Value) -> bool;

/// The text that `toml::Value::as_str` finds in a value, `None` if the
/// value is no string.
pub uninterp spec fn text_at(value: toml::Value) -> Option<Seq<char>>;

/// `toml::from_str` for a `toml::Value`: the document that the text holds,
/// or the parser's error. Which of the two, and which document, is a
/// function of the text.
#[verifier::external_body]
fn parse_document(text: &str) -> (document: Result<toml::Value, toml::de::Error>)
    ensures
        match document {
            Ok(document) => document_of(text@) == Some(document),
            Err(_) => document_of(text@).is_none(),
        },
{
    toml::from_str(text)
}

/// `toml::Value::get` with a key: the entry of a table under that key. It
/// is a function of the value and the key.
#[verifier::external_body]
fn entry_of<'a>(value: &'a toml::Value, key: &str) -> (entry: Option<&'a toml::Value>)
    ensures
        match entry {
            Some(entry) => entry_at(*value, key@) == Some(*entry),
            None => entry_at(*value, key@).is_none(),
        },
{
    value.get(key)
}

/// `toml::Value::is_table`: whether the value is a table.
#[verifier::external_body]
fn is_table(value: &toml::Value) -> (table: bool)
    ensures
        table == table_like(*value),
{
    value.is_table()
}

/// `toml::Value::as_str`: the text of a value that is a string.
#[verifier::external_body]
fn text_of<'a>(value: &'a toml::Value) -> (text: Option<&'a str>)
    ensures
        match text {
            Some(text) => text_at(*value) == Some(text@),
            None => text_at(*value).is_none(),
        },
{
    value.as_str()
}

/// Why a manifest gives no project name.
#[derive(Debug, Clone, Copy, PartialEq, Eq, Structural)]
pub enum ManifestError {
    /// The manifest is no TOML document.
    Invalid,
    /// The section `[package]` is missing or is no table.
    NoPackage,
    /// The field `name` of `[package]` is missing or is no string.
    NoName,
}

/// What a manifest says of the project name, as far as it was looked into:
/// each step is taken only if the one before it found something.
#[derive(Debug, Clone, PartialEq, Eq)]
pub enum Lookup {
    /// The text did not parse.
    Unparsed,
    /// The document has no entry `package`.
    WithoutPackage,
    /// The entry `package` is there; `table` says whether it is a table.
    /// `name` is its entry `name`, if it is a table and has one: the text
    /// of that entry, or `None` if the entry is no string.
    Package { table: bool, name: Option<Option<String>> },
}

/// A lookup as a mathematical value.
pub enum LookupView {
    Unparsed,
    WithoutPackage,
    Package { table: bool, name: Option<Option<Seq<char>>> },
}

impl View for Lookup {
    type V = LookupView;

    open spec fn view(&self) -> LookupView {
        match *self {
            Lookup::Unparsed => LookupView::Unparsed,
            Lookup::WithoutPackage => LookupView::WithoutPackage,
            Lookup::Package { table, name } => LookupView::Package {
                table,
                name: match name {
                    Some(Some(text)) => Some(Some(text@)),
                    Some(None) => Some(None),
                    None => None,
                },
            },
        }
    }
}

/// The project name that a lookup yields.
pub open spec fn name_of(lookup: LookupView) -> Result<Seq<char>, ManifestError> {
    match lookup {
        LookupView::Unparsed => Err(ManifestError::Invalid),
        LookupView::WithoutPackage => Err(ManifestError::NoPackage),
        LookupView::Package { table: false, .. } => Err(ManifestError::NoPackage),
        LookupView::Package { table: true, name: Some(Some(text)) } => Ok(text),
        LookupView::Package { table: true, .. } => Err(ManifestError::NoName),
    }
}

/// The project name that a lookup yields: the text of `name` in the table
/// `package`, or the report of what is missing.
pub fn project_name(lookup: Lookup) -> (name: Result<String, ManifestError>)
    ensures
        match (name, name_of(lookup@)) {
            (Ok(name), Ok(expected)) => name@ == expected,
            (Err(error), Err(expected)) => error == expected,
            _ => false,
        },
{
    match lookup {
        Lookup::Unparsed => Err(ManifestError::Invalid),
        Lookup::WithoutPackage => Err(ManifestError::NoPackage),
        Lookup::Package { table, name } => {
            if !table {
                Err(ManifestError::NoPackage)
            } else {
                match name {
                    Some(Some(text)) => Ok(text),
                    _ => Err(ManifestError::NoName),
                }
            }
        },
    }
}

/// What the entry `name` of a package table says.
pub open spec fn name_entry(package: toml::Value) -> Option<Option<Seq<char>>> {
    match entry_at(package, "name"@) {
        Some(name) => Some(text_at(name)),
        None => None,
    }
}

/// What a manifest of that text says of the project name: whether it
/// parses, whether the document has an entry `package`, whether that is a
/// table, and what its entry `name` holds.
pub open spec fn lookup_of(manifest: Seq<char>) -> LookupView {
    match document_of(manifest) {
        None => LookupView::Unparsed,
        Some(document) => match entry_at(document, "package"@) {
            None => LookupView::WithoutPackage,
            Some(package) => if table_like(package) {
                LookupView::Package { table: true, name: name_entry(package) }
            } else {
                LookupView::Package { table: false, name: None }
            },
        },
    }
}

/// Looks the project name up in the text of a manifest. The entry `name`
/// is looked for only in an entry `package` that is a table.
pub fn look_up(manifest: &str) -> (lookup: Lookup)
    ensures
        lookup@ == lookup_of(manifest@),
{
    let document = match parse_document(manifest) {
        Ok(document) => document,
        Err(_) => {
            return Lookup::Unparsed;
        },
    };
    let package = match entry_of(&document, "package") {
        Some(package) => package,
        None => {
            return Lookup::WithoutPackage;
        },
    };
    if !is_table(package) {
        return Lookup::Package { table: false, name: None };
    }
    let name = match entry_of(package, "name") {
        Some(name) => match text_of(name) {
            Some(text) => Some(Some(text.to_owned())),
            None => Some(None),
        },
        None => None,
    };
    Lookup::Package { table: true, name }
}

/// The name of the project whose manifest has that text: the text of the
/// entry `name` in the table `package`, or the report of what is missing.
pub fn get_project_name(manifest: &str) -> (name: Result<String, ManifestError>)
    ensures
        match (name, name_of(lookup_of(manifest@))) {
            (Ok(name), Ok(expected)) => name@ == expected,
            (Err(error), Err(expected)) => error == expected,
            _ => false,
        },
{
    project_name(look_up(manifest))
}

} // verus!
