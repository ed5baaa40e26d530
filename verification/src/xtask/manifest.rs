//! What a package manifest says. The manifest is parsed by the `toml`
//! crate; the library finds its way through what was parsed.

use vstd::prelude::*;
use vstd::string::StringExecFns;

verus! {

/// The name under which the tool keeps its settings in a manifest's
/// metadata.
pub const CLI_NAME: &'static str = "bevy-package-cli";

/// The target of a build for the newer Macs.
pub const SILICON_TRIPLE: &'static str = "aarch64-apple-darwin";

/// The target of a build for the older Macs.
pub const INTEL_TRIPLE: &'static str = "x86_64-apple-darwin";

/// The target of a build for Windows.
pub const WINDOWS_TRIPLE: &'static str = "x86_64-pc-windows-gnu";

/// Where the icon of the packaged application lies.
pub const BASE_APP_ICON: &'static str = "assets/images/icon_1024x1024.png";

/// A parsed value of the `toml` crate.
#[verifier::external_type_specification]
#[verifier::external_body]
pub struct ExTomlValue(toml::Value);

/// The error with which the `toml` crate refuses a text.
#[verifier::external_type_specification]
#[verifier::external_body]
pub struct ExTomlError(toml::de::Error);

/// A path of the `camino` crate.
#[verifier::external_type_specification]
#[verifier::external_body]
pub struct ExUtf8PathBuf(camino::Utf8PathBuf);

/// What the library reads of a TOML value: a string's text, a table's
/// entries by key, and of anything else only that it is neither.
pub enum TomlTree {
    Text(Seq<char>),
    Table(Map<Seq<char>, TomlTree>),
    Other,
}

/// What `toml::from_str` makes of a document: the table that it parses to,
/// or nothing where it is refused.
pub uninterp spec fn toml_document(text: Seq<char>) -> Option<TomlTree>;

/// What a `toml::Value` holds.
pub uninterp spec fn toml_tree(value: toml::Value) -> TomlTree;

/// The text of a `camino::Utf8PathBuf`.
pub uninterp spec fn path_text(path: camino::Utf8PathBuf) -> Seq<char>;

/// What `convert_case` makes of a text in title case.
pub uninterp spec fn title_cased(text: Seq<char>) -> Seq<char>;

/// Parses a document with `toml::from_str`. What comes back holds the
/// document's table; a text that is no document is refused.
#[verifier::external_body]
fn parse_document(text: &str) -> (parsed: Result<toml::Value, toml::de::Error>)
    ensures
        match parsed {
            Ok(value) => toml_document(text@) == Some(toml_tree(value)),
            Err(_) => toml_document(text@) is None,
        },
{
    toml::from_str::<toml::Value>(text)
}

/// Looks a key up with `toml::Value::get`: in a table it finds the entry
/// under that key, if there is one; in anything else it finds nothing.
#[verifier::external_body]
fn value_get<'a>(value: &'a toml::Value, key: &str) -> (found: Option<&'a toml::Value>)
    ensures
        match found {
            Some(entry) => child(toml_tree(*value), key@) == Some(toml_tree(*entry)),
            None => child(toml_tree(*value), key@) is None,
        },
{
    value.get(key)
}

/// Reads a string with `toml::Value::as_str`: of a string it gives the
/// text, of anything else nothing.
#[verifier::external_body]
fn value_as_str<'a>(value: &'a toml::Value) -> (text: Option<&'a str>)
    ensures
        match text {
            Some(text) => text_of(toml_tree(*value)) == Some(text@),
            None => text_of(toml_tree(*value)) is None,
        },
{
    value.as_str()
}

/// Makes a path of a text with `camino::Utf8PathBuf::from`. The path holds
/// the text as it stands.
#[verifier::external_body]
fn path_from(text: &str) -> (path: camino::Utf8PathBuf)
    ensures
        path_text(path) == text@,
{
    camino::Utf8PathBuf::from(text)
}

/// Puts a text into title case with `convert_case`.
#[verifier::external_body]
fn title_case(text: &str) -> (cased: String)
    ensures
        cased@ == title_cased(text@),
{
    convert_case::Casing::to_case(&text, convert_case::Case::Title)
}

/// The entry of a table under `key`; nothing where there is none, or where
/// `tree` is no table.
pub open spec fn child(tree: TomlTree, key: Seq<char>) -> Option<TomlTree> {
    match tree {
        TomlTree::Table(entries) => if entries.contains_key(key) {
            Some(entries[key])
        } else {
            None
        },
        _ => None,
    }
}

/// The text of a string; nothing where `tree` is no string.
pub open spec fn text_of(tree: TomlTree) -> Option<Seq<char>> {
    match tree {
        TomlTree::Text(text) => Some(text),
        _ => None,
    }
}

/// What is found by going down from `tree` along the keys of `path`.
pub open spec fn descend(tree: TomlTree, path: Seq<Seq<char>>) -> Option<TomlTree>
    decreases path.len(),
{
    if path.len() == 0 {
        Some(tree)
    } else {
        match child(tree, path[0]) {
            Some(entry) => descend(entry, path.drop_first()),
            None => None,
        }
    }
}

/// The path of the tool's setting `entry` in a manifest.
pub open spec fn metadata_path(entry: Seq<char>) -> Seq<Seq<char>> {
    seq!["metadata"@, CLI_NAME@, entry]
}

/// Why a manifest does not say what was asked of it.
#[derive(Debug, Clone, Copy, PartialEq, Eq, Structural)]
pub enum ManifestError {
    /// The text is no TOML document.
    Invalid,
    /// The manifest names no package.
    MissingPackageName,
    /// A setting that has to be a string is something else.
    NotAString,
}

/// Parses the text of a manifest.
pub fn get_cargo_toml(text: &str) -> (manifest: Result<toml::Value, ManifestError>)
    ensures
        match manifest {
            Ok(value) => toml_document(text@) == Some(toml_tree(value)),
            Err(error) => error == ManifestError::Invalid && toml_document(text@) is None,
        },
{
    match parse_document(text) {
        Ok(value) => Ok(value),
        Err(_) => Err(ManifestError::Invalid),
    }
}

/// Goes down from `value` along the keys of `path`.
pub fn lookup<'a>(value: &'a toml::Value, path: &Vec<&str>) -> (found: Option<&'a toml::Value>)
    ensures
        match found {
            Some(entry) => descend(toml_tree(*value), path@.map_values(|key: &str| key@)) == Some(
                toml_tree(*entry),
            ),
            None => descend(toml_tree(*value), path@.map_values(|key: &str| key@)) is None,
        },
{
    let ghost keys = path@.map_values(|key: &str| key@);
    let mut current = value;
    let mut i: usize = 0;
    assert(keys.skip(0) == keys);
    while i < path.len()
        invariant
            i <= path.len(),
            keys == path@.map_values(|key: &str| key@),
            descend(toml_tree(*value), keys) == descend(toml_tree(*current), keys.skip(i as int)),
        decreases path.len() - i,
    {
        assert(keys.skip(i as int).drop_first() == keys.skip(i as int + 1));
        match value_get(current, path[i]) {
            Some(entry) => {
                current = entry;
            },
            None => {
                return None;
            },
        }
        i = i + 1;
    }
    Some(current)
}

/// The text that is found by going down from `tree` along `path`, with
/// what stands in its way: nothing there, or something that is no string.
pub open spec fn setting(tree: TomlTree, path: Seq<Seq<char>>) -> Result<Option<Seq<char>>, ManifestError> {
    match descend(tree, path) {
        None => Ok(None),
        Some(entry) => match text_of(entry) {
            Some(text) => Ok(Some(text)),
            None => Err(ManifestError::NotAString),
        },
    }
}

/// The string at the end of `path`, if the manifest has anything there.
fn setting_at(manifest: &toml::Value, path: &Vec<&str>) -> (found: Result<Option<String>, ManifestError>)
    ensures
        match found {
            Ok(Some(text)) => setting(toml_tree(*manifest), path@.map_values(|key: &str| key@)) == Ok::<
                Option<Seq<char>>,
                ManifestError,
            >(Some(text@)),
            Ok(None) => setting(toml_tree(*manifest), path@.map_values(|key: &str| key@)) == Ok::<
                Option<Seq<char>>,
                ManifestError,
            >(None),
            Err(error) => setting(toml_tree(*manifest), path@.map_values(|key: &str| key@)) == Err::<
                Option<Seq<char>>,
                ManifestError,
            >(error),
        },
{
    match lookup(manifest, path) {
        None => Ok(None),
        Some(entry) => match value_as_str(entry) {
            Some(text) => Ok(Some(String::from_str(text))),
            None => Err(ManifestError::NotAString),
        },
    }
}

/// The tool's setting `entry` in the metadata of a manifest, if the
/// manifest has it.
pub fn get_metadata_entry<'a>(manifest: &'a toml::Value, entry: &str) -> (found: Option<&'a toml::Value>)
    ensures
        match found {
            Some(value) => descend(toml_tree(*manifest), metadata_path(entry@)) == Some(
                toml_tree(*value),
            ),
            None => descend(toml_tree(*manifest), metadata_path(entry@)) is None,
        },
{
    let path = vec!["metadata", CLI_NAME, entry];
    assert(path@.map_values(|key: &str| key@) =~= metadata_path(entry@));
    lookup(manifest, &path)
}

/// The tool's setting `entry` as a path: what the manifest says, or
/// `default` where it says nothing.
pub open spec fn directory(tree: TomlTree, entry: Seq<char>, default: Seq<char>) -> Result<
    Seq<char>,
    ManifestError,
> {
    match setting(tree, metadata_path(entry)) {
        Ok(Some(text)) => Ok(text),
        Ok(None) => Ok(default),
        Err(error) => Err(error),
    }
}

fn directory_setting(manifest: &toml::Value, entry: &str, default: &str) -> (path: Result<
    camino::Utf8PathBuf,
    ManifestError,
>)
    ensures
        match path {
            Ok(path) => directory(toml_tree(*manifest), entry@, default@) == Ok::<
                Seq<char>,
                ManifestError,
            >(path_text(path)),
            Err(error) => directory(toml_tree(*manifest), entry@, default@) == Err::<
                Seq<char>,
                ManifestError,
            >(error),
        },
{
    let path = vec!["metadata", CLI_NAME, entry];
    assert(path@.map_values(|key: &str| key@) =~= metadata_path(entry@));
    match setting_at(manifest, &path) {
        Ok(Some(text)) => Ok(path_from(text.as_str())),
        Ok(None) => Ok(path_from(default)),
        Err(error) => Err(error),
    }
}

/// The directory that builds go to: the setting `target-dir`, or
/// `target/bevy_package_cli` where the manifest has none. A setting that
/// is no string is an error.
pub fn get_default_target_dir(manifest: &toml::Value) -> (path: Result<camino::Utf8PathBuf, ManifestError>)
    ensures
        match path {
            Ok(path) => directory(toml_tree(*manifest), "target-dir"@, "target/bevy_package_cli"@)
                == Ok::<Seq<char>, ManifestError>(path_text(path)),
            Err(error) => directory(toml_tree(*manifest), "target-dir"@, "target/bevy_package_cli"@)
                == Err::<Seq<char>, ManifestError>(error),
        },
{
    directory_setting(manifest, "target-dir", "target/bevy_package_cli")
}

/// The directory that holds what packaging starts from: the setting
/// `build-dir`, or `build` where the manifest has none. A setting that is
/// no string is an error.
pub fn get_default_build_dir(manifest: &toml::Value) -> (path: Result<camino::Utf8PathBuf, ManifestError>)
    ensures
        match path {
            Ok(path) => directory(toml_tree(*manifest), "build-dir"@, "build"@) == Ok::<
                Seq<char>,
                ManifestError,
            >(path_text(path)),
            Err(error) => directory(toml_tree(*manifest), "build-dir"@, "build"@) == Err::<
                Seq<char>,
                ManifestError,
            >(error),
        },
{
    directory_setting(manifest, "build-dir", "build")
}

/// The directory that releases go to: the setting `release-dir`, or
/// `release/` where the manifest has none. A setting that is no string is
/// an error.
pub fn get_default_release_dir(manifest: &toml::Value) -> (path: Result<camino::Utf8PathBuf, ManifestError>)
    ensures
        match path {
            Ok(path) => directory(toml_tree(*manifest), "release-dir"@, "release/"@) == Ok::<
                Seq<char>,
                ManifestError,
            >(path_text(path)),
            Err(error) => directory(toml_tree(*manifest), "release-dir"@, "release/"@) == Err::<
                Seq<char>,
                ManifestError,
            >(error),
        },
{
    directory_setting(manifest, "release-dir", "release/")
}

/// The string under `key` of the table `package`; nothing where the
/// manifest has no such table, no such key, or something there that is no
/// string.
pub open spec fn package_text(tree: TomlTree, key: Seq<char>) -> Option<Seq<char>> {
    match descend(tree, seq!["package"@, key]) {
        Some(entry) => text_of(entry),
        None => None,
    }
}

fn package_setting(manifest: &toml::Value, key: &str) -> (found: Option<String>)
    ensures
        match found {
            Some(text) => package_text(toml_tree(*manifest), key@) == Some(text@),
            None => package_text(toml_tree(*manifest), key@) is None,
        },
{
    let path = vec!["package", key];
    assert(path@.map_values(|key: &str| key@) =~= seq!["package"@, key@]);
    match lookup(manifest, &path) {
        Some(entry) => match value_as_str(entry) {
            Some(text) => Some(String::from_str(text)),
            None => None,
        },
        None => None,
    }
}

/// The name of the package, which is the name of its binary.
pub fn get_default_bin_name(manifest: &toml::Value) -> (name: Option<String>)
    ensures
        match name {
            Some(text) => package_text(toml_tree(*manifest), "name"@) == Some(text@),
            None => package_text(toml_tree(*manifest), "name"@) is None,
        },
{
    package_setting(manifest, "name")
}

/// The version of the package.
pub fn get_current_version(manifest: &toml::Value) -> (version: Option<String>)
    ensures
        match version {
            Some(text) => package_text(toml_tree(*manifest), "version"@) == Some(text@),
            None => package_text(toml_tree(*manifest), "version"@) is None,
        },
{
    package_setting(manifest, "version")
}

/// The name of the packaged application: the setting `osx-app-name`, or
/// the package's name in title case where the manifest has no such
/// setting. The manifest has to name the package in either case; a
/// setting that is no string is an error.
pub open spec fn app_name(tree: TomlTree) -> Result<Seq<char>, ManifestError> {
    match package_text(tree, "name"@) {
        None => Err(ManifestError::MissingPackageName),
        Some(name) => match setting(tree, metadata_path("osx-app-name"@)) {
            Ok(Some(text)) => Ok(text),
            Ok(None) => Ok(title_cased(name)),
            Err(error) => Err(error),
        },
    }
}

/// The name of the packaged application.
pub fn get_default_app_name(manifest: &toml::Value) -> (name: Result<String, ManifestError>)
    ensures
        match name {
            Ok(text) => app_name(toml_tree(*manifest)) == Ok::<Seq<char>, ManifestError>(text@),
            Err(error) => app_name(toml_tree(*manifest)) == Err::<Seq<char>, ManifestError>(error),
        },
{
    match get_default_bin_name(manifest) {
        None => Err(ManifestError::MissingPackageName),
        Some(bin_name) => {
            let default = title_case(bin_name.as_str());
            let path = vec!["metadata", CLI_NAME, "osx-app-name"];
            assert(path@.map_values(|key: &str| key@) =~= metadata_path("osx-app-name"@));
            match setting_at(manifest, &path) {
                Ok(Some(text)) => Ok(text),
                Ok(None) => Ok(default),
                Err(error) => Err(error),
            }
        },
    }
}

} // verus!
