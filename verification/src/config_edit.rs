//! Editing the text of `husako.toml` while keeping its formatting: adding,
//! replacing and removing entries, updating a version, and writing a
//! cluster. Each edit reads the text with `toml_edit`, changes one thing and
//! writes the document back.
use vstd::prelude::*;

use crate::config::ConfigError;
use crate::edit::{spec_version_key, version_key, EntryEdit};
use crate::plugin::pairs_view;
use crate::text::{push_str, string_from};

verus! {

/// What `toml_edit` reads from `text` as a document and answers for
/// `contains_key(key)` at the top level, or the parser's message.
pub uninterp spec fn toml_key_present(text: Seq<char>, key: Seq<char>) -> Result<bool, Seq<char>>;

/// The text of the document read from `text` with an empty standard table
/// `[key]` set at the top level, or the parser's message.
pub uninterp spec fn toml_table_added(text: Seq<char>, key: Seq<char>) -> Result<Seq<char>, Seq<char>>;

/// The text of the document read from `text` with `name` set in the table
/// `section` to an inline table of `fields` in order; `None` when `section`
/// is not a table; or the parser's message.
pub uninterp spec fn toml_entry_set(
    text: Seq<char>,
    section: Seq<char>,
    name: Seq<char>,
    fields: Seq<(Seq<char>, Seq<char>)>,
) -> Result<Option<Seq<char>>, Seq<char>>;

/// The text of the document read from `text` with `name` removed from the
/// table `section`; `None` when there is no such table or entry; or the
/// parser's message.
pub uninterp spec fn toml_entry_removed(text: Seq<char>, section: Seq<char>, name: Seq<char>) -> Result<
    Option<Seq<char>>,
    Seq<char>,
>;

/// The keys of the entry `name` of the table `section`, in order; `None`
/// when there is no such table or the entry is not a table; or the parser's
/// message.
pub uninterp spec fn toml_entry_keys(text: Seq<char>, section: Seq<char>, name: Seq<char>) -> Result<
    Option<Seq<Seq<char>>>,
    Seq<char>,
>;

/// The text with field `key` of the entry `name` of `section` set to the
/// string `value`; `None` when there is no such table or table entry; or
/// the parser's message.
pub uninterp spec fn toml_field_set(
    text: Seq<char>,
    section: Seq<char>,
    name: Seq<char>,
    key: Seq<char>,
    value: Seq<char>,
) -> Result<Option<Seq<char>>, Seq<char>>;

/// The text with the top-level table `[cluster]` set to hold `server`, or
/// the parser's message.
pub uninterp spec fn toml_cluster_set(text: Seq<char>, server: Seq<char>) -> Result<Seq<char>, Seq<char>>;

/// The view of a text or a message.
pub open spec fn text_view(r: Result<String, String>) -> Result<Seq<char>, Seq<char>> {
    match r {
        Ok(t) => Ok(t@),
        Err(e) => Err(e@),
    }
}

/// The view of an optional text or a message.
pub open spec fn opt_text_view(r: Result<Option<String>, String>) -> Result<Option<Seq<char>>, Seq<char>> {
    match r {
        Ok(Some(t)) => Ok(Some(t@)),
        Ok(None) => Ok(None),
        Err(e) => Err(e@),
    }
}

/// Calls `toml_edit`'s parser and `DocumentMut::contains_key`.
#[verifier::external_body]
fn key_present(text: &str, key: &str) -> (r: Result<bool, String>)
    ensures
        match r {
            Ok(b) => toml_key_present(text@, key@) == Ok::<bool, Seq<char>>(b),
            Err(e) => toml_key_present(text@, key@) == Err::<bool, Seq<char>>(e@),
        },
{
    let doc: toml_edit::DocumentMut = text.parse().map_err(|e: toml_edit::TomlError| e.to_string())?;
    Ok(doc.contains_key(key))
}

/// Parses, sets `doc[key]` to a new `toml_edit::Table`, and writes the document.
#[verifier::external_body]
fn table_added(text: &str, key: &str) -> (r: Result<String, String>)
    ensures
        text_view(r) == toml_table_added(text@, key@),
{
    let mut doc: toml_edit::DocumentMut = text.parse().map_err(|e: toml_edit::TomlError| e.to_string())?;
    doc[key] = toml_edit::Item::Table(toml_edit::Table::new());
    Ok(doc.to_string())
}

/// Parses, inserts an inline table of `fields` as `name` into the
/// table-like `section` (through `as_table_like_mut`), and writes the
/// document.
#[verifier::external_body]
fn entry_set(text: &str, section: &str, name: &str, fields: &Vec<(String, String)>) -> (r: Result<Option<String>, String>)
    ensures
        opt_text_view(r) == toml_entry_set(text@, section@, name@, pairs_view(fields@)),
{
    let mut doc: toml_edit::DocumentMut = text.parse().map_err(|e: toml_edit::TomlError| e.to_string())?;
    let inline: toml_edit::InlineTable = fields.iter().map(|(k, v)| (k.as_str(), toml_edit::Value::from(v.as_str()))).collect();
    match doc.get_mut(section).and_then(|t| t.as_table_like_mut()) {
        Some(t) => {
            t.insert(name, toml_edit::Item::Value(toml_edit::Value::InlineTable(inline)));
        },
        None => return Ok(None),
    }
    Ok(Some(doc.to_string()))
}

/// Parses, removes `name` from the table-like `section`, and writes the
/// document when something was removed.
#[verifier::external_body]
fn entry_removed(text: &str, section: &str, name: &str) -> (r: Result<Option<String>, String>)
    ensures
        opt_text_view(r) == toml_entry_removed(text@, section@, name@),
{
    let mut doc: toml_edit::DocumentMut = text.parse().map_err(|e: toml_edit::TomlError| e.to_string())?;
    let removed = match doc.get_mut(section).and_then(|t| t.as_table_like_mut()) {
        Some(t) => t.remove(name),
        None => None,
    };
    match removed {
        Some(_) => Ok(Some(doc.to_string())),
        None => Ok(None),
    }
}

/// Parses and lists the keys of the table-like entry `name` of `section`.
#[verifier::external_body]
fn entry_keys(text: &str, section: &str, name: &str) -> (r: Result<Option<Vec<String>>, String>)
    ensures
        match r {
            Ok(Some(ks)) => toml_entry_keys(text@, section@, name@) == Ok::<Option<Seq<Seq<char>>>, Seq<char>>(Some(ks@.map_values(|k: String| k@))),
            Ok(None) => toml_entry_keys(text@, section@, name@) == Ok::<Option<Seq<Seq<char>>>, Seq<char>>(None),
            Err(e) => toml_entry_keys(text@, section@, name@) == Err::<Option<Seq<Seq<char>>>, Seq<char>>(e@),
        },
{
    let doc: toml_edit::DocumentMut = text.parse().map_err(|e: toml_edit::TomlError| e.to_string())?;
    let entry = doc.get(section).and_then(|t| t.as_table_like()).and_then(|t| t.get(name)).and_then(|e| e.as_table_like());
    Ok(entry.map(|e| e.iter().map(|(k, _)| k.to_string()).collect()))
}

/// Parses, sets field `key` of the table-like entry `name` of `section`
/// to the string `value`, and writes the document.
#[verifier::external_body]
fn field_set(text: &str, section: &str, name: &str, key: &str, value: &str) -> (r: Result<Option<String>, String>)
    ensures
        opt_text_view(r) == toml_field_set(text@, section@, name@, key@, value@),
{
    let mut doc: toml_edit::DocumentMut = text.parse().map_err(|e: toml_edit::TomlError| e.to_string())?;
    let entry = doc.get_mut(section).and_then(|t| t.as_table_like_mut()).and_then(|t| t.get_mut(name)).and_then(|e| e.as_table_like_mut());
    match entry {
        Some(e) => {
            e.insert(key, toml_edit::value(value));
        },
        None => return Ok(None),
    }
    Ok(Some(doc.to_string()))
}

/// Parses, sets `doc["cluster"]` to a table holding `server`, and writes
/// the document.
#[verifier::external_body]
fn cluster_set(text: &str, server: &str) -> (r: Result<String, String>)
    ensures
        text_view(r) == toml_cluster_set(text@, server@),
{
    let mut doc: toml_edit::DocumentMut = text.parse().map_err(|e: toml_edit::TomlError| e.to_string())?;
    let mut t = toml_edit::Table::new();
    t.insert("server", toml_edit::value(server));
    doc["cluster"] = toml_edit::Item::Table(t);
    Ok(doc.to_string())
}

/// The text with the table `[clusters]` holding `name` as a table with
/// `server`; `None` when `clusters` is not a table; or the parser's message.
pub uninterp spec fn toml_named_cluster_set(text: Seq<char>, name: Seq<char>, server: Seq<char>) -> Result<
    Option<Seq<char>>,
    Seq<char>,
>;

/// Parses, inserts a table holding `server` as `name` into the table-like
/// `clusters`, and writes the document.
#[verifier::external_body]
fn named_cluster_set(text: &str, name: &str, server: &str) -> (r: Result<Option<String>, String>)
    ensures
        opt_text_view(r) == toml_named_cluster_set(text@, name@, server@),
{
    let mut doc: toml_edit::DocumentMut = text.parse().map_err(|e: toml_edit::TomlError| e.to_string())?;
    let mut t = toml_edit::Table::new();
    t.insert("server", toml_edit::value(server));
    match doc.get_mut("clusters").and_then(|c| c.as_table_like_mut()) {
        Some(c) => {
            c.insert(name, toml_edit::Item::Table(t));
        },
        None => return Ok(None),
    }
    Ok(Some(doc.to_string()))
}

// ---------------------------------------------------------------------------
// Edits
// ---------------------------------------------------------------------------

/// The message for a section of `husako.toml` that is not a table.
pub open spec fn not_a_table_text(section: Seq<char>) -> Seq<char> {
    "["@ + section + "] in husako.toml is not a table"@
}

fn not_a_table(section: &str) -> (r: ConfigError)
    ensures
        r matches ConfigError::Validation(m) && m@ == not_a_table_text(section@),
{
    let mut v: Vec<char> = Vec::new();
    push_str(&mut v, "[");
    push_str(&mut v, section);
    push_str(&mut v, "] in husako.toml is not a table");
    ConfigError::Validation(string_from(&v))
}

/// The text with the table `[key]` present: unchanged when the document
/// has `key`, else with an empty table added.
pub open spec fn with_table(text: Seq<char>, key: Seq<char>) -> Result<Seq<char>, Seq<char>> {
    match toml_key_present(text, key) {
        Err(e) => Err(e),
        Ok(true) => Ok(text),
        Ok(false) => toml_table_added(text, key),
    }
}

fn ensure_table(text: &str, key: &str) -> (r: Result<String, String>)
    ensures
        text_view(r) == with_table(text@, key@),
{
    match key_present(text, key) {
        Err(e) => Err(e),
        Ok(true) => Ok(string_from(&crate::text::chars_of(text))),
        Ok(false) => table_added(text, key),
    }
}

/// The text of `husako.toml` after writing `edit`: its section is made a
/// table when the document has none, then the entry is set to an inline
/// table of its fields, replacing an entry of that name. A text that is not
/// TOML gives the parser's message; a section that is not a table is
/// refused.
pub fn config_with_entry(text: &str, edit: &EntryEdit) -> (r: Result<String, ConfigError>)
    ensures
        match with_table(text@, edit.section@) {
            Err(m) => r matches Err(ConfigError::Parse(e)) && e@ == m,
            Ok(t) => match toml_entry_set(t, edit.section@, edit.name@, pairs_view(edit.fields@)) {
                Err(m) => r matches Err(ConfigError::Parse(e)) && e@ == m,
                Ok(None) => r matches Err(ConfigError::Validation(e)) && e@ == not_a_table_text(edit.section@),
                Ok(Some(u)) => r matches Ok(s) && s@ == u,
            },
        },
{
    let t = match ensure_table(text, edit.section) {
        Ok(t) => t,
        Err(m) => return Err(ConfigError::Parse(m)),
    };
    match entry_set(t.as_str(), edit.section, edit.name.as_str(), &edit.fields) {
        Err(m) => Err(ConfigError::Parse(m)),
        Ok(None) => Err(not_a_table(edit.section)),
        Ok(Some(u)) => Ok(u),
    }
}

/// The text of `husako.toml` with the entry `name` removed from `section`;
/// `None` when there is no such entry (or `section` is not a table). A text
/// that is not TOML gives the parser's message.
pub fn config_without_entry(text: &str, section: &str, name: &str) -> (r: Result<Option<String>, ConfigError>)
    ensures
        match toml_entry_removed(text@, section@, name@) {
            Err(m) => r matches Err(ConfigError::Parse(e)) && e@ == m,
            Ok(None) => r matches Ok(None),
            Ok(Some(u)) => r matches Ok(Some(s)) && s@ == u,
        },
{
    match entry_removed(text, section, name) {
        Err(m) => Err(ConfigError::Parse(m)),
        Ok(o) => Ok(o),
    }
}

/// The text of `husako.toml` with the version of entry `name` of `section`
/// set to `new_version`, in its `version` field or else its `tag` field;
/// `None` when there is no such table entry or it has neither field. A text
/// that is not TOML gives the parser's message.
pub fn config_with_version(text: &str, section: &str, name: &str, new_version: &str) -> (r: Result<
    Option<String>,
    ConfigError,
>)
    ensures
        match toml_entry_keys(text@, section@, name@) {
            Err(m) => r matches Err(ConfigError::Parse(e)) && e@ == m,
            Ok(None) => r matches Ok(None),
            Ok(Some(keys)) => match spec_version_key(keys) {
                None => r matches Ok(None),
                Some(k) => match toml_field_set(text@, section@, name@, k, new_version@) {
                    Err(m) => r matches Err(ConfigError::Parse(e)) && e@ == m,
                    Ok(None) => r matches Ok(None),
                    Ok(Some(u)) => r matches Ok(Some(s)) && s@ == u,
                },
            },
        },
{
    let keys = match entry_keys(text, section, name) {
        Err(m) => return Err(ConfigError::Parse(m)),
        Ok(None) => return Ok(None),
        Ok(Some(ks)) => ks,
    };
    match version_key(&keys) {
        None => Ok(None),
        Some(k) => match field_set(text, section, name, k, new_version) {
            Err(m) => Err(ConfigError::Parse(m)),
            Ok(o) => Ok(o),
        },
    }
}

/// The text of `husako.toml` with a cluster's server: `[cluster]` without a
/// name, else `[clusters.<name>]`, the `clusters` table made when the
/// document has none. A text that is not TOML gives the parser's message;
/// a `clusters` that is not a table is refused.
pub fn config_with_cluster(text: &str, cluster_name: Option<&str>, server: &str) -> (r: Result<String, ConfigError>)
    ensures
        match cluster_name {
            None => match toml_cluster_set(text@, server@) {
                Err(m) => r matches Err(ConfigError::Parse(e)) && e@ == m,
                Ok(u) => r matches Ok(s) && s@ == u,
            },
            Some(n) => match with_table(text@, "clusters"@) {
                Err(m) => r matches Err(ConfigError::Parse(e)) && e@ == m,
                Ok(t) => match toml_named_cluster_set(t, n@, server@) {
                    Err(m) => r matches Err(ConfigError::Parse(e)) && e@ == m,
                    Ok(None) => r matches Err(ConfigError::Validation(e)) && e@ == not_a_table_text("clusters"@),
                    Ok(Some(u)) => r matches Ok(s) && s@ == u,
                },
            },
        },
{
    match cluster_name {
        None => match cluster_set(text, server) {
            Err(m) => Err(ConfigError::Parse(m)),
            Ok(u) => Ok(u),
        },
        Some(n) => {
            let t = match ensure_table(text, "clusters") {
                Ok(t) => t,
                Err(m) => return Err(ConfigError::Parse(m)),
            };
            match named_cluster_set(t.as_str(), n, server) {
                Err(m) => Err(ConfigError::Parse(m)),
                Ok(None) => Err(not_a_table("clusters")),
                Ok(Some(u)) => Ok(u),
            }
        },
    }
}

} // verus!
