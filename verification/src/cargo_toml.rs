//! The Cargo-style manifest adapter, working on manifest text. The
//! version lives under the local `[package]` table; when no local
//! `[package]` table exists it lives under the shared
//! `[workspace.package]` table. Inheritance is signaled by
//! `version = { workspace = true }` (or its dotted-key form). Reading
//! the TOML document is delegated to the `toml_edit` crate behind
//! trusted wrappers; every decision taken on what was read is
//! verified.
use vstd::prelude::*;

use crate::domain::VersionField;
use crate::domain::VersionFieldView;
use crate::manifest::ManifestError;

verus! {

/// How the version entry of a section reads: absent, a plain string, a
/// table whose `workspace` key is the boolean `b`, or anything else.
pub enum TomlVersionValue {
    Missing,
    Text(String),
    WorkspaceFlag(bool),
    Other,
}

/// The mathematical value of a `TomlVersionValue`.
pub enum TomlVersionValueView {
    Missing,
    Text(Seq<char>),
    WorkspaceFlag(bool),
    Other,
}

impl View for TomlVersionValue {
    type V = TomlVersionValueView;

    open spec fn view(&self) -> TomlVersionValueView {
        match self {
            TomlVersionValue::Missing => TomlVersionValueView::Missing,
            TomlVersionValue::Text(t) => TomlVersionValueView::Text(t@),
            TomlVersionValue::WorkspaceFlag(b) => TomlVersionValueView::WorkspaceFlag(*b),
            TomlVersionValue::Other => TomlVersionValueView::Other,
        }
    }
}

/// Whether the package section of a TOML document exists and what its
/// `name` string is: the `[package]` table when `workspace_level` is
/// false, the `[workspace.package]` table when it is true; `None` when
/// the text is not valid TOML.
pub uninterp spec fn toml_section_header(s: Seq<char>, workspace_level: bool) -> Option<
    (bool, Option<Seq<char>>),
>;

/// How the version entry of the package section reads; `None` when the
/// text is not valid TOML.
pub uninterp spec fn toml_section_version(s: Seq<char>, workspace_level: bool) -> Option<
    TomlVersionValueView,
>;

/// Whether the package section exists as a regular or inline table, so
/// that an entry can be written into it; `None` when the text is not
/// valid TOML.
pub uninterp spec fn toml_section_table_like(s: Seq<char>, workspace_level: bool) -> Option<bool>;

/// The decoration (comment and whitespace text) around the version
/// value of the section that takes precedence; `None` when the text is
/// not valid TOML.
pub uninterp spec fn toml_version_decor(s: Seq<char>) -> Option<
    (Option<Seq<char>>, Option<Seq<char>>),
>;

/// The document with the version entry of the section that takes
/// precedence (the local `[package]` table, else `[workspace.package]`)
/// replaced by the string `v`, decorated with the given prefix and
/// suffix text, all other bytes kept.
pub uninterp spec fn toml_with_version(
    s: Seq<char>,
    v: Seq<char>,
    prefix: Option<Seq<char>>,
    suffix: Option<Seq<char>>,
) -> Seq<char>;

/// Relies on `toml_edit::DocumentMut::from_str`, `Item::get` and
/// `Item::as_str`: the presence of the requested package section and
/// its `name` string.
#[verifier::external_body]
fn scan_section_header(content: &str, workspace_level: bool) -> (r: Option<(bool, Option<String>)>)
    ensures
        (match r {
            Some((present, name)) => Some(
                (
                    present,
                    match name {
                        Some(n) => Some(n@),
                        None => None,
                    },
                ),
            ),
            None => None::<(bool, Option<Seq<char>>)>,
        }) == toml_section_header(content@, workspace_level),
{
    let doc: toml_edit::DocumentMut = content.parse().ok()?;
    let sec = if workspace_level { doc.get("workspace").and_then(|w| w.get("package")) } else { doc.get("package") };
    let name = sec.and_then(|p| p.get("name")).and_then(|n| n.as_str()).map(|s| s.to_string());
    Some((sec.is_some(), name))
}

/// Relies on `toml_edit::DocumentMut::from_str`, `Item::get` (which
/// reaches into regular and inline tables alike), `Item::as_str` and
/// `Item::as_bool`: the version entry is classified by which accessor
/// accepts it.
#[verifier::external_body]
fn scan_section_version(content: &str, workspace_level: bool) -> (r: Option<TomlVersionValue>)
    ensures
        (match r {
            Some(v) => Some(v@),
            None => None::<TomlVersionValueView>,
        }) == toml_section_version(content@, workspace_level),
{
    let doc: toml_edit::DocumentMut = content.parse().ok()?;
    let sec = if workspace_level { doc.get("workspace").and_then(|w| w.get("package")) } else { doc.get("package") };
    let vitem = match sec.and_then(|p| p.get("version")) { Some(v) => v, None => return Some(TomlVersionValue::Missing) };
    if let Some(s) = vitem.as_str() { return Some(TomlVersionValue::Text(s.to_string())); }
    let flag = vitem.get("workspace").and_then(|w| w.as_bool());
    Some(match flag { Some(b) => TomlVersionValue::WorkspaceFlag(b), None => TomlVersionValue::Other })
}

/// Relies on `toml_edit::DocumentMut::from_str`, `Item::get` and
/// `Item::is_table_like`: whether the requested section is a regular
/// or inline table.
#[verifier::external_body]
fn scan_section_is_table(content: &str, workspace_level: bool) -> (r: Option<bool>)
    ensures
        r == toml_section_table_like(content@, workspace_level),
{
    let doc: toml_edit::DocumentMut = content.parse().ok()?;
    let sec = if workspace_level { doc.get("workspace").and_then(|w| w.get("package")) } else { doc.get("package") };
    Some(match sec { Some(s) => s.is_table_like(), None => false })
}

/// Relies on `toml_edit::DocumentMut::from_str`, `Value::decor` and the
/// `Decor` accessors: the comment and whitespace text attached to the
/// version value of the section that takes precedence.
#[verifier::external_body]
fn scan_version_decor(content: &str) -> (r: Option<(Option<String>, Option<String>)>)
    ensures
        (match r {
            Some((p, q)) => Some(
                (
                    match p {
                        Some(x) => Some(x@),
                        None => None,
                    },
                    match q {
                        Some(x) => Some(x@),
                        None => None,
                    },
                ),
            ),
            None => None::<(Option<Seq<char>>, Option<Seq<char>>)>,
        }) == toml_version_decor(content@),
{
    let doc: toml_edit::DocumentMut = content.parse().ok()?;
    let sec = if doc.get("package").is_some() { doc.get("package") } else { doc.get("workspace").and_then(|w| w.get("package")) };
    let val = sec.and_then(|s| s.get("version")).and_then(|v| v.as_value());
    let prefix = val.and_then(|v| v.decor().prefix()).and_then(|p| p.as_str()).map(|s| s.to_string());
    let suffix = val.and_then(|v| v.decor().suffix()).and_then(|s| s.as_str()).map(|s| s.to_string());
    Some((prefix, suffix))
}

/// Relies on `toml_edit::DocumentMut::from_str`, `Item::get_mut`,
/// `Formatted::new`, `Decor::set_prefix`, `Decor::set_suffix` and
/// `DocumentMut::to_string`: the version value of the section that
/// takes precedence is replaced and the document re-serialized with all
/// other bytes kept. The `requires` demands a table-like section, which
/// rules out exactly the inputs on which the entry assignment panics,
/// and implies that the parse and the section lookup succeed.
#[verifier::external_body]
fn replace_version(
    content: &str,
    new_version: &str,
    prefix: Option<&str>,
    suffix: Option<&str>,
) -> (r: String)
    requires
        toml_section_header(content@, false) matches Some(hp) && toml_section_table_like(
            content@,
            !hp.0,
        ) == Some(true),
    ensures
        r@ == toml_with_version(
            content@,
            new_version@,
            match prefix {
                Some(p) => Some(p@),
                None => None,
            },
            match suffix {
                Some(q) => Some(q@),
                None => None,
            },
        ),
{
    let mut doc: toml_edit::DocumentMut = content.parse().unwrap();
    let has_pkg = doc.get("package").is_some();
    let sec = if has_pkg { doc.get_mut("package") } else { doc.get_mut("workspace").and_then(|w| w.get_mut("package")) };
    let sec = sec.unwrap();
    let mut val = toml_edit::Value::String(toml_edit::Formatted::new(new_version.to_string()));
    if let Some(p) = prefix { val.decor_mut().set_prefix(p.to_string()); }
    if let Some(q) = suffix { val.decor_mut().set_suffix(q.to_string()); }
    sec["version"] = toml_edit::Item::Value(val);
    doc.to_string()
}

/// What `parse` returns for a given document: the name and version
/// field read from the section that takes precedence — the local
/// `[package]` table when one exists, else `[workspace.package]`. A
/// version entry that is a table with `workspace = true` is the
/// inheritance marker; one that is neither a string nor that marker is
/// an error.
pub open spec fn spec_cargo_parse(s: Seq<char>) -> Result<
    (Option<Seq<char>>, VersionFieldView),
    ManifestError,
> {
    match toml_section_header(s, false) {
        None => Err(ManifestError::Parse),
        Some(hp) => {
            let lvl = !hp.0;
            match (toml_section_header(s, lvl), toml_section_version(s, lvl)) {
                (Some(h), Some(vv)) => {
                    if vv matches TomlVersionValueView::WorkspaceFlag(b) && b {
                        Ok((h.1, VersionFieldView::Inherited))
                    } else {
                        match vv {
                            TomlVersionValueView::Missing => Ok((h.1, VersionFieldView::Absent)),
                            TomlVersionValueView::Text(t) => Ok(
                                (h.1, VersionFieldView::Concrete(t)),
                            ),
                            _ => Err(ManifestError::VersionNotString),
                        }
                    }
                },
                _ => Err(ManifestError::Parse),
            }
        },
    }
}

/// Reads the package name and version field out of Cargo-style manifest
/// text.
pub fn parse(content: &str) -> (r: Result<(Option<String>, VersionField), ManifestError>)
    ensures
        (match r {
            Ok((n, v)) => Ok::<(Option<Seq<char>>, VersionFieldView), ManifestError>(
                (
                    match n {
                        Some(s) => Some(s@),
                        None => None,
                    },
                    v@,
                ),
            ),
            Err(e) => Err(e),
        }) == spec_cargo_parse(content@),
{
    let hp = match scan_section_header(content, false) {
        Some(h) => h,
        None => {
            return Err(ManifestError::Parse);
        },
    };
    let lvl = !hp.0;
    let header = if lvl {
        match scan_section_header(content, true) {
            Some(h) => h,
            None => {
                return Err(ManifestError::Parse);
            },
        }
    } else {
        hp
    };
    let vv = match scan_section_version(content, lvl) {
        Some(v) => v,
        None => {
            return Err(ManifestError::Parse);
        },
    };
    let inherited = match &vv {
        TomlVersionValue::WorkspaceFlag(b) => *b,
        _ => false,
    };
    if inherited {
        Ok((header.1, VersionField::Inherited))
    } else {
        match vv {
            TomlVersionValue::Missing => Ok((header.1, VersionField::Absent)),
            TomlVersionValue::Text(t) => Ok((header.1, VersionField::Concrete(t))),
            _ => Err(ManifestError::VersionNotString),
        }
    }
}

/// What `update_version` returns: the rewritten document for a concrete
/// version, the input unchanged otherwise, the parse error when the
/// text is not valid TOML, and the no-section error when the section
/// that takes precedence is absent or cannot hold a version entry.
pub open spec fn spec_cargo_update(s: Seq<char>, nv: VersionFieldView) -> Result<
    Seq<char>,
    ManifestError,
> {
    match nv {
        VersionFieldView::Concrete(v) => match toml_section_header(s, false) {
            None => Err(ManifestError::Parse),
            Some(hp) => {
                let lvl = !hp.0;
                match (toml_section_table_like(s, lvl), toml_version_decor(s)) {
                    (Some(tl), Some(d)) => if !tl {
                        Err(ManifestError::NoVersionSection)
                    } else {
                        Ok(toml_with_version(s, v, d.0, d.1))
                    },
                    _ => Err(ManifestError::Parse),
                }
            },
        },
        _ => Ok(s),
    }
}

/// Rewrites only the version entry of Cargo-style manifest text,
/// keeping the decoration around the old value and every other byte's
/// formatting. A non-concrete version field is a no-op returning the
/// content unchanged.
pub fn update_version(content: &str, new_version: &VersionField) -> (r: Result<
    String,
    ManifestError,
>)
    ensures
        (match r {
            Ok(t) => Ok::<Seq<char>, ManifestError>(t@),
            Err(e) => Err(e),
        }) == spec_cargo_update(content@, new_version@),
{
    let nv = match new_version {
        VersionField::Concrete(v) => v,
        _ => {
            return Ok(content.to_owned());
        },
    };
    let hp = match scan_section_header(content, false) {
        Some(h) => h,
        None => {
            return Err(ManifestError::Parse);
        },
    };
    let lvl = !hp.0;
    let table_like = match scan_section_is_table(content, lvl) {
        Some(b) => b,
        None => {
            return Err(ManifestError::Parse);
        },
    };
    let decor = match scan_version_decor(content) {
        Some(d) => d,
        None => {
            return Err(ManifestError::Parse);
        },
    };
    if !table_like {
        return Err(ManifestError::NoVersionSection);
    }
    let prefix = match &decor.0 {
        Some(p) => Some(p.as_str()),
        None => None,
    };
    let suffix = match &decor.1 {
        Some(q) => Some(q.as_str()),
        None => None,
    };
    Ok(replace_version(content, nv.as_str(), prefix, suffix))
}

} // verus!
