//! The Node-style manifest adapter, working on manifest text. The
//! version lives at the top level as a string; inheritance is signaled
//! by a value starting with the `workspace:` protocol marker. Reading
//! and rewriting the JSON document is delegated to the `serde_json`
//! crate behind trusted wrappers; the inheritance decision and the
//! error policy are verified.
use vstd::prelude::*;

use crate::domain::VersionField;
use crate::domain::VersionFieldView;
use crate::manifest::ManifestError;
use crate::text::has_prefix;
use crate::text::is_prefix_of;
use crate::json_text::spec_version_span;
use crate::json_text::find_version_span;

verus! {

/// What kind of value stands at the root of a JSON document.
#[derive(Clone, Copy, Debug, PartialEq, Eq, Structural)]
pub enum JsonRoot {
    Object,
    Null,
    Other,
}

/// What a JSON manifest holds: the kind of its root value, and its
/// top-level `name` and `version` strings, when they are strings.
pub struct JsonFacts {
    pub root: JsonRoot,
    pub name: Option<String>,
    pub version: Option<String>,
}

/// The mathematical value of a `JsonFacts`.
pub struct JsonFactsView {
    pub root: JsonRoot,
    pub name: Option<Seq<char>>,
    pub version: Option<Seq<char>>,
}

impl View for JsonFacts {
    type V = JsonFactsView;

    open spec fn view(&self) -> JsonFactsView {
        JsonFactsView {
            root: self.root,
            name: match &self.name {
                Some(n) => Some(n@),
                None => None,
            },
            version: match &self.version {
                Some(v) => Some(v@),
                None => None,
            },
        }
    }
}

/// What a JSON document holds at its top level; `None` when the text is
/// not valid JSON.
pub uninterp spec fn json_facts_of(s: Seq<char>) -> Option<JsonFactsView>;

/// The document re-serialized (pretty-printed) with its top-level
/// `version` entry set to the string `v`.
pub uninterp spec fn json_with_version(s: Seq<char>, v: Seq<char>) -> Seq<char>;

/// Relies on `serde_json::from_str`, `Value::get` and `Value::as_str`:
/// a deterministic parse of the content and its top-level string
/// fields.
#[verifier::external_body]
fn scan_json(content: &str) -> (r: Option<JsonFacts>)
    ensures
        (match r {
            Some(f) => Some(f@),
            None => None::<JsonFactsView>,
        }) == json_facts_of(content@),
{
    let val: serde_json::Value = serde_json::from_str(content).ok()?;
    let root = match &val {
        serde_json::Value::Object(_) => JsonRoot::Object,
        serde_json::Value::Null => JsonRoot::Null,
        _ => JsonRoot::Other,
    };
    let name = val.get("name").and_then(|n| n.as_str()).map(|s| s.to_string());
    let version = val.get("version").and_then(|v| v.as_str()).map(|s| s.to_string());
    Some(JsonFacts { root, name, version })
}

/// Relies on `serde_json::from_str`, the `Value` index assignment and
/// `serde_json::to_string_pretty`: the top-level `version` entry is set
/// (a null root first becomes an empty object) and the document is
/// re-serialized. The root kind in `requires` rules out the inputs on
/// which the index assignment panics; serializing a parsed `Value`
/// cannot fail.
#[verifier::external_body]
fn replace_json_version(content: &str, new_version: &str) -> (r: String)
    requires
        json_facts_of(content@) matches Some(f) && (f.root is Object || f.root is Null),
    ensures
        r@ == json_with_version(content@, new_version@),
{
    let mut val: serde_json::Value = serde_json::from_str(content).unwrap();
    val["version"] = serde_json::Value::String(new_version.to_string());
    serde_json::to_string_pretty(&val).unwrap()
}

/// What `parse` returns for a given document: the top-level name, and
/// the version field, where a string starting with `workspace:` is the
/// inheritance marker and a missing or non-string version is absent.
pub open spec fn spec_json_parse(s: Seq<char>) -> Result<
    (Option<Seq<char>>, VersionFieldView),
    ManifestError,
> {
    match json_facts_of(s) {
        None => Err(ManifestError::Parse),
        Some(f) => Ok(
            (
                f.name,
                match f.version {
                    None => VersionFieldView::Absent,
                    Some(v) => if is_prefix_of("workspace:"@, v) {
                        VersionFieldView::Inherited
                    } else {
                        VersionFieldView::Concrete(v)
                    },
                },
            ),
        ),
    }
}

/// Reads the package name and version field out of Node-style manifest
/// text.
pub fn parse(content: &str) -> (r: Result<(Option<String>, VersionField), ManifestError>)
    ensures
        (match r {
            Ok((n, v)) => Ok::<(Option<Seq<char>>, VersionFieldView), ManifestError>(
                (
                    match n {
                        Some(s) => Some(s@),
                        None => None,
                    },
                    v@,
                ),
            ),
            Err(e) => Err(e),
        }) == spec_json_parse(content@),
{
    let facts = match scan_json(content) {
        Some(f) => f,
        None => {
            return Err(ManifestError::Parse);
        },
    };
    let version = match facts.version {
        None => VersionField::Absent,
        Some(v) => if has_prefix(v.as_str(), "workspace:") {
            VersionField::Inherited
        } else {
            VersionField::Concrete(v)
        },
    };
    Ok((facts.name, version))
}

/// Whether a text can stand inside a JSON string literal unescaped.
pub open spec fn plain_json_text(v: Seq<char>) -> bool {
    forall|i: int| 0 <= i < v.len() ==> v[i] != '"' && v[i] != '\\' && (v[i] as int) >= 32
}

fn is_plain_json_text(s: &str) -> (r: bool)
    ensures
        r == plain_json_text(s@),
{
    let n = s.unicode_len();
    let mut i: usize = 0;
    while i < n
        invariant
            0 <= i <= n,
            n == s@.len(),
            forall|j: int| 0 <= j < i ==> s@[j] != '"' && s@[j] != '\\' && (s@[j] as int) >= 32,
        decreases n - i,
    {
        let c = s.get_char(i);
        if c == '"' || c == '\\' || (c as u32) < 32 {
            return false;
        }
        i = i + 1;
    }
    true
}

/// What `update_version` returns: for a concrete version the document
/// with the version value replaced in place — when the scanner finds
/// the value's span and the new text needs no escaping, only those
/// bytes change; otherwise the document is re-serialized (which also
/// adds a missing version member). A non-concrete version field is a
/// no-op, and the exact error is stated when the text does not parse
/// or its root can hold no version field.
pub open spec fn spec_json_update(s: Seq<char>, nv: VersionFieldView) -> Result<
    Seq<char>,
    ManifestError,
> {
    match nv {
        VersionFieldView::Concrete(v) => match json_facts_of(s) {
            None => Err(ManifestError::Parse),
            Some(f) => if f.root is Object || f.root is Null {
                match spec_version_span(s) {
                    Some(p) => if plain_json_text(v) && p.1 < s.len() {
                        Ok(
                            s.subrange(0, p.0 as int) + "\""@ + v + "\""@ + s.subrange(
                                p.1 as int + 1,
                                s.len() as int,
                            ),
                        )
                    } else {
                        Ok(json_with_version(s, v))
                    },
                    None => Ok(json_with_version(s, v)),
                }
            } else {
                Err(ManifestError::NotAnObject)
            },
        },
        _ => Ok(s),
    }
}

/// Rewrites the top-level version entry of Node-style manifest text,
/// replacing only the value's bytes whenever its span can be found and
/// the new text fits a plain string literal. A non-concrete version
/// field is a no-op returning the content unchanged.
pub fn update_version(content: &str, new_version: &VersionField) -> (r: Result<
    String,
    ManifestError,
>)
    ensures
        (match r {
            Ok(t) => Ok::<Seq<char>, ManifestError>(t@),
            Err(e) => Err(e),
        }) == spec_json_update(content@, new_version@),
{
    let nv = match new_version {
        VersionField::Concrete(v) => v,
        _ => {
            return Ok(content.to_owned());
        },
    };
    let facts = match scan_json(content) {
        Some(f) => f,
        None => {
            return Err(ManifestError::Parse);
        },
    };
    let writable = match facts.root {
        JsonRoot::Object => true,
        JsonRoot::Null => true,
        JsonRoot::Other => false,
    };
    if !writable {
        return Err(ManifestError::NotAnObject);
    }
    match find_version_span(content) {
        Some(span) => {
            if is_plain_json_text(nv.as_str()) {
                let n = content.unicode_len();
                let mut out = content.substring_char(0, span.0).to_owned();
                out.append("\"");
                out.append(nv.as_str());
                out.append("\"");
                out.append(content.substring_char(span.1 + 1, n));
                proof {
                    assert(out@ =~= content@.subrange(0, span.0 as int) + "\""@ + nv@ + "\""@
                        + content@.subrange(span.1 as int + 1, content@.len() as int));
                }
                Ok(out)
            } else {
                Ok(replace_json_version(content, nv.as_str()))
            }
        },
        None => Ok(replace_json_version(content, nv.as_str())),
    }
}

/// Rewriting the version string a JSON manifest already holds, written
/// as a plain string literal, reproduces the document byte for byte.
pub proof fn lemma_json_update_round_trip(s: Seq<char>, v: Seq<char>)
    requires
        json_facts_of(s) matches Some(f) && (f.root is Object || f.root is Null),
        spec_version_span(s) matches Some(p) && p.0 < p.1 && p.1 < s.len() && s.subrange(
            p.0 as int,
            p.1 as int + 1,
        ) == "\""@ + v + "\""@,
        plain_json_text(v),
    ensures
        spec_json_update(s, VersionFieldView::Concrete(v)) == Ok::<Seq<char>, ManifestError>(s),
{
    let p = spec_version_span(s)->Some_0;
    let out = s.subrange(0, p.0 as int) + "\""@ + v + "\""@ + s.subrange(
        p.1 as int + 1,
        s.len() as int,
    );
    assert(out =~= s.subrange(0, p.0 as int) + s.subrange(p.0 as int, p.1 as int + 1) + s.subrange(
        p.1 as int + 1,
        s.len() as int,
    ));
    assert(out =~= s);
}

} // verus!
