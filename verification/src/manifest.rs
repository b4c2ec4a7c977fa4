//! The error taxonomy shared by the manifest adapters.
use vstd::prelude::*;
use vstd::string::*;

verus! {

/// Why reading or rewriting a manifest failed.
#[derive(Clone, Copy, Debug, PartialEq, Eq, Structural)]
pub enum ManifestError {
    /// The text is not valid for the manifest's format.
    Parse,
    /// The version field is present but is neither a string nor an
    /// inheritance marker.
    VersionNotString,
    /// The document has no writable version-bearing section.
    NoVersionSection,
    /// The document's root is not an object, so no version field can
    /// be written.
    NotAnObject,
}

/// The exact text of each manifest error.
pub open spec fn spec_manifest_error_message(e: ManifestError) -> Seq<char> {
    match e {
        ManifestError::Parse => "Failed to parse manifest content"@,
        ManifestError::VersionNotString => "Version field must be a string"@,
        ManifestError::NoVersionSection => "No workspace or package section found"@,
        ManifestError::NotAnObject => "Manifest root is not an object"@,
    }
}

impl ManifestError {
    /// The error rendered as one line of text.
    pub fn message(&self) -> (s: String)
        ensures
            s@ == spec_manifest_error_message(*self),
    {
        match self {
            ManifestError::Parse => "Failed to parse manifest content".to_owned(),
            ManifestError::VersionNotString => "Version field must be a string".to_owned(),
            ManifestError::NoVersionSection => "No workspace or package section found".to_owned(),
            ManifestError::NotAnObject => "Manifest root is not an object".to_owned(),
        }
    }
}

} // verus!
