//! A verified core for keeping semantic-version fields of a multi-package
//! workspace in step: semantic-version arithmetic, package selection,
//! in-memory workspace mutation, and manifest version rewriting.
pub mod text;
pub mod version;
pub mod domain;
pub mod manifest;
pub mod cargo_toml;
pub mod package_json;
pub mod json_text;
