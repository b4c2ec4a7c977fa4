use odometer::cargo_toml;
use odometer::domain::VersionField;
use odometer::package_json;

// ---------------------------------------------------------------------
// Cargo-style manifests
// ---------------------------------------------------------------------

#[test]
fn cargo_toml_test_parse_basic_package() {
    let toml = r#"
            [package]
            name = "my-package"
            version = "1.2.3"
        "#;
    let (name, version) = cargo_toml::parse(toml).unwrap();
    assert_eq!(name, Some("my-package".to_string()));
    assert_eq!(version, VersionField::Concrete("1.2.3".to_string()));
}

#[test]
fn test_parse_workspace_inheritance_one() {
    let toml = r#"
            [package]
            name = "my-package"
            version = { workspace = true }
        "#;
    let (name, version) = cargo_toml::parse(toml).unwrap();
    assert_eq!(name, Some("my-package".to_string()));
    assert_eq!(version, VersionField::Inherited);
}

#[test]
fn test_parse_workspace_inheritance_two() {
    let toml = r#"
            [package]
            name = "my-package"
            version.workspace = true
        "#;
    let (name, version) = cargo_toml::parse(toml).unwrap();
    assert_eq!(name, Some("my-package".to_string()));
    assert_eq!(version, VersionField::Inherited);
}

#[test]
fn cargo_toml_test_update_version_basic() {
    let toml = r#"
            [package]
            name = "my-package"
            version = "1.2.3"
        "#;
    let new_version = VersionField::Concrete("2.0.0".to_string());
    let content = cargo_toml::update_version(toml, &new_version).unwrap();
    assert!(content.contains("version = \"2.0.0\""));
}

#[test]
fn cargo_toml_test_update_version_workspace_inheritance() {
    let toml = r#"
            [package]
            name = "my-package"
            version = { workspace = true }
        "#;
    let new_version = VersionField::Concrete("2.0.0".to_string());
    let content = cargo_toml::update_version(toml, &new_version).unwrap();
    assert!(content.contains("version = \"2.0.0\""));
}

#[test]
fn test_parse_workspace_package() {
    let toml = r#"
            [workspace.package]
            name = "workspace-package"
            version = "1.0.0"

            [workspace]
            members = ["crate1", "crate2"]
        "#;
    let (name, version) = cargo_toml::parse(toml).unwrap();
    assert_eq!(name, Some("workspace-package".to_string()));
    assert_eq!(version, VersionField::Concrete("1.0.0".to_string()));
}

#[test]
fn test_update_workspace_package_version() {
    let toml = r#"
            [workspace.package]
            name = "workspace-package"
            version = "1.0.0"

            [workspace]
            members = ["crate1"]
        "#;
    let new_version = VersionField::Concrete("2.0.0".to_string());
    let content = cargo_toml::update_version(toml, &new_version).unwrap();
    assert!(content.contains("version = \"2.0.0\""));
}

#[test]
fn test_parse_package_missing_name() {
    let toml = r#"
            [package]
            version = "1.2.3"
        "#;
    let (name, version) = cargo_toml::parse(toml).unwrap();
    assert_eq!(name, None);
    assert_eq!(version, VersionField::Concrete("1.2.3".to_string()));
}

#[test]
fn test_parse_package_missing_version() {
    let toml = r#"
            [package]
            name = "my-package"
        "#;
    let (name, version) = cargo_toml::parse(toml).unwrap();
    assert_eq!(name, Some("my-package".to_string()));
    assert_eq!(version, VersionField::Absent);
}

#[test]
fn test_parse_no_package_or_workspace() {
    let toml = r#"
            [dependencies]
            serde = "1.0"
        "#;
    let (name, version) = cargo_toml::parse(toml).unwrap();
    assert_eq!(name, None);
    assert_eq!(version, VersionField::Absent);
}

#[test]
fn test_update_version_no_package_or_workspace() {
    let toml = r#"
            [dependencies]
            serde = "1.0"
        "#;
    let new_version = VersionField::Concrete("2.0.0".to_string());
    let result = cargo_toml::update_version(toml, &new_version);
    assert!(result.is_err());
    assert!(result
        .unwrap_err()
        .message()
        .contains("No workspace or package section found"));
}

#[test]
fn test_parse_invalid_toml() {
    let toml = r#"
            [package
            name = "invalid"
        "#;
    let result = cargo_toml::parse(toml);
    assert!(result.is_err());
    assert!(result.unwrap_err().message().contains("Failed to parse"));
}

#[test]
fn test_workspace_inheritance_false() {
    let toml = r#"
            [package]
            name = "my-package"
            version = "1.0.0"
        "#;
    let (name, version) = cargo_toml::parse(toml).unwrap();
    assert_eq!(name, Some("my-package".to_string()));
    assert_eq!(version, VersionField::Concrete("1.0.0".to_string()));
}

#[test]
fn test_workspace_inheritance_with_other_fields() {
    let toml = r#"
            [package]
            name = "my-package"
            version = { workspace = true, optional = true }
        "#;
    let (name, version) = cargo_toml::parse(toml).unwrap();
    assert_eq!(name, Some("my-package".to_string()));
    assert_eq!(version, VersionField::Inherited);
}

#[test]
fn test_update_version_preserves_formatting() {
    let toml = r#"
# This is a comment
[package]
name = "my-package"
version = "1.2.3"  # inline comment
description = "A test package"
        "#;
    let new_version = VersionField::Concrete("2.0.0".to_string());
    let content = cargo_toml::update_version(toml, &new_version).unwrap();

    assert!(content.contains("version = \"2.0.0\""));
    assert!(content.contains("# This is a comment"));
    assert!(content.contains("# inline comment"));
    assert!(content.contains("description = \"A test package\""));
}

#[test]
fn test_parse_version_with_comments() {
    let toml = r#"
            [package]
            # This is a comment
            name = "my-package"
            # Version comment
            version = "1.2.3" # Inline comment
        "#;
    let (name, version) = cargo_toml::parse(toml).unwrap();
    assert_eq!(name, Some("my-package".to_string()));
    assert_eq!(version, VersionField::Concrete("1.2.3".to_string()));
}

#[test]
fn cargo_toml_test_parse_version_with_whitespace() {
    let toml = r#"
            [package]
            name = "my-package"
            version = "1.2.3"
        "#;
    let (name, version) = cargo_toml::parse(toml).unwrap();
    assert_eq!(name, Some("my-package".to_string()));
    assert_eq!(version, VersionField::Concrete("1.2.3".to_string()));
}

#[test]
fn test_parse_workspace_inheritance_invalid_value() {
    let toml = r#"
            [package]
            name = "my-package"
            version = { workspace = "true" }
        "#;
    let result = cargo_toml::parse(toml);
    assert!(result.is_err());
    assert!(result
        .unwrap_err()
        .message()
        .contains("Version field must be a string"));
}

#[test]
fn test_parse_workspace_inheritance_with_additional_fields() {
    let toml = r#"
            [package]
            name = "my-package"
            version = { workspace = true, other = "value" }
        "#;
    let (name, version) = cargo_toml::parse(toml).unwrap();
    assert_eq!(name, Some("my-package".to_string()));
    assert_eq!(version, VersionField::Inherited);
}

#[test]
fn test_parse_workspace_only_no_package() {
    let toml = r#"
            [workspace]
            members = ["crate1"]
        "#;
    let (name, version) = cargo_toml::parse(toml).unwrap();
    assert_eq!(name, None);
    assert_eq!(version, VersionField::Absent);
}

#[test]
fn test_parse_both_workspace_and_package() {
    // When both sections exist, the local package section takes
    // precedence for name and version resolution.
    let toml = r#"
            [workspace.package]
            name = "workspace-package"
            version = "1.0.0"

            [package]
            name = "my-package"
            version = "2.0.0"
        "#;
    let (name, version) = cargo_toml::parse(toml).unwrap();
    assert_eq!(name, Some("my-package".to_string()));
    assert_eq!(version, VersionField::Concrete("2.0.0".to_string()));
}

#[test]
fn test_update_both_workspace_and_package() {
    // The local package section takes precedence for the rewrite too:
    // the shared section's version stays as it was.
    let toml = r#"
            [workspace.package]
            name = "workspace-package"
            version = "1.0.0"

            [package]
            name = "my-package"
            version = "2.0.0"
        "#;
    let new_version = VersionField::Concrete("3.0.0".to_string());
    let content = cargo_toml::update_version(toml, &new_version).unwrap();
    assert!(content.contains("version = \"3.0.0\""));
    assert!(content.contains("version = \"1.0.0\""));
    assert!(!content.contains("version = \"2.0.0\""));
}

#[test]
fn test_update_version_package_not_a_table() {
    // A `package` key that is not a table offers no writable version
    // location.
    let toml = "package = 1\n";
    let new_version = VersionField::Concrete("2.0.0".to_string());
    let result = cargo_toml::update_version(toml, &new_version);
    assert!(result.is_err());
    assert!(result
        .unwrap_err()
        .message()
        .contains("No workspace or package section found"));

    let toml = "[[package]]\nname = \"a\"\n";
    let result = cargo_toml::update_version(toml, &VersionField::Concrete("2.0.0".to_string()));
    assert!(result.is_err());
}

#[test]
fn test_parse_package_not_a_table() {
    let toml = "package = 1\n";
    let (name, version) = cargo_toml::parse(toml).unwrap();
    assert_eq!(name, None);
    assert_eq!(version, VersionField::Absent);
}

#[test]
fn test_update_version_preserves_inline_table() {
    let toml = r#"
            [package]
            name = "my-package"
            version = { workspace = true, other = "value" }
        "#;
    let new_version = VersionField::Concrete("2.0.0".to_string());
    let content = cargo_toml::update_version(toml, &new_version).unwrap();
    assert!(content.contains("version = \"2.0.0\""));
}

#[test]
fn cargo_toml_test_parse_version_invalid_semver() {
    let toml = r#"
            [package]
            name = "my-package"
            version = "not-a-version"
        "#;
    let (name, version) = cargo_toml::parse(toml).unwrap();
    assert_eq!(name, Some("my-package".to_string()));
    assert_eq!(version, VersionField::Concrete("not-a-version".to_string()));
}

#[test]
fn test_cargo_update_same_version_round_trip() {
    // Rewriting the version it already holds reproduces the document
    // byte for byte.
    let toml = "# top comment\n[package]\nname = \"my-package\"\nversion = \"1.2.3\"  # inline\ndescription = \"x\"\n";
    let (_, version) = cargo_toml::parse(toml).unwrap();
    let content = cargo_toml::update_version(toml, &version).unwrap();
    assert_eq!(content, toml);
}

#[test]
fn test_cargo_update_noop_for_inherited() {
    let toml = "[package]\nname = \"p\"\nversion = \"1.0.0\"\n";
    let content = cargo_toml::update_version(toml, &VersionField::Inherited).unwrap();
    assert_eq!(content, toml);
    let content = cargo_toml::update_version(toml, &VersionField::Absent).unwrap();
    assert_eq!(content, toml);
}

// ---------------------------------------------------------------------
// Node-style manifests
// ---------------------------------------------------------------------

#[test]
fn package_json_test_parse_basic_package() {
    let json = r#"{
            "name": "my-package",
            "version": "1.2.3"
        }"#;
    let (name, version) = package_json::parse(json).unwrap();
    assert_eq!(name, Some("my-package".to_string()));
    assert_eq!(version, VersionField::Concrete("1.2.3".to_string()));
}

#[test]
fn test_parse_workspace_inheritance() {
    let json = r#"{
            "name": "workspace-package",
            "version": "workspace:*"
        }"#;
    let (name, version) = package_json::parse(json).unwrap();
    assert_eq!(name, Some("workspace-package".to_string()));
    assert_eq!(version, VersionField::Inherited);
}

#[test]
fn test_parse_workspace_inheritance_tilde() {
    let json = r#"{
            "name": "workspace-package",
            "version": "workspace:~"
        }"#;
    let (name, version) = package_json::parse(json).unwrap();
    assert_eq!(name, Some("workspace-package".to_string()));
    assert_eq!(version, VersionField::Inherited);
}

#[test]
fn test_parse_missing_name() {
    let json = r#"{
            "version": "1.2.3"
        }"#;
    let (name, version) = package_json::parse(json).unwrap();
    assert_eq!(name, None);
    assert_eq!(version, VersionField::Concrete("1.2.3".to_string()));
}

#[test]
fn test_parse_missing_version() {
    let json = r#"{
            "name": "my-package"
        }"#;
    let (name, version) = package_json::parse(json).unwrap();
    assert_eq!(name, Some("my-package".to_string()));
    assert_eq!(version, VersionField::Absent);
}

#[test]
fn test_parse_no_package_fields() {
    let json = r#"{
            "dependencies": {
                "lodash": "^4.17.0"
            }
        }"#;
    let (name, version) = package_json::parse(json).unwrap();
    assert_eq!(name, None);
    assert_eq!(version, VersionField::Absent);
}

#[test]
fn test_parse_invalid_json() {
    let json = r#"{
            "name": "invalid"
        "#;
    let result = package_json::parse(json);
    assert!(result.is_err());
    assert!(result.unwrap_err().message().contains("Failed to parse"));
}

#[test]
fn package_json_test_update_version_basic() {
    let json = r#"{
            "name": "my-package",
            "version": "1.2.3"
        }"#;
    let new_version = VersionField::Concrete("2.0.0".to_string());
    let content = package_json::update_version(json, &new_version).unwrap();
    assert!(content.contains("\"version\": \"2.0.0\""));
}

#[test]
fn test_update_version_adds_if_missing() {
    let json = r#"{
            "name": "my-package"
        }"#;
    let new_version = VersionField::Concrete("2.0.0".to_string());
    let content = package_json::update_version(json, &new_version).unwrap();
    assert!(content.contains("\"version\": \"2.0.0\""));
}

#[test]
fn package_json_test_update_version_workspace_inheritance() {
    let json = r#"{
            "name": "workspace-package",
            "version": "workspace:*"
        }"#;
    let new_version = VersionField::Concrete("2.0.0".to_string());
    let content = package_json::update_version(json, &new_version).unwrap();
    assert!(content.contains("\"version\": \"2.0.0\""));
}

#[test]
fn test_update_version_preserves_other_fields() {
    let json = r#"{
            "name": "my-package",
            "version": "1.2.3",
            "description": "A test package",
            "dependencies": {
                "lodash": "^4.17.0"
            }
        }"#;
    let new_version = VersionField::Concrete("2.0.0".to_string());
    let content = package_json::update_version(json, &new_version).unwrap();

    assert!(content.contains("\"version\": \"2.0.0\""));
    assert!(content.contains("\"description\": \"A test package\""));
    assert!(content.contains("\"lodash\": \"^4.17.0\""));
}

#[test]
fn package_json_test_parse_version_with_whitespace() {
    let json = r#"{
            "name": "my-package",
            "version": " 1.2.3 "
        }"#;
    let (name, version) = package_json::parse(json).unwrap();
    assert_eq!(name, Some("my-package".to_string()));
    assert_eq!(version, VersionField::Concrete(" 1.2.3 ".to_string()));
}

#[test]
fn package_json_test_parse_version_invalid_semver() {
    let json = r#"{
            "name": "my-package",
            "version": "not-a-version"
        }"#;
    let (name, version) = package_json::parse(json).unwrap();
    assert_eq!(name, Some("my-package".to_string()));
    assert_eq!(version, VersionField::Concrete("not-a-version".to_string()));
}

#[test]
fn test_parse_workspace_inheritance_with_version() {
    let json = r#"{
            "name": "workspace-package",
            "version": "workspace:1.2.3"
        }"#;
    let (name, version) = package_json::parse(json).unwrap();
    assert_eq!(name, Some("workspace-package".to_string()));
    assert_eq!(version, VersionField::Inherited);
}

#[test]
fn test_parse_workspace_inheritance_with_range() {
    let json = r#"{
            "name": "workspace-package",
            "version": "workspace:^1.2.3"
        }"#;
    let (name, version) = package_json::parse(json).unwrap();
    assert_eq!(name, Some("workspace-package".to_string()));
    assert_eq!(version, VersionField::Inherited);
}

#[test]
fn test_parse_version_null() {
    let json = r#"{
            "name": "my-package",
            "version": null
        }"#;
    let (name, version) = package_json::parse(json).unwrap();
    assert_eq!(name, Some("my-package".to_string()));
    assert_eq!(version, VersionField::Absent);
}

#[test]
fn test_parse_version_number() {
    let json = r#"{
            "name": "my-package",
            "version": 1.2
        }"#;
    let (name, version) = package_json::parse(json).unwrap();
    assert_eq!(name, Some("my-package".to_string()));
    assert_eq!(version, VersionField::Absent);
}

#[test]
fn test_parse_version_empty_string() {
    let json = r#"{
            "name": "my-package",
            "version": ""
        }"#;
    let (name, version) = package_json::parse(json).unwrap();
    assert_eq!(name, Some("my-package".to_string()));
    assert_eq!(version, VersionField::Concrete("".to_string()));
}

#[test]
fn test_json_update_preserves_formatting() {
    // The version value is replaced in place: every other byte of the
    // document, including unusual spacing, stays as it was.
    let json = "{\n\t\"name\":   \"my-package\" ,\n\t\"version\":\t\"1.2.3\",\n\t\"keep\": [1, 2]\n}\n";
    let new_version = VersionField::Concrete("2.0.0".to_string());
    let content = package_json::update_version(json, &new_version).unwrap();
    assert_eq!(
        content,
        "{\n\t\"name\":   \"my-package\" ,\n\t\"version\":\t\"2.0.0\",\n\t\"keep\": [1, 2]\n}\n"
    );
}

#[test]
fn test_json_update_same_version_round_trip() {
    // Rewriting the version a document already holds reproduces it
    // byte for byte.
    let json = "{\n  \"name\": \"my-package\",\n  \"version\": \"1.2.3\",\n  \"x\": {\"version\": \"9.9.9\"}\n}\n";
    let (_, version) = package_json::parse(json).unwrap();
    let content = package_json::update_version(json, &version).unwrap();
    assert_eq!(content, json);
}

#[test]
fn test_json_update_root_not_object() {
    let json = "[1, 2, 3]";
    let new_version = VersionField::Concrete("2.0.0".to_string());
    let result = package_json::update_version(json, &new_version);
    assert!(result.is_err());
    assert!(result
        .unwrap_err()
        .message()
        .contains("Manifest root is not an object"));
}
