use odometer::version::VersionBump;

#[test]
fn test_version_bump_patch() {
    let bump = VersionBump::Patch(1);
    assert_eq!(bump.apply_to_version("1.0.0").unwrap(), "1.0.1");
    assert_eq!(bump.apply_to_version("0.5.9").unwrap(), "0.5.10");
}

#[test]
fn test_version_bump_patch_custom_amount() {
    let bump = VersionBump::Patch(5);
    assert_eq!(bump.apply_to_version("1.0.0").unwrap(), "1.0.5");

    let bump = VersionBump::Patch(-2);
    assert_eq!(bump.apply_to_version("1.0.5").unwrap(), "1.0.3");
}

#[test]
fn test_version_bump_minor() {
    let bump = VersionBump::Minor(1);
    assert_eq!(bump.apply_to_version("1.5.3").unwrap(), "1.6.0");

    let bump = VersionBump::Minor(3);
    assert_eq!(bump.apply_to_version("0.1.0").unwrap(), "0.4.0");
}

#[test]
fn test_version_bump_major() {
    let bump = VersionBump::Major(1);
    assert_eq!(bump.apply_to_version("1.5.3").unwrap(), "2.0.0");

    let bump = VersionBump::Major(2);
    assert_eq!(bump.apply_to_version("0.1.0").unwrap(), "2.0.0");
}

#[test]
fn test_version_bump_negative_errors() {
    let bump = VersionBump::Patch(-10);
    let result = bump.apply_to_version("1.0.3");
    assert!(result.is_err());
    assert!(result
        .unwrap_err()
        .message()
        .contains("would result in negative version"));

    let bump = VersionBump::Minor(-5);
    let result = bump.apply_to_version("1.2.0");
    assert!(result.is_err());
    assert!(result
        .unwrap_err()
        .message()
        .contains("would result in negative version"));

    let bump = VersionBump::Major(-10);
    let result = bump.apply_to_version("2.0.0");
    assert!(result.is_err());
    assert!(result
        .unwrap_err()
        .message()
        .contains("would result in negative version"));
}

#[test]
fn test_version_bump_patch_invalid_operations() {
    let bump = VersionBump::Patch(-2);
    let result = bump.apply_to_version("0.1.0");
    assert!(result.is_err());
    assert!(result
        .unwrap_err()
        .message()
        .contains("Cannot decrement patch version by 2 from 0.1.0"));

    let bump = VersionBump::Patch(-1);
    let result = bump.apply_to_version("0.1.0");
    assert!(result.is_err());
    assert!(result
        .unwrap_err()
        .message()
        .contains("Cannot decrement patch version by 1 from 0.1.0"));

    let bump = VersionBump::Patch(2);
    assert_eq!(bump.apply_to_version("0.1.0").unwrap(), "0.1.2");
}

#[test]
fn test_version_bump_cross_component_boundaries() {
    let bump = VersionBump::Patch(-1);
    let result = bump.apply_to_version("1.2.0");
    assert!(result.is_err());
    assert!(result
        .unwrap_err()
        .message()
        .contains("Cannot decrement patch version by 1 from 1.2.0"));

    let bump = VersionBump::Minor(-1);
    let result = bump.apply_to_version("1.0.5");
    assert!(result.is_err());
    assert!(result
        .unwrap_err()
        .message()
        .contains("Cannot decrement minor version by 1 from 1.0.5"));
}

#[test]
fn test_version_bump_absolute_minimum() {
    let bump = VersionBump::Patch(-1);
    let result = bump.apply_to_version("0.0.0");
    assert!(result.is_err());
    assert!(result
        .unwrap_err()
        .message()
        .contains("Cannot decrement patch version by 1 from 0.0.0"));

    let bump = VersionBump::Minor(-1);
    let result = bump.apply_to_version("0.0.0");
    assert!(result.is_err());
    assert!(result
        .unwrap_err()
        .message()
        .contains("Cannot decrement minor version by 1 from 0.0.0"));

    let bump = VersionBump::Major(-1);
    let result = bump.apply_to_version("0.0.0");
    assert!(result.is_err());
    assert!(result
        .unwrap_err()
        .message()
        .contains("Cannot decrement major version by 1 from 0.0.0"));
}

#[test]
fn test_version_bump_large_negative_numbers() {
    let bump = VersionBump::Patch(-999999);
    let result = bump.apply_to_version("1.0.5");
    assert!(result.is_err());
    assert!(result
        .unwrap_err()
        .message()
        .contains("Cannot decrement patch version by 999999 from 1.0.5"));
}

#[test]
fn test_version_bump_prerelease_versions() {
    let bump = VersionBump::Patch(-1);

    assert_eq!(bump.apply_to_version("1.0.1-alpha").unwrap(), "1.0.0-alpha");

    let result = bump.apply_to_version("1.0.0-alpha");
    assert!(result.is_err());
    assert!(result
        .unwrap_err()
        .message()
        .contains("Cannot decrement patch version by 1 from 1.0.0-alpha"));

    let bump = VersionBump::Minor(-1);
    assert_eq!(bump.apply_to_version("1.1.5-beta").unwrap(), "1.0.0-beta");

    let bump = VersionBump::Major(-1);
    assert_eq!(bump.apply_to_version("2.3.5-rc.1").unwrap(), "1.0.0-rc.1");
}

#[test]
fn test_version_bump_with_build_metadata() {
    let bump = VersionBump::Patch(1);
    let result = bump.apply_to_version("1.2.3+20130313144700").unwrap();
    assert_eq!(result, "1.2.4+20130313144700");
}

#[test]
fn test_version_bump_with_prerelease_and_build() {
    let bump = VersionBump::Patch(1);
    let result = bump
        .apply_to_version("1.2.3-beta.1+20130313144700")
        .unwrap();
    assert_eq!(result, "1.2.4-beta.1+20130313144700");
}

#[test]
fn test_version_bump_zero_amount() {
    let bump = VersionBump::Patch(0);
    let result = bump.apply_to_version("1.2.3").unwrap();
    assert_eq!(result, "1.2.3");
}

#[test]
fn test_version_bump_invalid_version_text() {
    let bump = VersionBump::Patch(1);
    let result = bump.apply_to_version("not-a-version");
    assert!(result.is_err());
    assert_eq!(
        result.unwrap_err().message(),
        "Invalid semver version: 'not-a-version'"
    );
}

#[test]
fn test_version_bump_underflow_message_exact() {
    let bump = VersionBump::Patch(-2);
    let err = bump.apply_to_version("0.1.0").unwrap_err();
    assert_eq!(
        err.message(),
        "Cannot decrement patch version by 2 from 0.1.0: would result in negative version"
    );
}

#[test]
fn test_version_bump_overflow_rejected() {
    // The largest u64 major component is still a valid semver version;
    // adding to it cannot wrap around.
    let bump = VersionBump::Major(1);
    let result = bump.apply_to_version("18446744073709551615.0.0");
    assert!(result.is_err());
    assert!(result
        .unwrap_err()
        .message()
        .contains("version component overflow"));
}

#[test]
fn test_version_bump_large_components() {
    let bump = VersionBump::Minor(1);
    assert_eq!(
        bump.apply_to_version("18446744073709551615.1.2").unwrap(),
        "18446744073709551615.2.0"
    );
}

#[test]
fn test_version_bump_zero_amount_major_minor() {
    // A zero bump is a pure no-op: it does not trigger the reset rule.
    let bump = VersionBump::Major(0);
    assert_eq!(bump.apply_to_version("1.2.3").unwrap(), "1.2.3");
    let bump = VersionBump::Minor(0);
    assert_eq!(bump.apply_to_version("1.2.3-rc.1+b7").unwrap(), "1.2.3-rc.1+b7");
}
