use ostt::version::{
    check_setup_needed, config_version_in_line, SemanticVersion, SetupCheckError, VersionError,
};

#[test]
fn test_semantic_version_parse() {
    let v = SemanticVersion::parse("0.0.5").unwrap();
    assert_eq!(v.major, 0);
    assert_eq!(v.minor, 0);
    assert_eq!(v.patch, 5);
}

#[test]
fn test_semantic_version_comparison() {
    let v1 = SemanticVersion::parse("0.0.4").unwrap();
    let v2 = SemanticVersion::parse("0.0.5").unwrap();
    let v3 = SemanticVersion::parse("0.1.0").unwrap();

    assert!(v1 < v2);
    assert!(v2 < v3);
    assert_eq!(v1, v1.clone());
}

#[test]
fn test_invalid_version_format() {
    assert!(SemanticVersion::parse("0.0").is_err());
    assert!(SemanticVersion::parse("0.0.5.1").is_err());
    assert!(SemanticVersion::parse("invalid").is_err());
}

#[test]
fn test_parse_trims_whitespace() {
    let v = SemanticVersion::parse("  1.2.3\n").unwrap();
    assert_eq!((v.major, v.minor, v.patch), (1, 2, 3));
}

#[test]
fn test_parse_error_names_the_part() {
    assert_eq!(
        SemanticVersion::parse("x.2.3").unwrap_err(),
        VersionError::InvalidMajor
    );
    assert_eq!(
        SemanticVersion::parse("1..3").unwrap_err(),
        VersionError::InvalidMinor
    );
    assert_eq!(
        SemanticVersion::parse("1.2.z").unwrap_err(),
        VersionError::InvalidPatch
    );
    assert_eq!(
        SemanticVersion::parse("1.2").unwrap_err(),
        VersionError::InvalidFormat
    );
}

#[test]
fn test_parse_rejects_u32_overflow() {
    assert_eq!(
        SemanticVersion::parse("4294967296.0.0").unwrap_err(),
        VersionError::InvalidMajor
    );
    let v = SemanticVersion::parse("4294967295.0.0").unwrap();
    assert_eq!(v.major, u32::MAX);
}

#[test]
fn test_is_older_than() {
    let a = SemanticVersion { major: 1, minor: 9, patch: 9 };
    let b = SemanticVersion { major: 2, minor: 0, patch: 0 };
    assert!(a.is_older_than(&b));
    assert!(!b.is_older_than(&a));
    assert!(!a.is_older_than(&a));
}

#[test]
fn test_config_version_line_extraction() {
    let line = String::from("config_version = \"0.0.5\"");
    assert_eq!(config_version_in_line(&line), Some("0.0.5"));

    let spaced = String::from("  config_version=\"1.2.3\" # note");
    assert_eq!(config_version_in_line(&spaced), Some("1.2.3"));

    let comment = String::from("# config_version = \"0.0.5\"");
    assert_eq!(config_version_in_line(&comment), None);

    let other = String::from("sample_rate = 16000");
    assert_eq!(config_version_in_line(&other), None);

    let empty_value = String::from("config_version = \"\"");
    assert_eq!(config_version_in_line(&empty_value), None);
}

#[test]
fn test_check_setup_needed_missing_file() {
    assert_eq!(check_setup_needed(false, None, "0.0.5"), Ok(None));
}

#[test]
fn test_check_setup_needed_empty_file() {
    assert_eq!(
        check_setup_needed(true, None, "0.0.5"),
        Err(SetupCheckError::EmptyConfig)
    );
}

#[test]
fn test_check_setup_needed_legacy_config() {
    let line = String::from("sample_rate = 16000");
    assert_eq!(
        check_setup_needed(true, Some(&line), "0.0.5"),
        Ok(Some(String::from("unknown (legacy config)")))
    );
}

#[test]
fn test_check_setup_needed_older_config() {
    let line = String::from("config_version = \"0.0.4\"");
    assert_eq!(
        check_setup_needed(true, Some(&line), "0.0.5"),
        Ok(Some(String::from("0.0.4")))
    );
}

#[test]
fn test_check_setup_needed_current_config() {
    let line = String::from("config_version = \"0.0.5\"");
    assert_eq!(check_setup_needed(true, Some(&line), "0.0.5"), Ok(None));
}

#[test]
fn test_check_setup_needed_newer_config() {
    let line = String::from("config_version = \"9.9.9\"");
    assert_eq!(check_setup_needed(true, Some(&line), "0.0.5"), Ok(None));
}

#[test]
fn test_check_setup_needed_bad_config_version() {
    let line = String::from("config_version = \"x.y\"");
    assert_eq!(
        check_setup_needed(true, Some(&line), "0.0.5"),
        Err(SetupCheckError::ConfigVersion(VersionError::InvalidFormat))
    );
}

#[test]
fn test_check_setup_needed_bad_current_version() {
    let line = String::from("config_version = \"0.0.4\"");
    assert_eq!(
        check_setup_needed(true, Some(&line), "junk"),
        Err(SetupCheckError::CurrentVersion(VersionError::InvalidFormat))
    );
}
