use gpu_fan_control::version::{
    check_remote_version, compare_versions, is_current_version_older, parse_version, VersionError,
};

#[test]
fn older_when_minor_is_behind() {
    assert_eq!(compare_versions("1.2.3", "1.3.0"), Ok(true));
}

#[test]
fn equal_versions_are_not_older() {
    assert_eq!(compare_versions("1.2.3", "1.2.3"), Ok(false));
}

#[test]
fn comparison_is_numeric_not_lexical() {
    assert_eq!(compare_versions("1.10.0", "1.9.9"), Ok(false));
    assert_eq!(compare_versions("1.9.9", "1.10.0"), Ok(true));
}

#[test]
fn shorter_version_is_padded_with_zeros() {
    assert_eq!(compare_versions("1.2", "1.2.0.1"), Ok(true));
    assert_eq!(compare_versions("1.2.0", "1.2"), Ok(false));
    assert_eq!(compare_versions("1.2", "1.2.0"), Ok(false));
}

#[test]
fn newer_compiled_version_is_not_older() {
    assert_eq!(compare_versions("2.0.0", "1.99.99"), Ok(false));
}

#[test]
fn components_may_carry_a_plus_sign() {
    assert_eq!(compare_versions("+1.2", "1.3"), Ok(true));
    assert_eq!(parse_version("+7.0"), Some(vec![7, 0]));
}

#[test]
fn malformed_components_are_rejected() {
    assert_eq!(compare_versions("1..2", "1"), Err(VersionError::InvalidVersion));
    assert_eq!(compare_versions("1.2", "1.a"), Err(VersionError::InvalidVersion));
    assert_eq!(compare_versions("", "1"), Err(VersionError::InvalidVersion));
    assert_eq!(compare_versions("1.-2", "1"), Err(VersionError::InvalidVersion));
    assert_eq!(compare_versions("+", "1"), Err(VersionError::InvalidVersion));
}

#[test]
fn components_must_fit_in_64_bits() {
    assert_eq!(parse_version("18446744073709551615"), Some(vec![u64::MAX]));
    assert_eq!(parse_version("18446744073709551616"), None);
    assert_eq!(compare_versions("18446744073709551616", "1"), Err(VersionError::InvalidVersion));
}

#[test]
fn parse_version_reads_every_component() {
    assert_eq!(parse_version("1.10.0"), Some(vec![1, 10, 0]));
    assert_eq!(parse_version("042"), Some(vec![42]));
}

const MANIFEST: &str = "[package]\nname = \"widget\"\nversion = \"1.3.0\"\nedition = \"2021\"\n";

#[test]
fn manifest_version_is_read_and_compared() {
    assert_eq!(is_current_version_older(MANIFEST, "1.2.0"), Ok((true, String::from("1.3.0"))));
    assert_eq!(is_current_version_older(MANIFEST, "1.3.0"), Ok((false, String::from("1.3.0"))));
}

#[test]
fn manifest_with_crlf_line_endings() {
    let m = "[package]\r\nversion = \"2.0.1\"\r\n";
    assert_eq!(is_current_version_older(m, "2.0.0"), Ok((true, String::from("2.0.1"))));
}

#[test]
fn manifest_without_version_line() {
    let m = "[package]\nname = \"widget\"\n";
    assert_eq!(is_current_version_older(m, "1.0.0"), Err(VersionError::VersionNotFound));
}

#[test]
fn manifest_with_unquoted_version() {
    let m = "version = 1.3.0\n";
    assert_eq!(is_current_version_older(m, "1.0.0"), Err(VersionError::VersionNotFound));
    let half = "version = \"1.3.0\n";
    assert_eq!(is_current_version_older(half, "1.0.0"), Err(VersionError::VersionNotFound));
}

#[test]
fn only_the_first_version_line_counts() {
    let m = "version_note = none\nversion = \"9.0.0\"\n";
    assert_eq!(is_current_version_older(m, "1.0.0"), Err(VersionError::VersionNotFound));
}

#[test]
fn manifest_with_invalid_version() {
    let m = "version = \"1.x\"\n";
    assert_eq!(is_current_version_older(m, "1.0.0"), Err(VersionError::InvalidVersion));
    assert_eq!(is_current_version_older(MANIFEST, "one"), Err(VersionError::InvalidVersion));
}

#[test]
fn advisory_check_degrades_without_manifest() {
    assert_eq!(check_remote_version(None, "1.2.0"), (false, String::from("0.0.0")));
}

#[test]
fn advisory_check_degrades_on_unreadable_manifest() {
    assert_eq!(check_remote_version(Some("garbage"), "1.2.0"), (false, String::from("0.0.0")));
    assert_eq!(check_remote_version(Some("version = \"1.x\""), "1.2.0"), (false, String::from("0.0.0")));
}

#[test]
fn advisory_check_reports_newer_remote() {
    assert_eq!(check_remote_version(Some(MANIFEST), "1.2.0"), (true, String::from("1.3.0")));
}
