use cargo_lookup::{Error, Version, VersionReq};

#[test]
fn version_keeps_its_text() {
    let version = Version::parse("0.1.12").expect("version");
    assert_eq!(version.as_str(), "0.1.12");
    assert_eq!(version.clone(), version);
}

#[test]
fn malformed_version_is_rejected() {
    assert!(matches!(Version::parse("0.1"), Err(Error::InvalidVersion(_))));
    assert!(matches!(Version::parse(""), Err(Error::InvalidVersion(_))));
    assert!(matches!(Version::parse("^0.1.0"), Err(Error::InvalidVersion(_))));
}

#[test]
fn requirement_keeps_its_text() {
    let requirement = VersionReq::parse("0.12").expect("version req");
    assert_eq!(requirement.as_str(), "0.12");
    assert_eq!(requirement.clone(), requirement);
}

#[test]
fn malformed_requirement_is_rejected() {
    assert!(matches!(VersionReq::parse("not a version"), Err(Error::InvalidVersion(_))));
    assert!(matches!(VersionReq::parse(""), Err(Error::InvalidVersion(_))));
    assert!(matches!(VersionReq::parse("1.0.0.0"), Err(Error::InvalidVersion(_))));
}

#[test]
fn malformed_requirement_reports_the_parser_message() {
    let error = VersionReq::parse("x.y.z.w").unwrap_err();
    let message = error.message();
    assert!(message.starts_with("failed parsing version: "));
    assert!(message.len() > "failed parsing version: ".len());
}

#[test]
fn caret_requirement_admits_compatible_versions_only() {
    let requirement = VersionReq::parse("^0.1.0").expect("version req");
    assert!(requirement.matches(&Version::parse("0.1.0").expect("version")));
    assert!(requirement.matches(&Version::parse("0.1.12").expect("version")));
    assert!(!requirement.matches(&Version::parse("0.2.0").expect("version")));
    assert!(!requirement.matches(&Version::parse("1.1.0").expect("version")));
}

#[test]
fn bare_requirement_is_a_caret_requirement() {
    let requirement = VersionReq::parse("0.12").expect("version req");
    assert!(requirement.matches(&Version::parse("0.12.7").expect("version")));
    assert!(!requirement.matches(&Version::parse("0.13.0").expect("version")));
}

#[test]
fn exact_requirement_admits_one_version() {
    let requirement = VersionReq::parse("=0.1.11").expect("version req");
    assert!(requirement.matches(&Version::parse("0.1.11").expect("version")));
    assert!(!requirement.matches(&Version::parse("0.1.12").expect("version")));
}

#[test]
fn star_admits_every_release_version() {
    let requirement = VersionReq::parse("*").expect("version req");
    assert!(requirement.matches(&Version::parse("0.0.1").expect("version")));
    assert!(requirement.matches(&Version::parse("99.0.0").expect("version")));
}

#[test]
fn prerelease_needs_a_prerelease_requirement() {
    let plain = VersionReq::parse("^1.0.0").expect("version req");
    let pre = VersionReq::parse(">=1.0.0-alpha.1").expect("version req");
    let version = Version::parse("1.0.0-alpha.2").expect("version");
    assert!(!plain.matches(&version));
    assert!(pre.matches(&version));
}
