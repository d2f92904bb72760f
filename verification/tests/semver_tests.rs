use semrel::bump::BumpLevel;
use semrel::semver::{ParseError, SemanticVersion};

#[test]
fn to_string() {
    let n = SemanticVersion { major: 1, minor: 2, patch: 3 };
    assert_eq!(n.render(), "1.2.3");
}

#[test]
fn new_starts_at_zero() {
    let v = SemanticVersion::new();
    assert_eq!(v.render(), "0.0.0");
    let d = SemanticVersion::default();
    assert_eq!(d, v);
}

#[test]
fn parse_then_render_round_trips() {
    let mut v = SemanticVersion::new();
    assert!(v.set_version("1.2.3").is_ok());
    assert_eq!(v.render(), "1.2.3");
    assert!(v.set_version("0.0.0").is_ok());
    assert_eq!(v.render(), "0.0.0");
    assert!(v.set_version("10.200.3000").is_ok());
    assert_eq!(v.render(), "10.200.3000");
}

#[test]
fn parse_rejects_too_few_components() {
    let mut v = SemanticVersion::new();
    assert_eq!(v.set_version("1.2"), Err(ParseError::TooFewComponents));
    assert_eq!(v.set_version(""), Err(ParseError::TooFewComponents));
}

#[test]
fn parse_rejects_too_many_components() {
    let mut v = SemanticVersion::new();
    assert_eq!(v.set_version("1.2.3.4"), Err(ParseError::TooManyComponents));
}

#[test]
fn parse_rejects_non_numeric_component() {
    let mut v = SemanticVersion::new();
    assert_eq!(v.set_version("1.a.3"), Err(ParseError::InvalidComponent));
    assert_eq!(v.set_version("1..3"), Err(ParseError::InvalidComponent));
    assert_eq!(v.set_version("-1.2.3"), Err(ParseError::InvalidComponent));
}

#[test]
fn parse_rejects_component_beyond_u64() {
    let mut v = SemanticVersion::new();
    assert_eq!(
        v.set_version("18446744073709551616.0.0"),
        Err(ParseError::InvalidComponent)
    );
    assert!(v.set_version("18446744073709551615.0.0").is_ok());
    assert_eq!(v.render(), "18446744073709551615.0.0");
}

#[test]
fn parse_accepts_leading_zeros_without_rendering_them() {
    let mut v = SemanticVersion::new();
    assert!(v.set_version("1.02.3").is_ok());
    assert_eq!(v.render(), "1.2.3");
}

#[test]
fn failed_parse_leaves_version_unchanged() {
    let mut v = SemanticVersion::new();
    assert!(v.set_version("4.5.6").is_ok());
    assert!(v.set_version("nonsense").is_err());
    assert_eq!(v.render(), "4.5.6");
}

#[test]
fn bump_patch_increments_patch_only() {
    let mut v = SemanticVersion { major: 1, minor: 2, patch: 3 };
    v.bump(BumpLevel::Patch);
    assert_eq!(v, SemanticVersion { major: 1, minor: 2, patch: 4 });
}

#[test]
fn bump_minor_resets_patch() {
    let mut v = SemanticVersion { major: 1, minor: 2, patch: 3 };
    v.bump(BumpLevel::Minor);
    assert_eq!(v, SemanticVersion { major: 1, minor: 3, patch: 0 });
    assert_eq!(v.patch, 0);
}

#[test]
fn bump_major_resets_minor_and_patch() {
    let mut v = SemanticVersion { major: 1, minor: 2, patch: 3 };
    v.bump(BumpLevel::Major);
    assert_eq!(v, SemanticVersion { major: 2, minor: 0, patch: 0 });
}

#[test]
fn bump_none_is_a_no_op() {
    let mut v = SemanticVersion { major: 1, minor: 2, patch: 3 };
    let before = v;
    v.bump(BumpLevel::NoBump);
    assert_eq!(v, before);
}
