//! Release planning: one classification of the commits since the last tag,
//! one bump of the version read from the first manifest, and the strings the
//! version-control side needs to commit and tag the release. The same
//! resolved version is then applied to every configured manifest.

use vstd::prelude::*;
use vstd::string::StringExecFns;
use crate::bump::{calc_bumplevel, classify_spec, BumpLevel, Commit};
use crate::semver::{spec_parse_version, spec_render, ParseError, SemanticVersion};

verus! {

/// Why no release plan could be made: the current version string did not
/// parse, or the bumped component would not fit its machine integer.
#[derive(Debug, PartialEq, Eq, Clone, Copy, Structural)]
pub enum ReleaseError {
    Parse(ParseError),
    VersionOverflow,
}

/// A resolved release: the classified severity, the version every manifest
/// converges on, and whether any manifest should change at all.
#[derive(Debug, PartialEq, Eq, Clone, Copy, Structural)]
pub struct ReleasePlan {
    pub level: BumpLevel,
    pub version: SemanticVersion,
    pub changed: bool,
}

/// The version component a bump of `level` increments stays representable.
pub open spec fn bump_fits(v: SemanticVersion, level: BumpLevel) -> bool {
    match level {
        BumpLevel::NoBump => true,
        BumpLevel::Patch => v.patch < u64::MAX,
        BumpLevel::Minor => v.minor < u64::MAX,
        BumpLevel::Major => v.major < u64::MAX,
    }
}

/// The version after one bump of `level`.
pub open spec fn spec_bump(v: SemanticVersion, level: BumpLevel) -> SemanticVersion {
    match level {
        BumpLevel::NoBump => v,
        BumpLevel::Patch => SemanticVersion {
            major: v.major,
            minor: v.minor,
            patch: (v.patch + 1) as u64,
        },
        BumpLevel::Minor => SemanticVersion { major: v.major, minor: (v.minor + 1) as u64, patch: 0 },
        BumpLevel::Major => SemanticVersion { major: (v.major + 1) as u64, minor: 0, patch: 0 },
    }
}

/// Resolve one release: classify the commits, parse the current version read
/// from the first manifest, and bump it once. A release of severity
/// `BumpLevel::NoBump` changes no manifest.
pub fn plan_release(
    current_version: &str,
    commits: &Vec<Commit>,
    patch_tokens: &Vec<String>,
    minor_tokens: &Vec<String>,
) -> (r: Result<ReleasePlan, ReleaseError>)
    requires
        commits@.len() > 0,
    ensures
        ({
            let level = classify_spec(commits@, patch_tokens@, minor_tokens@);
            match r {
                Ok(plan) => {
                    &&& spec_parse_version(current_version@) matches Ok(v) && bump_fits(v, level)
                        && plan.version == spec_bump(v, level)
                    &&& plan.level == level
                    &&& plan.changed == (level != BumpLevel::NoBump)
                },
                Err(ReleaseError::Parse(e)) => spec_parse_version(current_version@)
                    == Err::<SemanticVersion, ParseError>(e),
                Err(ReleaseError::VersionOverflow) => spec_parse_version(current_version@) matches
                    Ok(v) && !bump_fits(v, level),
            }
        }),
{
    let level = calc_bumplevel(commits, patch_tokens, minor_tokens);
    let mut version = SemanticVersion::new();
    match version.set_version(current_version) {
        Ok(()) => {},
        Err(e) => {
            return Err(ReleaseError::Parse(e));
        },
    }
    let fits = match level {
        BumpLevel::NoBump => true,
        BumpLevel::Patch => version.patch < u64::MAX,
        BumpLevel::Minor => version.minor < u64::MAX,
        BumpLevel::Major => version.major < u64::MAX,
    };
    if !fits {
        return Err(ReleaseError::VersionOverflow);
    }
    version.bump(level);
    let changed = match level {
        BumpLevel::NoBump => false,
        _ => true,
    };
    Ok(ReleasePlan { level, version, changed })
}

/// The tag name for a release: the configured prefix followed by the
/// rendered version.
pub fn release_tag_name(tagprefix: &str, version: &SemanticVersion) -> (r: String)
    ensures
        r@ == tagprefix@ + spec_render(*version),
{
    let mut s = String::from_str(tagprefix);
    let rendered = version.render();
    s.append(rendered.as_str());
    s
}

/// The commit message announcing a release of the given version.
pub fn release_commit_message(version: &SemanticVersion) -> (r: String)
    ensures
        r@ == "[Semantic release]: Release "@ + spec_render(*version),
{
    let mut s = String::from_str("[Semantic release]: Release ");
    let rendered = version.render();
    s.append(rendered.as_str());
    s
}

} // verus!
