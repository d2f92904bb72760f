use semrel::bump::{calc_bumplevel, BumpLevel, Commit};
use semrel::orchestrate::{plan_release, ReleaseError, ReleasePlan};
use semrel::semver::ParseError;

fn commit(summary: &str) -> Commit {
    Commit { summary: summary.to_string(), body: None }
}

fn commit_with_body(summary: &str, body: &str) -> Commit {
    Commit { summary: summary.to_string(), body: Some(body.to_string()) }
}

fn tokens(ts: &[&str]) -> Vec<String> {
    ts.iter().map(|t| t.to_string()).collect()
}

#[test]
fn bumplevel_comparison() {
    assert!(BumpLevel::NoBump < BumpLevel::Patch);
    assert!(BumpLevel::Patch < BumpLevel::Minor);
    assert!(BumpLevel::Minor < BumpLevel::Major);
}

#[test]
fn classify_takes_the_maximum_over_commits() {
    let commits = vec![commit("fix: a"), commit("feat: b"), commit("chore: c")];
    let level = calc_bumplevel(&commits, &tokens(&["fix"]), &tokens(&["feat"]));
    assert_eq!(level, BumpLevel::Minor);
}

#[test]
fn classify_breaking_change_overrides_tokens() {
    let commits = vec![commit("fix: a"), commit_with_body("fix: b", "BREAKING CHANGE: x")];
    let level = calc_bumplevel(&commits, &tokens(&["fix"]), &tokens(&["feat"]));
    assert_eq!(level, BumpLevel::Major);
}

#[test]
fn classify_patch_token_wins_over_minor_token() {
    let commits = vec![commit("fix: a")];
    let level = calc_bumplevel(&commits, &tokens(&["fix"]), &tokens(&["fix"]));
    assert_eq!(level, BumpLevel::Patch);
}

#[test]
fn classify_unmatched_commits_resolve_to_none() {
    let commits = vec![commit("docs: a"), commit("chore: b")];
    let level = calc_bumplevel(&commits, &tokens(&["fix"]), &tokens(&["feat"]));
    assert_eq!(level, BumpLevel::NoBump);
}

#[test]
fn plan_release_minor_scenario() {
    let commits = vec![commit("fix: a"), commit("feat: b")];
    let plan = plan_release("1.2.3", &commits, &tokens(&["fix"]), &tokens(&["feat"])).unwrap();
    assert_eq!(plan.level, BumpLevel::Minor);
    assert_eq!(plan.version.render(), "1.3.0");
    assert!(plan.changed);
}

#[test]
fn plan_release_breaking_scenario() {
    let commits = vec![commit_with_body("fix: a", "BREAKING CHANGE: x")];
    let plan = plan_release("1.2.3", &commits, &tokens(&["fix"]), &tokens(&["feat"])).unwrap();
    assert_eq!(plan.level, BumpLevel::Major);
    assert_eq!(plan.version.render(), "2.0.0");
    assert!(plan.changed);
}

#[test]
fn plan_release_without_relevant_commits_changes_nothing() {
    let commits = vec![commit("docs: a")];
    let plan = plan_release("1.2.3", &commits, &tokens(&["fix"]), &tokens(&["feat"])).unwrap();
    assert_eq!(
        plan,
        ReleasePlan {
            level: BumpLevel::NoBump,
            version: semrel::semver::SemanticVersion { major: 1, minor: 2, patch: 3 },
            changed: false,
        }
    );
}

#[test]
fn plan_release_reports_a_malformed_version() {
    let commits = vec![commit("fix: a")];
    let r = plan_release("1.2", &commits, &tokens(&["fix"]), &tokens(&["feat"]));
    assert_eq!(r, Err(ReleaseError::Parse(ParseError::TooFewComponents)));
}

#[test]
fn plan_release_reports_an_overflowing_bump() {
    let commits = vec![commit("fix: a")];
    let r = plan_release(
        "1.2.18446744073709551615",
        &commits,
        &tokens(&["fix"]),
        &tokens(&["feat"]),
    );
    assert_eq!(r, Err(ReleaseError::VersionOverflow));
}
