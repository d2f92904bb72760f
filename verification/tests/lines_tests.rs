use semrel::lines::{find_version_line, render_content, replace_line, LineError};
use semrel::logger::{LogLevel, Logger};
use semrel::orchestrate::{release_commit_message, release_tag_name};
use semrel::project::{
    classify_project_filename, CargoProject, PomProject, ProjectType,
};
use semrel::semver::SemanticVersion;

fn lines(ls: &[&str]) -> Vec<String> {
    ls.iter().map(|l| l.to_string()).collect()
}

#[test]
fn find_returns_the_first_match_and_its_capture() {
    let ls = lines(&["name: x", "version: \"1.0.0\"", "other: y"]);
    let pattern = "version: \"([0-9]+\\.[0-9]+\\.[0-9]+)\"";
    assert_eq!(find_version_line(&ls, pattern), Ok((1, "1.0.0".to_string())));
}

#[test]
fn find_reports_no_match() {
    let ls = lines(&["name: x", "other: y"]);
    let pattern = "version: \"([0-9]+\\.[0-9]+\\.[0-9]+)\"";
    assert_eq!(find_version_line(&ls, pattern), Err(LineError::NoMatch));
}

#[test]
fn find_reports_a_match_without_a_capture_group() {
    let ls = lines(&["name: x", "version: \"1.0.0\""]);
    assert_eq!(
        find_version_line(&ls, "version"),
        Err(LineError::CaptureMissing)
    );
}

#[test]
fn replace_changes_exactly_one_line_and_content_ends_with_newline() {
    let ls = lines(&["name: x", "version: \"1.0.0\"", "other: y"]);
    let replaced = replace_line(&ls, 1, "version: \"1.0.1\"".to_string());
    assert_eq!(
        replaced,
        lines(&["name: x", "version: \"1.0.1\"", "other: y"])
    );
    let content = render_content(&replaced);
    assert_eq!(content, "name: x\nversion: \"1.0.1\"\nother: y\n");
    assert!(content.ends_with('\n'));
}

#[test]
fn cargo_project_finds_and_rewrites_its_version_line() {
    let logger = Logger::new(LogLevel::INFO);
    let mut project = CargoProject::new("Cargo.toml".to_string(), logger);
    let ls = lines(&["[package]", "name = \"demo\"", "version = \"0.1.0\""]);
    assert!(project.read_project_version(&ls));
    assert_eq!(project.get_found_line(), 2);
    assert_eq!(project.get_version_string(), "0.1.0");
    let next = SemanticVersion { major: 0, minor: 2, patch: 0 };
    let content = project.updated_content(&ls, &next);
    assert_eq!(content, "[package]\nname = \"demo\"\nversion = \"0.2.0\"\n");
}

#[test]
fn cargo_rewritten_line_is_found_again() {
    let logger = Logger::new(LogLevel::INFO);
    let mut project = CargoProject::new("Cargo.toml".to_string(), logger);
    let ls = lines(&["[package]", "version = \"1.2.3\""]);
    assert!(project.read_project_version(&ls));
    assert_eq!(project.get_version_string(), "1.2.3");
    let next = SemanticVersion { major: 1, minor: 2, patch: 4 };
    let content = project.updated_content(&ls, &next);
    assert_eq!(content, "[package]\nversion = \"1.2.4\"\n");
    let new_lines = lines(&["[package]", "version = \"1.2.4\""]);
    let mut again = CargoProject::new("Cargo.toml".to_string(), logger);
    assert!(again.read_project_version(&new_lines));
    assert_eq!(again.get_version_string(), "1.2.4");
}

#[test]
fn cargo_pattern_captures_multi_digit_components_whole() {
    let logger = Logger::new(LogLevel::INFO);
    let mut project = CargoProject::new("Cargo.toml".to_string(), logger);
    let ls = lines(&["version = \"1.0.10\""]);
    assert!(project.read_project_version(&ls));
    assert_eq!(project.get_version_string(), "1.0.10");
}

#[test]
fn pom_pattern_captures_any_three_component_version() {
    let logger = Logger::new(LogLevel::INFO);
    let mut project = PomProject::new("pom.xml".to_string(), logger);
    let ls = lines(&["  <version>10.20.30</version>"]);
    assert!(project.read_project_version(&ls));
    assert_eq!(project.get_found_line(), 0);
    assert_eq!(project.get_version_string(), "10.20.30");
}

#[test]
fn cargo_project_without_a_version_line_reports_none() {
    let logger = Logger::new(LogLevel::INFO);
    let mut project = CargoProject::new("Cargo.toml".to_string(), logger);
    let ls = lines(&["[package]", "name = \"demo\""]);
    assert!(!project.read_project_version(&ls));
    assert_eq!(project.get_found_line(), usize::MAX);
    let next = SemanticVersion { major: 0, minor: 2, patch: 0 };
    assert_eq!(project.updated_content(&ls, &next), "[package]\nname = \"demo\"\n");
}

#[test]
fn pom_project_finds_and_rewrites_its_version_line() {
    let logger = Logger::new(LogLevel::DEBUG);
    let mut project = PomProject::new("pom.xml".to_string(), logger);
    let ls = lines(&["<project>", "<version>1.2.0</version>", "</project>"]);
    assert!(project.read_project_version(&ls));
    assert_eq!(project.get_found_line(), 1);
    assert_eq!(project.get_version_string(), "1.2.0");
    assert_eq!(project.get_project_type(), ProjectType::PomXml);
    let next = SemanticVersion { major: 1, minor: 3, patch: 0 };
    let content = project.updated_content(&ls, &next);
    assert_eq!(content, "<project>\n  <version>1.3.0</version>\n</project>\n");
}

#[test]
fn project_kind_follows_the_file_name() {
    assert_eq!(classify_project_filename("Cargo.toml"), ProjectType::Cargo);
    assert_eq!(classify_project_filename("sub/Cargo.toml"), ProjectType::Cargo);
    assert_eq!(classify_project_filename("package.json"), ProjectType::NodeJs);
    assert_eq!(classify_project_filename("pom.xml"), ProjectType::PomXml);
    assert_eq!(classify_project_filename("README.md"), ProjectType::Unknown);
}

#[test]
fn logger_threshold_filters_debug_messages() {
    let info_logger = Logger::new(LogLevel::INFO);
    assert!(!info_logger.logs_at(LogLevel::DEBUG));
    assert!(info_logger.logs_at(LogLevel::INFO));
    let debug_logger = Logger::new(LogLevel::DEBUG);
    assert!(debug_logger.logs_at(LogLevel::DEBUG));
    assert!(debug_logger.logs_at(LogLevel::INFO));
}

#[test]
fn release_strings_carry_the_rendered_version() {
    let v = SemanticVersion { major: 1, minor: 3, patch: 0 };
    assert_eq!(release_tag_name("v", &v), "v1.3.0");
    assert_eq!(
        release_commit_message(&v),
        "[Semantic release]: Release 1.3.0"
    );
}

#[test]
fn project_setters_and_getters_round_trip() {
    let logger = Logger::new(LogLevel::INFO);
    let mut project = CargoProject::new("Cargo.toml".to_string(), logger);
    assert_eq!(project.get_project_file(), "Cargo.toml");
    assert_eq!(project.get_project_type(), ProjectType::Cargo);
    assert!(!project.get_logger().logs_at(LogLevel::DEBUG));
    project.set_found_line(7);
    project.set_version_string("2.0.0".to_string());
    assert_eq!(project.get_found_line(), 7);
    assert_eq!(project.get_version_string(), "2.0.0");
}
