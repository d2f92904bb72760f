use semrel::config::{ProjectFile, ProjectType};
use semrel::document::{read, LookupError, Node};
use semrel::semver::SemanticVersion;
use semrel::text::split_on_dots;
use semrel::versionfile::{editor_kind, load_versionfile, EditorKind, VersionFile};

fn scalar(s: &str) -> Node {
    Node::Scalar(s.to_string())
}

fn table(entries: Vec<(&str, Node)>) -> Node {
    Node::Table(entries.into_iter().map(|(k, n)| (k.to_string(), n)).collect())
}

fn nested_table_doc() -> Node {
    table(vec![
        ("a", table(vec![("b", table(vec![("c", scalar("1.0.0")), ("d", scalar("x"))]))])),
        ("e", scalar("y")),
    ])
}

fn array_doc() -> Node {
    table(vec![("a", Node::Array(vec![table(vec![("v", scalar("1.0.0"))])]))])
}

#[test]
fn read_nested_table_path() {
    let doc = nested_table_doc();
    let path = split_on_dots("a.b.c");
    assert_eq!(read(&doc, &path, 0), Ok("1.0.0".to_string()));
}

#[test]
fn write_nested_table_path_changes_only_the_target() {
    let doc = nested_table_doc();
    let path = split_on_dots("a.b.c");
    let new_doc = semrel::document::write(doc, &path, 0, "1.0.1").unwrap();
    assert_eq!(read(&new_doc, &path, 0), Ok("1.0.1".to_string()));
    assert_eq!(read(&new_doc, &split_on_dots("a.b.d"), 0), Ok("x".to_string()));
    assert_eq!(read(&new_doc, &split_on_dots("e"), 0), Ok("y".to_string()));
}

#[test]
fn read_and_write_through_an_array_index() {
    let doc = array_doc();
    let path = split_on_dots("a.0.v");
    assert_eq!(read(&doc, &path, 0), Ok("1.0.0".to_string()));
    let new_doc = semrel::document::write(doc, &path, 0, "1.0.1").unwrap();
    assert_eq!(read(&new_doc, &path, 0), Ok("1.0.1".to_string()));
}

#[test]
fn out_of_bounds_index_is_a_lookup_failure() {
    let doc = array_doc();
    let path = split_on_dots("a.5.v");
    assert_eq!(read(&doc, &path, 0), Err(LookupError::IndexOutOfBounds));
    let doc = array_doc();
    match semrel::document::write(doc, &path, 0, "1.0.1") {
        Err(e) => assert_eq!(e, LookupError::IndexOutOfBounds),
        Ok(_) => panic!("writing past the array end should fail"),
    }
}

#[test]
fn non_numeric_index_against_an_array_fails() {
    let doc = array_doc();
    assert_eq!(
        read(&doc, &split_on_dots("a.x.v"), 0),
        Err(LookupError::InvalidIndex)
    );
}

#[test]
fn missing_field_fails() {
    let doc = nested_table_doc();
    assert_eq!(
        read(&doc, &split_on_dots("a.b.z"), 0),
        Err(LookupError::MissingField)
    );
}

#[test]
fn path_past_a_leaf_fails() {
    let doc = nested_table_doc();
    assert_eq!(
        read(&doc, &split_on_dots("a.b.c.z"), 0),
        Err(LookupError::PastLeaf)
    );
}

#[test]
fn read_of_a_non_scalar_target_fails() {
    let doc = nested_table_doc();
    assert_eq!(read(&doc, &split_on_dots("a.b"), 0), Err(LookupError::NotAString));
}

#[test]
fn toml_manifest_reads_and_updates_through_its_dotted_key() {
    let config = ProjectFile {
        path: "Cargo.toml".to_string(),
        key: "package.version".to_string(),
        project_type: ProjectType::Toml,
    };
    let doc = table(vec![(
        "package",
        table(vec![("name", scalar("demo")), ("version", scalar("1.2.3"))]),
    )]);
    let mut vf = load_versionfile(doc, &config);
    assert_eq!(vf.read_version(), Ok("1.2.3".to_string()));
    let next = SemanticVersion { major: 1, minor: 3, patch: 0 };
    assert_eq!(vf.update_project(&next), Ok(()));
    assert_eq!(vf.read_version(), Ok("1.3.0".to_string()));
}

#[test]
fn json_manifest_treats_its_key_as_one_field_name() {
    let config = ProjectFile {
        path: "package.json".to_string(),
        key: "a.b".to_string(),
        project_type: ProjectType::Json,
    };
    let doc = table(vec![("a.b", scalar("0.1.0")), ("a", table(vec![("b", scalar("9.9.9"))]))]);
    let mut vf = load_versionfile(doc, &config);
    assert_eq!(vf.read_version(), Ok("0.1.0".to_string()));
    let next = SemanticVersion { major: 0, minor: 2, patch: 0 };
    assert_eq!(vf.update_project(&next), Ok(()));
    assert_eq!(vf.read_version(), Ok("0.2.0".to_string()));
}

#[test]
fn update_on_an_unresolvable_key_reports_and_keeps_the_document() {
    let config = ProjectFile {
        path: "Cargo.toml".to_string(),
        key: "package.version".to_string(),
        project_type: ProjectType::Toml,
    };
    let doc = table(vec![("package", table(vec![("name", scalar("demo"))]))]);
    let mut vf = load_versionfile(doc, &config);
    let next = SemanticVersion { major: 1, minor: 0, patch: 0 };
    assert_eq!(vf.update_project(&next), Err(LookupError::MissingField));
    assert_eq!(vf.read_version(), Err(LookupError::MissingField));
}

#[test]
fn resolve_steps_reports_the_concrete_traversal() {
    let doc = array_doc();
    let path = split_on_dots("a.0.v");
    assert_eq!(
        semrel::document::resolve_steps(&doc, &path, 0),
        Ok(vec![
            semrel::document::PathStep::Field("a".to_string()),
            semrel::document::PathStep::Index(0),
            semrel::document::PathStep::Field("v".to_string()),
        ])
    );
    assert_eq!(
        semrel::document::resolve_steps(&doc, &split_on_dots("a.5.v"), 0),
        Err(LookupError::IndexOutOfBounds)
    );
}

#[test]
fn editor_choice_follows_the_configured_format() {
    assert_eq!(editor_kind(ProjectType::Json), EditorKind::PathDocument);
    assert_eq!(editor_kind(ProjectType::Toml), EditorKind::PathDocument);
    assert_eq!(editor_kind(ProjectType::FreeText), EditorKind::LineEditor);
}
