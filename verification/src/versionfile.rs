//! Format dispatch over parsed manifest documents: a JSON manifest treats its
//! key as one field of a flat map, a structured-table manifest splits its key
//! on `'.'` into a path; both read and rewrite the version field through the
//! same document traversal.

use vstd::prelude::*;
use vstd::string::StringExecFns;
use crate::config::{ProjectFile, ProjectType};
use crate::document::{locate, read, spec_read, spec_write_err, written_rel, LookupError, Node};
use crate::semver::{spec_render, SemanticVersion};
use crate::text::{split_dot, split_on_dots};

verus! {

/// The two mechanisms a manifest can be edited with.
#[derive(Debug, PartialEq, Eq, Clone, Copy, Structural)]
pub enum EditorKind {
    PathDocument,
    LineEditor,
}

/// Which mechanism edits a manifest of the given format: structured formats
/// go through the path-addressed document traversal, the free-text format
/// through the pattern-based line editor.
pub fn editor_kind(project_type: ProjectType) -> (r: EditorKind)
    ensures
        r == (if project_type == ProjectType::FreeText {
            EditorKind::LineEditor
        } else {
            EditorKind::PathDocument
        }),
{
    match project_type {
        ProjectType::FreeText => EditorKind::LineEditor,
        ProjectType::Json => EditorKind::PathDocument,
        ProjectType::Toml => EditorKind::PathDocument,
    }
}

/// The views of a path's elements.
pub open spec fn path_views(path: Seq<String>) -> Seq<Seq<char>> {
    Seq::new(path.len(), |i: int| path[i]@)
}

/// A manifest document holding a version field at a known path.
pub trait VersionFile: Sized {
    /// The parsed document held.
    spec fn doc(&self) -> Node;

    /// The path addressing the version field.
    spec fn path(&self) -> Seq<String>;

    /// Read the version string the path addresses.
    fn read_version(&self) -> (r: Result<String, LookupError>)
        ensures
            match r {
                Ok(s) => spec_read(self.doc(), self.path(), 0) == Ok::<Seq<char>, LookupError>(s@),
                Err(e) => spec_read(self.doc(), self.path(), 0) == Err::<Seq<char>, LookupError>(
                    e,
                ),
            },
    ;

    /// Rewrite the version field to the rendering of `semver`; on a path
    /// that does not resolve, report why and leave the document unchanged.
    fn update_project(&mut self, semver: &SemanticVersion) -> (r: Result<(), LookupError>)
        ensures
            final(self).path() == old(self).path(),
            match r {
                Ok(()) => spec_write_err(old(self).doc(), old(self).path(), 0) is None
                    && written_rel(
                    old(self).doc(),
                    final(self).doc(),
                    old(self).path(),
                    0,
                    spec_render(*semver),
                ),
                Err(e) => spec_write_err(old(self).doc(), old(self).path(), 0) == Some(e)
                    && final(self).doc() == old(self).doc(),
            },
    ;
}

/// A flat JSON manifest: the configured key names one field of the top-level
/// map.
pub struct Json {
    pub doc: Node,
    pub config: ProjectFile,
    pub path_elems: Vec<String>,
}

/// A structured-table manifest: the configured key, split on `'.'`, walks
/// tables and arrays down to the version field.
pub struct Toml {
    pub doc: Node,
    pub config: ProjectFile,
    pub path_elems: Vec<String>,
}

impl Json {
    /// Wrap an already-parsed document; the whole key is one field name.
    pub fn new(doc: Node, config: &ProjectFile) -> (r: Self)
        ensures
            r.doc() == doc,
            r.path().len() == 1,
            r.path()[0]@ == config.key@,
            r.config.key@ == config.key@,
            r.config.path@ == config.path@,
            r.config.project_type == config.project_type,
    {
        let key = String::from_str(config.key.as_str());
        let mut path_elems: Vec<String> = Vec::new();
        path_elems.push(key);
        Json { doc, config: config.clone(), path_elems }
    }
}

impl Toml {
    /// Wrap an already-parsed document; the key splits on `'.'` into the
    /// path of the version field.
    pub fn new(doc: Node, config: &ProjectFile) -> (r: Self)
        ensures
            r.doc() == doc,
            path_views(r.path()) == split_dot(config.key@),
            r.config.key@ == config.key@,
            r.config.path@ == config.path@,
            r.config.project_type == config.project_type,
    {
        let path_elems = split_on_dots(config.key.as_str());
        let r = Toml { doc, config: config.clone(), path_elems };
        proof {
            assert(path_views(r.path_elems@) =~= r.path_elems.deep_view());
        }
        r
    }
}

/// Rewrite the version field of `doc` at `path` to the rendering of
/// `semver`, probing first so that a failing path leaves the document
/// untouched.
fn update_doc(doc: &mut Node, path: &Vec<String>, semver: &SemanticVersion) -> (r: Result<
    (),
    LookupError,
>)
    ensures
        match r {
            Ok(()) => spec_write_err(*old(doc), path@, 0) is None && written_rel(
                *old(doc),
                *final(doc),
                path@,
                0,
                spec_render(*semver),
            ),
            Err(e) => spec_write_err(*old(doc), path@, 0) == Some(e) && *final(doc) == *old(doc),
        },
{
    if let Some(e) = locate(doc, path, 0) {
        return Err(e);
    }
    let rendered = semver.render();
    let mut taken = Node::Scalar(String::new());
    core::mem::swap(&mut taken, doc);
    match crate::document::write(taken, path, 0, rendered.as_str()) {
        Ok(new_doc) => {
            *doc = new_doc;
            Ok(())
        },
        Err(_) => {
            proof {
                assert(false);
            }
            Err(LookupError::MissingField)
        },
    }
}

impl VersionFile for Json {
    open spec fn doc(&self) -> Node {
        self.doc
    }

    open spec fn path(&self) -> Seq<String> {
        self.path_elems@
    }

    fn read_version(&self) -> (r: Result<String, LookupError>) {
        read(&self.doc, &self.path_elems, 0)
    }

    fn update_project(&mut self, semver: &SemanticVersion) -> (r: Result<(), LookupError>) {
        update_doc(&mut self.doc, &self.path_elems, semver)
    }
}

impl VersionFile for Toml {
    open spec fn doc(&self) -> Node {
        self.doc
    }

    open spec fn path(&self) -> Seq<String> {
        self.path_elems@
    }

    fn read_version(&self) -> (r: Result<String, LookupError>) {
        read(&self.doc, &self.path_elems, 0)
    }

    fn update_project(&mut self, semver: &SemanticVersion) -> (r: Result<(), LookupError>) {
        update_doc(&mut self.doc, &self.path_elems, semver)
    }
}

/// A manifest of either configured format, ready for reading and rewriting.
pub enum VersionDocument {
    Json(Json),
    Toml(Toml),
}

impl VersionFile for VersionDocument {
    open spec fn doc(&self) -> Node {
        match self {
            VersionDocument::Json(j) => j.doc(),
            VersionDocument::Toml(t) => t.doc(),
        }
    }

    open spec fn path(&self) -> Seq<String> {
        match self {
            VersionDocument::Json(j) => j.path(),
            VersionDocument::Toml(t) => t.path(),
        }
    }

    fn read_version(&self) -> (r: Result<String, LookupError>) {
        match self {
            VersionDocument::Json(j) => j.read_version(),
            VersionDocument::Toml(t) => t.read_version(),
        }
    }

    fn update_project(&mut self, semver: &SemanticVersion) -> (r: Result<(), LookupError>) {
        match self {
            VersionDocument::Json(j) => j.update_project(semver),
            VersionDocument::Toml(t) => t.update_project(semver),
        }
    }
}

/// Dispatch on the configured structured format: the one place that decides
/// how a manifest's key is interpreted. The free-text format has no parsed
/// document and goes through the line editor instead (see `editor_kind`).
pub fn load_versionfile(doc: Node, config: &ProjectFile) -> (r: VersionDocument)
    requires
        config.project_type != ProjectType::FreeText,
    ensures
        r.doc() == doc,
        config.project_type == ProjectType::Json ==> r is Json && r.path().len() == 1
            && r.path()[0]@ == config.key@,
        config.project_type == ProjectType::Toml ==> r is Toml && path_views(r.path())
            == split_dot(config.key@),
{
    match config.project_type {
        ProjectType::Json => VersionDocument::Json(Json::new(doc, config)),
        ProjectType::Toml => VersionDocument::Toml(Toml::new(doc, config)),
        ProjectType::FreeText => {
            proof {
                assert(false);
            }
            VersionDocument::Json(Json::new(doc, config))
        },
    }
}

} // verus!
