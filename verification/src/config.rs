//! The configuration values the core consumes: which manifest files to keep
//! in step, where each one's version field lives, and how each file is
//! parsed. Loading and deserializing the configuration file itself is the
//! caller's business; the core receives it already parsed.

use vstd::prelude::*;
use vstd::string::StringExecFns;

verus! {

/// How a manifest file is handled: as a flat JSON map or a structured table
/// document addressed by a dotted path (both through the document traversal),
/// or as free text located by a pattern (through the line editor).
#[derive(Debug, PartialEq, Eq, Clone, Copy, Structural)]
pub enum ProjectType {
    Json,
    Toml,
    FreeText,
}

/// One configured manifest file: its path, its format, and a key — a dotted
/// path into a structured document, or, for the free-text format, left to the
/// format's own fixed pattern.
#[derive(Debug)]
pub struct ProjectFile {
    pub path: String,
    pub key: String,
    pub project_type: ProjectType,
}

impl Clone for ProjectFile {
    /// An equal descriptor with its own copies of the strings.
    fn clone(&self) -> (r: Self)
        ensures
            r.path@ == self.path@,
            r.key@ == self.key@,
            r.project_type == self.project_type,
    {
        ProjectFile {
            path: String::from_str(self.path.as_str()),
            key: String::from_str(self.key.as_str()),
            project_type: self.project_type,
        }
    }
}

/// The whole release configuration: the tag-name prefix, the sub-path the
/// manifests live under, and the manifests in processing order.
#[derive(Debug)]
pub struct Config {
    pub tagprefix: String,
    pub subpath: String,
    pub files: Vec<ProjectFile>,
}

} // verus!
