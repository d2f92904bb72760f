//! Semantic-release core: classifies conventional commits into a bump level,
//! advances a three-component semantic version, and rewrites the version field
//! of project manifest files, either through a path-addressed document tree or
//! through a pattern-based line editor.

pub mod bump;
pub mod config;
pub mod document;
pub mod lines;
pub mod logger;
pub mod numerals;
pub mod orchestrate;
pub mod project;
pub mod semver;
pub mod text;
pub mod versionfile;
