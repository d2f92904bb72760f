//! Line-based project files: formats handled without a structured parser.
//! A fixed pattern per format finds the version line and captures the
//! current version; rewriting replaces that one line with a freshly rendered
//! one.

use vstd::prelude::*;
use vstd::string::StringExecFns;
use crate::lines::{
    find_version_line, joined_with_newlines, render_content, replace_line, spec_find,
};
use crate::logger::Logger;
use crate::semver::{spec_render, SemanticVersion};
use crate::text::str_ends_with;

verus! {

/// The project kinds the line-based reader recognises by file name.
#[derive(Debug, PartialEq, Eq, Clone, Copy, Structural)]
pub enum ProjectType {
    Cargo,
    NodeJs,
    PomXml,
    Unknown,
}

/// The project kind a manifest file name announces; the first recognised
/// suffix wins.
pub open spec fn spec_classify_filename(f: Seq<char>) -> ProjectType {
    if "Cargo.toml"@.is_suffix_of(f) {
        ProjectType::Cargo
    } else if "package.json"@.is_suffix_of(f) {
        ProjectType::NodeJs
    } else if "pom.xml"@.is_suffix_of(f) {
        ProjectType::PomXml
    } else {
        ProjectType::Unknown
    }
}

/// Classify a directory entry's file name into a project kind.
pub fn classify_project_filename(filename: &str) -> (r: ProjectType)
    ensures
        r == spec_classify_filename(filename@),
{
    if str_ends_with(filename, "Cargo.toml") {
        ProjectType::Cargo
    } else if str_ends_with(filename, "package.json") {
        ProjectType::NodeJs
    } else if str_ends_with(filename, "pom.xml") {
        ProjectType::PomXml
    } else {
        ProjectType::Unknown
    }
}

/// The pattern that finds and captures the version on a Cargo manifest line.
pub open spec fn cargo_version_pattern() -> Seq<char> {
    r"version\s*=\s*.([0-9]{1,}\.[0-9]{1,}\.[0-9]{1,}).*"@
}

/// The pattern that finds and captures the version on a POM manifest line.
pub open spec fn pom_version_pattern() -> Seq<char> {
    r"<version>([0-9]{1,}\.[0-9]{1,}\.[0-9]{1,})</version>"@
}

/// The line a Cargo project writes in place of its version line: TOML
/// key/value syntax, so the rewritten line is again a version assignment.
pub open spec fn cargo_project_line(v: SemanticVersion) -> Seq<char> {
    "version = \""@ + spec_render(v) + "\""@
}

/// The line a POM project writes in place of its version line.
pub open spec fn pom_project_line(v: SemanticVersion) -> Seq<char> {
    "  <version>"@ + spec_render(v) + "</version>"@
}

/// A Cargo project tracked by its manifest file, the line its version was
/// found on, and that version.
pub struct CargoProject {
    pub project_file: String,
    pub found_line: usize,
    pub version_string: String,
    pub logger: Logger,
}

/// A Maven project tracked the same way.
pub struct PomProject {
    pub project_file: String,
    pub found_line: usize,
    pub version_string: String,
    pub logger: Logger,
}

impl CargoProject {
    /// A fresh project handle: no version line found yet.
    pub fn new(project_file: String, logger: Logger) -> (r: CargoProject)
        ensures
            r.project_file == project_file,
            r.found_line == usize::MAX,
            r.version_string@ == Seq::<char>::empty(),
            r.logger == logger,
    {
        CargoProject { project_file, found_line: usize::MAX, version_string: String::new(), logger }
    }

    /// Scan the manifest's lines for the version pattern; remember the first
    /// matching line and the captured version.
    pub fn read_project_version(&mut self, lines: &Vec<String>) -> (found: bool)
        ensures
            final(self).project_file == old(self).project_file,
            final(self).logger == old(self).logger,
            match spec_find(cargo_version_pattern(), lines@) {
                Ok((i, v)) => found && final(self).found_line as int == i
                    && final(self).version_string@ == v,
                Err(_) => !found && *final(self) == *old(self),
            },
    {
        match find_version_line(lines, r"version\s*=\s*.([0-9]{1,}\.[0-9]{1,}\.[0-9]{1,}).*") {
            Ok((i, v)) => {
                self.found_line = i;
                self.version_string = v;
                true
            },
            Err(_) => false,
        }
    }

    /// Render the line that replaces the version line.
    pub fn build_project_line(&self, next_version: &SemanticVersion) -> (r: String)
        ensures
            r@ == cargo_project_line(*next_version),
    {
        let mut s = String::from_str("version = \"");
        let rendered = next_version.render();
        s.append(rendered.as_str());
        s.append("\"");
        proof {
            assert(s@ =~= cargo_project_line(*next_version));
        }
        s
    }

    /// The manifest's new content: the found line replaced by the freshly
    /// rendered one (or, if no line was ever found, the lines unchanged),
    /// every line followed by a newline.
    pub fn updated_content(&self, lines: &Vec<String>, next_version: &SemanticVersion) -> (r:
        String)
        ensures
            (self.found_line as int) < lines@.len() ==> r@ == joined_with_newlines(
                lines.deep_view().update(
                    self.found_line as int,
                    cargo_project_line(*next_version),
                ),
            ),
            (self.found_line as int) >= lines@.len() ==> r@ == joined_with_newlines(
                lines.deep_view(),
            ),
    {
        if self.found_line < lines.len() {
            let new_line = self.build_project_line(next_version);
            let ghost line_view = new_line@;
            let new_lines = replace_line(lines, self.found_line, new_line);
            proof {
                assert(new_lines.deep_view() =~~= lines.deep_view().update(
                    self.found_line as int,
                    line_view,
                ));
            }
            render_content(&new_lines)
        } else {
            render_content(lines)
        }
    }

    /// The manifest file this project was built from.
    pub fn get_project_file(&self) -> (r: &String)
        ensures
            r@ == self.project_file@,
    {
        &self.project_file
    }

    /// The logger handed in at construction.
    pub fn get_logger(&self) -> (r: &Logger)
        ensures
            *r == self.logger,
    {
        &self.logger
    }

    /// Remember which line the version was found on.
    pub fn set_found_line(&mut self, line: usize)
        ensures
            *final(self) == (CargoProject { found_line: line, ..*old(self) }),
    {
        self.found_line = line;
    }

    /// Remember the captured version string.
    pub fn set_version_string(&mut self, version_string: String)
        ensures
            *final(self) == (CargoProject { version_string, ..*old(self) }),
    {
        self.version_string = version_string;
    }

    /// The line the version was found on.
    pub fn get_found_line(&self) -> (r: usize)
        ensures
            r == self.found_line,
    {
        self.found_line
    }

    /// The captured version string.
    pub fn get_version_string(&self) -> (r: &str)
        ensures
            r@ == self.version_string@,
    {
        self.version_string.as_str()
    }

    /// The kind of project this handle reads.
    pub fn get_project_type(&self) -> (r: ProjectType)
        ensures
            r == ProjectType::Cargo,
    {
        ProjectType::Cargo
    }
}

impl PomProject {
    /// A fresh project handle: no version line found yet.
    pub fn new(project_file: String, logger: Logger) -> (r: PomProject)
        ensures
            r.project_file == project_file,
            r.found_line == usize::MAX,
            r.version_string@ == Seq::<char>::empty(),
            r.logger == logger,
    {
        PomProject { project_file, found_line: usize::MAX, version_string: String::new(), logger }
    }

    /// Scan the manifest's lines for the version pattern; remember the first
    /// matching line and the captured version.
    pub fn read_project_version(&mut self, lines: &Vec<String>) -> (found: bool)
        ensures
            final(self).project_file == old(self).project_file,
            final(self).logger == old(self).logger,
            match spec_find(pom_version_pattern(), lines@) {
                Ok((i, v)) => found && final(self).found_line as int == i
                    && final(self).version_string@ == v,
                Err(_) => !found && *final(self) == *old(self),
            },
    {
        match find_version_line(lines, r"<version>([0-9]{1,}\.[0-9]{1,}\.[0-9]{1,})</version>") {
            Ok((i, v)) => {
                self.found_line = i;
                self.version_string = v;
                true
            },
            Err(_) => false,
        }
    }

    /// Render the line that replaces the version line.
    pub fn build_project_line(&self, next_version: &SemanticVersion) -> (r: String)
        ensures
            r@ == pom_project_line(*next_version),
    {
        let mut s = String::from_str("  <version>");
        let rendered = next_version.render();
        s.append(rendered.as_str());
        s.append("</version>");
        proof {
            assert(s@ =~= pom_project_line(*next_version));
        }
        s
    }

    /// The manifest's new content: the found line replaced by the freshly
    /// rendered one (or, if no line was ever found, the lines unchanged),
    /// every line followed by a newline.
    pub fn updated_content(&self, lines: &Vec<String>, next_version: &SemanticVersion) -> (r:
        String)
        ensures
            (self.found_line as int) < lines@.len() ==> r@ == joined_with_newlines(
                lines.deep_view().update(self.found_line as int, pom_project_line(*next_version)),
            ),
            (self.found_line as int) >= lines@.len() ==> r@ == joined_with_newlines(
                lines.deep_view(),
            ),
    {
        if self.found_line < lines.len() {
            let new_line = self.build_project_line(next_version);
            let ghost line_view = new_line@;
            let new_lines = replace_line(lines, self.found_line, new_line);
            proof {
                assert(new_lines.deep_view() =~~= lines.deep_view().update(
                    self.found_line as int,
                    line_view,
                ));
            }
            render_content(&new_lines)
        } else {
            render_content(lines)
        }
    }

    /// The manifest file this project was built from.
    pub fn get_project_file(&self) -> (r: &String)
        ensures
            r@ == self.project_file@,
    {
        &self.project_file
    }

    /// The logger handed in at construction.
    pub fn get_logger(&self) -> (r: &Logger)
        ensures
            *r == self.logger,
    {
        &self.logger
    }

    /// Remember which line the version was found on.
    pub fn set_found_line(&mut self, line: usize)
        ensures
            *final(self) == (PomProject { found_line: line, ..*old(self) }),
    {
        self.found_line = line;
    }

    /// Remember the captured version string.
    pub fn set_version_string(&mut self, version_string: String)
        ensures
            *final(self) == (PomProject { version_string, ..*old(self) }),
    {
        self.version_string = version_string;
    }

    /// The line the version was found on.
    pub fn get_found_line(&self) -> (r: usize)
        ensures
            r == self.found_line,
    {
        self.found_line
    }

    /// The captured version string.
    pub fn get_version_string(&self) -> (r: &str)
        ensures
            r@ == self.version_string@,
    {
        self.version_string.as_str()
    }

    /// The kind of project this handle reads.
    pub fn get_project_type(&self) -> (r: ProjectType)
        ensures
            r == ProjectType::PomXml,
    {
        ProjectType::PomXml
    }
}

} // verus!
