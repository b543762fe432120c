//! The first detection scheme: a fixed set of project types told apart by
//! one marker file each.

use crate::resolver::Probe;
use vstd::prelude::*;

verus! {

#[derive(Debug, PartialEq, Eq, Structural, Clone, Copy)]
pub enum ProjectType {
    NodeJs,
    Rails,
    Rust,
    Unknown,
}

impl ProjectType {
    /// A `Gemfile` means Rails, else a `package.json` Node.js, else a
    /// `Cargo.lock` Rust.
    pub open spec fn detect_spec(probe: Probe) -> ProjectType {
        if probe.has_path("Gemfile"@) {
            ProjectType::Rails
        } else if probe.has_path("package.json"@) {
            ProjectType::NodeJs
        } else if probe.has_path("Cargo.lock"@) {
            ProjectType::Rust
        } else {
            ProjectType::Unknown
        }
    }

    pub fn detect(probe: &Probe) -> (t: ProjectType)
        ensures
            t == Self::detect_spec(*probe),
    {
        if probe.path_exists("Gemfile") {
            ProjectType::Rails
        } else if probe.path_exists("package.json") {
            ProjectType::NodeJs
        } else if probe.path_exists("Cargo.lock") {
            ProjectType::Rust
        } else {
            ProjectType::Unknown
        }
    }

    /// The line announcing what detection found.
    pub fn detected_message(&self) -> (m: &'static str)
        ensures
            m@ == match *self {
                ProjectType::Rails => "\nRails project detected!\n"@,
                ProjectType::NodeJs => "Node project detected!"@,
                ProjectType::Rust => "Rust project detected!"@,
                ProjectType::Unknown => "\nNo project detected :(\n"@,
            },
    {
        match self {
            ProjectType::Rails => "\nRails project detected!\n",
            ProjectType::NodeJs => "Node project detected!",
            ProjectType::Rust => "Rust project detected!",
            ProjectType::Unknown => "\nNo project detected :(\n",
        }
    }

    /// The type's name as it is shown.
    pub fn to_string(&self) -> (s: String)
        ensures
            s@ == match *self {
                ProjectType::NodeJs => "Node.js"@,
                ProjectType::Rails => "Rails"@,
                ProjectType::Rust => "Rust"@,
                ProjectType::Unknown => "Unknown"@,
            },
    {
        match self {
            ProjectType::NodeJs => String::from_str("Node.js"),
            ProjectType::Rails => String::from_str("Rails"),
            ProjectType::Rust => String::from_str("Rust"),
            ProjectType::Unknown => String::from_str("Unknown"),
        }
    }
}

} // verus!
