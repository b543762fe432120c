//! Commands of the first detection scheme.

use crate::project_type::ProjectType;
use crate::resolver::Probe;
use vstd::prelude::*;

verus! {

#[derive(Debug)]
pub struct CommandMapping {
    pub install: String,
    pub migrate: Option<String>,
    pub start: Option<String>,
    pub test: Option<String>,
}

/// Rails tests: `bin/rails t` with a `test` directory, else `bin/rspec`
/// with a `spec` directory.
pub open spec fn rails_test_spec(probe: Probe) -> Option<Seq<char>> {
    if probe.has_path("test"@) {
        Some("bin/rails t"@)
    } else if probe.has_path("spec"@) {
        Some("bin/rspec"@)
    } else {
        None
    }
}

pub fn determine_rails_test_command(probe: &Probe) -> (r: Option<String>)
    ensures
        r.deep_view() == rails_test_spec(*probe),
{
    if probe.path_exists("test") {
        Some(String::from_str("bin/rails t"))
    } else if probe.path_exists("spec") {
        Some(String::from_str("bin/rspec"))
    } else {
        None
    }
}

impl CommandMapping {
    /// The commands of a project type; none for a type this scheme has no
    /// commands for.
    pub fn for_project_type(project_type: &ProjectType, probe: &Probe) -> (r: Option<Self>)
        ensures
            match *project_type {
                ProjectType::Rails => r matches Some(m) && {
                    &&& m.install@ == "bundle install"@
                    &&& m.migrate.deep_view() == Some("bin/rails db:migrate"@)
                    &&& m.start.deep_view() == Some("bin/dev"@)
                    &&& m.test.deep_view() == rails_test_spec(*probe)
                },
                ProjectType::NodeJs => r matches Some(m) && {
                    &&& m.install@ == "npm install"@
                    &&& m.migrate is None
                    &&& m.start.deep_view() == Some("npm start"@)
                    &&& m.test is None
                },
                _ => r is None,
            },
    {
        match project_type {
            ProjectType::Rails => {
                let test = determine_rails_test_command(probe);
                Some(
                    CommandMapping {
                        install: String::from_str("bundle install"),
                        migrate: Some(String::from_str("bin/rails db:migrate")),
                        start: Some(String::from_str("bin/dev")),
                        test,
                    },
                )
            },
            ProjectType::NodeJs => Some(
                CommandMapping {
                    install: String::from_str("npm install"),
                    migrate: None,
                    start: Some(String::from_str("npm start")),
                    test: None,
                },
            ),
            _ => None,
        }
    }
}

} // verus!
