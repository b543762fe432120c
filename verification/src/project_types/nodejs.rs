use crate::project_type_trait::{kamal_deploy, kamal_deploy_spec, lemma_command_names_distinct, ProjectTypeCommands};
use crate::resolver::Probe;
use vstd::prelude::*;

verus! {

#[derive(Debug)]
pub struct Nodejs;

/// What a Nodejs project runs.
pub open spec fn nodejs_runs(probe: Probe, command: Seq<char>) -> Option<Seq<char>> {
    if command == "install"@ {
        Some("npm install"@)
    } else if command == "start"@ {
        Some("npm start"@)
    } else if command == "test"@ {
        Some("npm test"@)
    } else if command == "deploy"@ {
        kamal_deploy_spec(probe)
    } else {
        None
    }
}

/// A Node.js app has a `package.json`.
pub open spec fn nodejs_detected(probe: Probe) -> bool {
    probe.has_path("package.json"@)
}

impl Nodejs {
    pub fn detect(probe: &Probe) -> (r: Option<Box<dyn ProjectTypeCommands>>)
        ensures
            r is Some <==> nodejs_detected(*probe),
            r matches Some(t) ==> t.display_name() == "Nodejs"@,
            r matches Some(t) ==> forall|p: Probe, c: Seq<char>| #[trigger] t.runs(p, c) == nodejs_runs(p, c),
    {
        if probe.path_exists("package.json") {
            Some(Box::new(Nodejs))
        } else {
            None
        }
    }
}

impl ProjectTypeCommands for Nodejs {
    open spec fn display_name(&self) -> Seq<char> {
        "Nodejs"@
    }

    open spec fn runs(&self, probe: Probe, command: Seq<char>) -> Option<Seq<char>> {
        nodejs_runs(probe, command)
    }

    fn name(&self) -> (r: &'static str) {
        "Nodejs"
    }

    fn install_command(&self) -> (r: String) {
        String::from_str("npm install")
    }

    fn migrate_command(&self, probe: &Probe) -> (r: Option<String>) {
        proof {
            lemma_command_names_distinct();
        }
        None
    }

    fn console_command(&self, probe: &Probe) -> (r: Option<String>) {
        proof {
            lemma_command_names_distinct();
        }
        None
    }

    fn start_command(&self, probe: &Probe) -> (r: Option<String>) {
        proof {
            lemma_command_names_distinct();
        }
        Some(String::from_str("npm start"))
    }

    fn test_command(&self, probe: &Probe) -> (r: Option<String>) {
        proof {
            lemma_command_names_distinct();
        }
        Some(String::from_str("npm test"))
    }

    fn routes_command(&self, probe: &Probe) -> (r: Option<String>) {
        proof {
            lemma_command_names_distinct();
        }
        None
    }

    fn deploy_command(&self, probe: &Probe) -> (r: Option<String>) {
        proof {
            lemma_command_names_distinct();
        }
        kamal_deploy(probe)
    }
}

} // verus!
