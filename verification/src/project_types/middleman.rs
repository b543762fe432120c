use crate::project_type_trait::{kamal_deploy, kamal_deploy_spec, lemma_command_names_distinct, ProjectTypeCommands};
use crate::resolver::Probe;
use vstd::prelude::*;

verus! {

#[derive(Debug)]
pub struct Middleman;

/// What a Middleman project runs.
pub open spec fn middleman_runs(probe: Probe, command: Seq<char>) -> Option<Seq<char>> {
    if command == "install"@ {
        Some("bundle install"@)
    } else if command == "start"@ {
        Some("bundle exec middleman serve"@)
    } else if command == "deploy"@ {
        kamal_deploy_spec(probe)
    } else {
        None
    }
}

/// A Middleman site has a `Gemfile` and a `source` directory.
pub open spec fn middleman_detected(probe: Probe) -> bool {
    probe.has_path("Gemfile"@) && probe.has_path("source"@)
}

impl Middleman {
    pub fn detect(probe: &Probe) -> (r: Option<Box<dyn ProjectTypeCommands>>)
        ensures
            r is Some <==> middleman_detected(*probe),
            r matches Some(t) ==> t.display_name() == "Middleman"@,
            r matches Some(t) ==> forall|p: Probe, c: Seq<char>| #[trigger] t.runs(p, c) == middleman_runs(p, c),
    {
        if probe.path_exists("Gemfile") && probe.path_exists("source") {
            Some(Box::new(Middleman))
        } else {
            None
        }
    }
}

impl ProjectTypeCommands for Middleman {
    open spec fn display_name(&self) -> Seq<char> {
        "Middleman"@
    }

    open spec fn runs(&self, probe: Probe, command: Seq<char>) -> Option<Seq<char>> {
        middleman_runs(probe, command)
    }

    fn name(&self) -> (r: &'static str) {
        "Middleman"
    }

    fn install_command(&self) -> (r: String) {
        String::from_str("bundle install")
    }

    fn migrate_command(&self, probe: &Probe) -> (r: Option<String>) {
        proof {
            lemma_command_names_distinct();
        }
        None
    }

    fn console_command(&self, probe: &Probe) -> (r: Option<String>) {
        proof {
            lemma_command_names_distinct();
        }
        None
    }

    fn start_command(&self, probe: &Probe) -> (r: Option<String>) {
        proof {
            lemma_command_names_distinct();
        }
        Some(String::from_str("bundle exec middleman serve"))
    }

    fn test_command(&self, probe: &Probe) -> (r: Option<String>) {
        proof {
            lemma_command_names_distinct();
        }
        None
    }

    fn routes_command(&self, probe: &Probe) -> (r: Option<String>) {
        proof {
            lemma_command_names_distinct();
        }
        None
    }

    fn deploy_command(&self, probe: &Probe) -> (r: Option<String>) {
        proof {
            lemma_command_names_distinct();
        }
        kamal_deploy(probe)
    }
}

} // verus!
