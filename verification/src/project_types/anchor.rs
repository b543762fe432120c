use crate::project_type_trait::{lemma_command_names_distinct, ProjectTypeCommands};
use crate::resolver::Probe;
use vstd::prelude::*;

verus! {

#[derive(Debug)]
pub struct Anchor;

/// What an Anchor project runs.
pub open spec fn anchor_runs(probe: Probe, command: Seq<char>) -> Option<Seq<char>> {
    if command == "install"@ {
        Some("anchor build"@)
    } else if command == "start"@ {
        Some("anchor localnet"@)
    } else if command == "test"@ {
        Some("anchor test"@)
    } else if command == "deploy"@ {
        Some("anchor deploy"@)
    } else {
        None
    }
}

/// An Anchor project has an `Anchor.toml`.
pub open spec fn anchor_detected(probe: Probe) -> bool {
    probe.has_path("Anchor.toml"@)
}

impl Anchor {
    pub fn detect(probe: &Probe) -> (r: Option<Box<dyn ProjectTypeCommands>>)
        ensures
            r is Some <==> anchor_detected(*probe),
            r matches Some(t) ==> t.display_name() == "Anchor"@,
            r matches Some(t) ==> forall|p: Probe, c: Seq<char>| #[trigger] t.runs(p, c) == anchor_runs(p, c),
    {
        if probe.path_exists("Anchor.toml") {
            Some(Box::new(Anchor))
        } else {
            None
        }
    }
}

impl ProjectTypeCommands for Anchor {
    open spec fn display_name(&self) -> Seq<char> {
        "Anchor"@
    }

    open spec fn runs(&self, probe: Probe, command: Seq<char>) -> Option<Seq<char>> {
        anchor_runs(probe, command)
    }

    fn name(&self) -> (r: &'static str) {
        "Anchor"
    }

    fn install_command(&self) -> (r: String) {
        String::from_str("anchor build")
    }

    fn migrate_command(&self, probe: &Probe) -> (r: Option<String>) {
        proof {
            lemma_command_names_distinct();
        }
        None
    }

    fn console_command(&self, probe: &Probe) -> (r: Option<String>) {
        proof {
            lemma_command_names_distinct();
        }
        None
    }

    fn start_command(&self, probe: &Probe) -> (r: Option<String>) {
        proof {
            lemma_command_names_distinct();
        }
        Some(String::from_str("anchor localnet"))
    }

    fn test_command(&self, probe: &Probe) -> (r: Option<String>) {
        proof {
            lemma_command_names_distinct();
        }
        Some(String::from_str("anchor test"))
    }

    fn routes_command(&self, probe: &Probe) -> (r: Option<String>) {
        proof {
            lemma_command_names_distinct();
        }
        None
    }

    fn deploy_command(&self, probe: &Probe) -> (r: Option<String>) {
        proof {
            lemma_command_names_distinct();
        }
        Some(String::from_str("anchor deploy"))
    }
}

} // verus!
