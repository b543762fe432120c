use crate::project_type_trait::{kamal_deploy, kamal_deploy_spec, lemma_command_names_distinct, ProjectTypeCommands};
use crate::resolver::Probe;
use vstd::prelude::*;

verus! {

#[derive(Debug)]
pub struct Rust;

/// What a Rust project runs.
pub open spec fn rust_runs(probe: Probe, command: Seq<char>) -> Option<Seq<char>> {
    if command == "install"@ {
        Some("cargo build"@)
    } else if command == "start"@ {
        Some("cargo run"@)
    } else if command == "test"@ {
        Some("cargo test"@)
    } else if command == "deploy"@ {
        kamal_deploy_spec(probe)
    } else {
        None
    }
}

/// A Rust project has a `Cargo.toml` or a `Cargo.lock`.
pub open spec fn rust_detected(probe: Probe) -> bool {
    probe.has_path("Cargo.toml"@) || probe.has_path("Cargo.lock"@)
}

impl Rust {
    pub fn detect(probe: &Probe) -> (r: Option<Box<dyn ProjectTypeCommands>>)
        ensures
            r is Some <==> rust_detected(*probe),
            r matches Some(t) ==> t.display_name() == "Rust"@,
            r matches Some(t) ==> forall|p: Probe, c: Seq<char>| #[trigger] t.runs(p, c) == rust_runs(p, c),
    {
        if probe.path_exists("Cargo.toml") || probe.path_exists("Cargo.lock") {
            Some(Box::new(Rust))
        } else {
            None
        }
    }
}

impl ProjectTypeCommands for Rust {
    open spec fn display_name(&self) -> Seq<char> {
        "Rust"@
    }

    open spec fn runs(&self, probe: Probe, command: Seq<char>) -> Option<Seq<char>> {
        rust_runs(probe, command)
    }

    fn name(&self) -> (r: &'static str) {
        "Rust"
    }

    fn install_command(&self) -> (r: String) {
        String::from_str("cargo build")
    }

    fn migrate_command(&self, probe: &Probe) -> (r: Option<String>) {
        proof {
            lemma_command_names_distinct();
        }
        None
    }

    fn console_command(&self, probe: &Probe) -> (r: Option<String>) {
        proof {
            lemma_command_names_distinct();
        }
        None
    }

    fn start_command(&self, probe: &Probe) -> (r: Option<String>) {
        proof {
            lemma_command_names_distinct();
        }
        Some(String::from_str("cargo run"))
    }

    fn test_command(&self, probe: &Probe) -> (r: Option<String>) {
        proof {
            lemma_command_names_distinct();
        }
        Some(String::from_str("cargo test"))
    }

    fn routes_command(&self, probe: &Probe) -> (r: Option<String>) {
        proof {
            lemma_command_names_distinct();
        }
        None
    }

    fn deploy_command(&self, probe: &Probe) -> (r: Option<String>) {
        proof {
            lemma_command_names_distinct();
        }
        kamal_deploy(probe)
    }
}

} // verus!
