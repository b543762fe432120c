use crate::project_type_trait::{kamal_deploy, kamal_deploy_spec, lemma_command_names_distinct, ProjectTypeCommands};
use crate::resolver::Probe;
use vstd::prelude::*;

verus! {

#[derive(Debug)]
pub struct Rails;

/// What a Rails project runs.
pub open spec fn rails_runs(probe: Probe, command: Seq<char>) -> Option<Seq<char>> {
    if command == "install"@ {
        Some("bundle install"@)
    } else if command == "migrate"@ {
        Some("bin/rails db:migrate"@)
    } else if command == "console"@ {
        Some("bin/rails c"@)
    } else if command == "start"@ {
        if probe.has_path("bin/dev"@) {
            Some("bin/dev"@)
        } else {
            Some("bin/rails s"@)
        }
    } else if command == "test"@ {
        if probe.has_path("spec"@) {
            Some("bin/rspec spec/"@)
        } else if probe.has_path("test"@) {
            Some("bin/rails test"@)
        } else {
            None
        }
    } else if command == "routes"@ {
        if probe.has_bin("fzf"@) {
            Some("bin/rails routes | fzf -e"@)
        } else {
            Some("bin/rails routes"@)
        }
    } else if command == "deploy"@ {
        kamal_deploy_spec(probe)
    } else {
        None
    }
}

/// A Rails app has a `Gemfile`.
pub open spec fn rails_detected(probe: Probe) -> bool {
    probe.has_path("Gemfile"@)
}

impl Rails {
    pub fn detect(probe: &Probe) -> (r: Option<Box<dyn ProjectTypeCommands>>)
        ensures
            r is Some <==> rails_detected(*probe),
            r matches Some(t) ==> t.display_name() == "Rails"@,
            r matches Some(t) ==> forall|p: Probe, c: Seq<char>| #[trigger] t.runs(p, c) == rails_runs(p, c),
    {
        if probe.path_exists("Gemfile") {
            Some(Box::new(Rails))
        } else {
            None
        }
    }
}

impl ProjectTypeCommands for Rails {
    open spec fn display_name(&self) -> Seq<char> {
        "Rails"@
    }

    open spec fn runs(&self, probe: Probe, command: Seq<char>) -> Option<Seq<char>> {
        rails_runs(probe, command)
    }

    fn name(&self) -> (r: &'static str) {
        "Rails"
    }

    fn install_command(&self) -> (r: String) {
        String::from_str("bundle install")
    }

    fn migrate_command(&self, probe: &Probe) -> (r: Option<String>) {
        proof {
            lemma_command_names_distinct();
        }
        Some(String::from_str("bin/rails db:migrate"))
    }

    fn console_command(&self, probe: &Probe) -> (r: Option<String>) {
        proof {
            lemma_command_names_distinct();
        }
        Some(String::from_str("bin/rails c"))
    }

    fn start_command(&self, probe: &Probe) -> (r: Option<String>) {
        proof {
            lemma_command_names_distinct();
        }
        if probe.path_exists("bin/dev") {
            Some(String::from_str("bin/dev"))
        } else {
            Some(String::from_str("bin/rails s"))
        }
    }

    fn test_command(&self, probe: &Probe) -> (r: Option<String>) {
        proof {
            lemma_command_names_distinct();
        }
        if probe.path_exists("spec") {
            Some(String::from_str("bin/rspec spec/"))
        } else if probe.path_exists("test") {
            Some(String::from_str("bin/rails test"))
        } else {
            None
        }
    }

    fn routes_command(&self, probe: &Probe) -> (r: Option<String>) {
        proof {
            lemma_command_names_distinct();
        }
        if probe.bin_available("fzf") {
            Some(String::from_str("bin/rails routes | fzf -e"))
        } else {
            Some(String::from_str("bin/rails routes"))
        }
    }

    fn deploy_command(&self, probe: &Probe) -> (r: Option<String>) {
        proof {
            lemma_command_names_distinct();
        }
        kamal_deploy(probe)
    }
}

} // verus!
