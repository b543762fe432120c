use crate::project_type_trait::{kamal_deploy, kamal_deploy_spec, lemma_command_names_distinct, ProjectTypeCommands};
use crate::resolver::Probe;
use vstd::prelude::*;

verus! {

#[derive(Debug)]
pub struct NextJs;

/// What a NextJS project runs.
pub open spec fn nextjs_runs(probe: Probe, command: Seq<char>) -> Option<Seq<char>> {
    if command == "install"@ {
        Some("npm install"@)
    } else if command == "start"@ {
        Some("npm run dev"@)
    } else if command == "test"@ {
        Some("npm test"@)
    } else if command == "deploy"@ {
        kamal_deploy_spec(probe)
    } else {
        None
    }
}

/// A Next.js app has a `package.json` and a `next.config.js`, `.mjs` or `.ts`.
pub open spec fn nextjs_detected(probe: Probe) -> bool {
    probe.has_path("package.json"@) && (probe.has_path("next.config.js"@) || probe.has_path("next.config.mjs"@) || probe.has_path("next.config.ts"@))
}

impl NextJs {
    pub fn detect(probe: &Probe) -> (r: Option<Box<dyn ProjectTypeCommands>>)
        ensures
            r is Some <==> nextjs_detected(*probe),
            r matches Some(t) ==> t.display_name() == "NextJS"@,
            r matches Some(t) ==> forall|p: Probe, c: Seq<char>| #[trigger] t.runs(p, c) == nextjs_runs(p, c),
    {
        if probe.path_exists("package.json") && (probe.path_exists("next.config.js") || probe.path_exists("next.config.mjs") || probe.path_exists("next.config.ts")) {
            Some(Box::new(NextJs))
        } else {
            None
        }
    }
}

impl ProjectTypeCommands for NextJs {
    open spec fn display_name(&self) -> Seq<char> {
        "NextJS"@
    }

    open spec fn runs(&self, probe: Probe, command: Seq<char>) -> Option<Seq<char>> {
        nextjs_runs(probe, command)
    }

    fn name(&self) -> (r: &'static str) {
        "NextJS"
    }

    fn install_command(&self) -> (r: String) {
        String::from_str("npm install")
    }

    fn migrate_command(&self, probe: &Probe) -> (r: Option<String>) {
        proof {
            lemma_command_names_distinct();
        }
        None
    }

    fn console_command(&self, probe: &Probe) -> (r: Option<String>) {
        proof {
            lemma_command_names_distinct();
        }
        None
    }

    fn start_command(&self, probe: &Probe) -> (r: Option<String>) {
        proof {
            lemma_command_names_distinct();
        }
        Some(String::from_str("npm run dev"))
    }

    fn test_command(&self, probe: &Probe) -> (r: Option<String>) {
        proof {
            lemma_command_names_distinct();
        }
        Some(String::from_str("npm test"))
    }

    fn routes_command(&self, probe: &Probe) -> (r: Option<String>) {
        proof {
            lemma_command_names_distinct();
        }
        None
    }

    fn deploy_command(&self, probe: &Probe) -> (r: Option<String>) {
        proof {
            lemma_command_names_distinct();
        }
        kamal_deploy(probe)
    }
}

} // verus!
