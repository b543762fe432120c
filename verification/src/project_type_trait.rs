//! The per-type command interface of the hand-written detection chain that
//! predates definition files. Each project type answers, for a directory,
//! what each of the seven standard commands runs.

use crate::resolver::Probe;
use vstd::prelude::*;

verus! {

pub trait ProjectTypeCommands {
    /// The type's display name.
    spec fn display_name(&self) -> Seq<char>;

    /// What `command` runs for this type in a directory that answers as
    /// `probe` does; `None` when the type does not support it there.
    spec fn runs(&self, probe: Probe, command: Seq<char>) -> Option<Seq<char>>;

    fn name(&self) -> (r: &'static str)
        ensures
            r@ == self.display_name(),
    ;

    /// Every type installs, wherever it is.
    fn install_command(&self) -> (r: String)
        ensures
            forall|p: Probe| #[trigger] self.runs(p, "install"@) == Some(r@),
    ;

    fn migrate_command(&self, probe: &Probe) -> (r: Option<String>)
        ensures
            r.deep_view() == self.runs(*probe, "migrate"@),
    ;

    fn console_command(&self, probe: &Probe) -> (r: Option<String>)
        ensures
            r.deep_view() == self.runs(*probe, "console"@),
    ;

    fn start_command(&self, probe: &Probe) -> (r: Option<String>)
        ensures
            r.deep_view() == self.runs(*probe, "start"@),
    ;

    fn test_command(&self, probe: &Probe) -> (r: Option<String>)
        ensures
            r.deep_view() == self.runs(*probe, "test"@),
    ;

    fn routes_command(&self, probe: &Probe) -> (r: Option<String>)
        ensures
            r.deep_view() == self.runs(*probe, "routes"@),
    ;

    fn deploy_command(&self, probe: &Probe) -> (r: Option<String>)
        ensures
            r.deep_view() == self.runs(*probe, "deploy"@),
    ;
}

/// The deploy most types share: Kamal, once a `.kamal` directory exists.
pub open spec fn kamal_deploy_spec(probe: Probe) -> Option<Seq<char>> {
    if probe.has_path(".kamal"@) {
        Some("kamal deploy"@)
    } else {
        None
    }
}

pub fn kamal_deploy(probe: &Probe) -> (r: Option<String>)
    ensures
        r.deep_view() == kamal_deploy_spec(*probe),
{
    if probe.path_exists(".kamal") {
        Some(String::from_str("kamal deploy"))
    } else {
        None
    }
}

/// The seven command names are distinct.
pub proof fn lemma_command_names_distinct()
    ensures
        "install"@ != "migrate"@,
        "install"@ != "console"@,
        "install"@ != "start"@,
        "install"@ != "test"@,
        "install"@ != "routes"@,
        "install"@ != "deploy"@,
        "migrate"@ != "console"@,
        "migrate"@ != "start"@,
        "migrate"@ != "test"@,
        "migrate"@ != "routes"@,
        "migrate"@ != "deploy"@,
        "console"@ != "start"@,
        "console"@ != "test"@,
        "console"@ != "routes"@,
        "console"@ != "deploy"@,
        "start"@ != "test"@,
        "start"@ != "routes"@,
        "start"@ != "deploy"@,
        "test"@ != "routes"@,
        "test"@ != "deploy"@,
        "routes"@ != "deploy"@,
{
    reveal_strlit("install");
    reveal_strlit("migrate");
    reveal_strlit("console");
    reveal_strlit("start");
    reveal_strlit("test");
    reveal_strlit("routes");
    reveal_strlit("deploy");
    assert("install"@[0] != "migrate"@[0]);
    assert("install"@[0] != "console"@[0]);
    assert("migrate"@[0] != "console"@[0]);
    assert("routes"@[0] != "deploy"@[0]);
    assert("start"@[0] != "test"@[0]);
}

} // verus!
