//! The hand-written detection chain: the project types tried one after
//! another, most specific first, and the command dispatch over them.

use crate::cli::canonical_commands;
use crate::project_type_trait::ProjectTypeCommands;
use crate::project_types::anchor::{anchor_detected, anchor_runs, Anchor};
use crate::project_types::middleman::{middleman_detected, middleman_runs, Middleman};
use crate::project_types::nextjs::{nextjs_detected, nextjs_runs, NextJs};
use crate::project_types::nodejs::{nodejs_detected, nodejs_runs, Nodejs};
use crate::project_types::rails::{rails_detected, rails_runs, Rails};
use crate::project_types::rust::{rust_detected, rust_runs, Rust};
use crate::resolver::Probe;
use crate::text::str_eq;
use vstd::prelude::*;

verus! {

/// The name and the commands of the type the chain finds first, if any:
/// Middleman, Rails, Anchor, Rust, Next.js, then Node.js.
pub open spec fn chain_winner(probe: Probe) -> Option<
    (Seq<char>, spec_fn(Probe, Seq<char>) -> Option<Seq<char>>),
> {
    if middleman_detected(probe) {
        Some(("Middleman"@, |p: Probe, c: Seq<char>| middleman_runs(p, c)))
    } else if rails_detected(probe) {
        Some(("Rails"@, |p: Probe, c: Seq<char>| rails_runs(p, c)))
    } else if anchor_detected(probe) {
        Some(("Anchor"@, |p: Probe, c: Seq<char>| anchor_runs(p, c)))
    } else if rust_detected(probe) {
        Some(("Rust"@, |p: Probe, c: Seq<char>| rust_runs(p, c)))
    } else if nextjs_detected(probe) {
        Some(("NextJS"@, |p: Probe, c: Seq<char>| nextjs_runs(p, c)))
    } else if nodejs_detected(probe) {
        Some(("Nodejs"@, |p: Probe, c: Seq<char>| nodejs_runs(p, c)))
    } else {
        None
    }
}

/// Detects the project type with the hand-written chain, most specific
/// first: Middleman, Rails, Anchor, Rust, Next.js, Node.js.
pub fn detect_project(probe: &Probe) -> (r: Option<Box<dyn ProjectTypeCommands>>)
    ensures
        r is Some <==> chain_winner(*probe) is Some,
        r matches Some(t) ==> t.display_name() == chain_winner(*probe).unwrap().0,
        r matches Some(t) ==> forall|p: Probe, c: Seq<char>|
            #[trigger] t.runs(p, c) == (chain_winner(*probe).unwrap().1)(p, c),
{
    let m = Middleman::detect(probe);
    if m.is_some() {
        return m;
    }
    let r = Rails::detect(probe);
    if r.is_some() {
        return r;
    }
    let a = Anchor::detect(probe);
    if a.is_some() {
        return a;
    }
    let u = Rust::detect(probe);
    if u.is_some() {
        return u;
    }
    let n = NextJs::detect(probe);
    if n.is_some() {
        return n;
    }
    Nodejs::detect(probe)
}

/// What a project command name runs for `commands` (a concrete type or a
/// trait object) in a directory that answers as `probe` does: `install`
/// always runs, the other standard commands as the type says, and any other
/// name runs nothing.
pub fn project_command<T: ProjectTypeCommands + ?Sized>(commands: &T, name: &str, probe: &Probe) -> (r: Option<
    String,
>)
    ensures
        r.deep_view() == (if canonical_commands().contains(name@) {
            commands.runs(*probe, name@)
        } else {
            None
        }),
{
    proof {
        assert(canonical_commands()[0] == "install"@);
        assert(canonical_commands()[1] == "migrate"@);
        assert(canonical_commands()[2] == "console"@);
        assert(canonical_commands()[3] == "start"@);
        assert(canonical_commands()[4] == "test"@);
        assert(canonical_commands()[5] == "routes"@);
        assert(canonical_commands()[6] == "deploy"@);
    }
    if str_eq(name, "install") {
        let c = commands.install_command();
        assert(commands.runs(*probe, "install"@) == Some(c@));
        Some(c)
    } else if str_eq(name, "migrate") {
        commands.migrate_command(probe)
    } else if str_eq(name, "console") {
        commands.console_command(probe)
    } else if str_eq(name, "start") {
        commands.start_command(probe)
    } else if str_eq(name, "test") {
        commands.test_command(probe)
    } else if str_eq(name, "routes") {
        commands.routes_command(probe)
    } else if str_eq(name, "deploy") {
        commands.deploy_command(probe)
    } else {
        None
    }
}

} // verus!
