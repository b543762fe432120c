//! The hand-written detection chain and the built-in definitions describe
//! the same project types: with no config, they detect the same type under
//! the same name and run the same command for every name.

use crate::chain::chain_winner;
use crate::definition::TypeDefView;
use crate::definitions::builtin_type_list;
use crate::definition::CandidateView;
use crate::definitions::{
    anchor_type, bin_candidate, kamal_deploy, middleman_type, nextjs_type, nodejs_type, path_candidate,
    plain_candidate, rails_type, rust_type,
};
use crate::project_type_trait::{kamal_deploy_spec, lemma_command_names_distinct};
use crate::project_types::anchor::{anchor_detected, anchor_runs};
use crate::project_types::middleman::{middleman_detected, middleman_runs};
use crate::project_types::nextjs::{nextjs_detected, nextjs_runs};
use crate::project_types::nodejs::{nodejs_detected, nodejs_runs};
use crate::project_types::rails::{rails_detected, rails_runs};
use crate::project_types::rust::{rust_detected, rust_runs};
use crate::resolver::{
    builtin_type, command_run, commands_of, display_name_spec, first_key_index, first_passing,
    gate_spec, layer_type, resolved_commands, resolved_name, resolves, shown_name, type_commands,
    Layer,
    contenders, detects, empty_layer, first_where, is_first_where, is_winner, lemma_first_where_exists,
    lemma_first_where_none,
    lemma_first_where_some, lemma_winner_unique, precedes, winner, Contender, Probe,
};
use vstd::prelude::*;

verus! {

/// In one layer with strictly increasing priorities, the detected type is
/// the first one whose markers match.
proof fn lemma_ordered_layer_winner(probe: Probe, cs: Seq<Contender>)
    requires
        forall|i: int, j: int|
            0 <= i < j < cs.len() ==> #[trigger] cs[i].layer == #[trigger] cs[j].layer && cs[i].ty.priority
                < cs[j].ty.priority,
    ensures
        winner(probe, cs) == (match first_where(cs.len() as int, |i: int| detects(probe, cs[i])) {
            Some(i) => Some(cs[i]),
            None => None::<Contender>,
        }),
{
    let d = |i: int| detects(probe, cs[i]);
    if exists|i: int| is_first_where(cs.len() as int, d, i) {
        let w = choose|i: int| is_first_where(cs.len() as int, d, i);
        lemma_first_where_some(cs.len() as int, d, w);
        assert forall|j: int|
            0 <= j < cs.len() && j != w && detects(probe, #[trigger] cs[j]) implies precedes(
            cs[w],
            w,
            cs[j],
            j,
        ) by {
            assert(d(j));
            assert(j > w);
        }
        assert(is_winner(probe, cs, w));
        lemma_winner_unique(probe, cs, w);
    } else {
        assert forall|j: int| 0 <= j < cs.len() implies !#[trigger] d(j) by {
            if d(j) {
                lemma_first_where_exists(cs.len() as int, d, j);
            }
        }
        lemma_first_where_none(cs.len() as int, d);
        assert forall|w: int| !is_winner(probe, cs, w) by {
            if 0 <= w < cs.len() {
                assert(!d(w));
            }
        }
    }
}

/// A one-candidate list runs its candidate when its gates pass.
proof fn lemma_first_passing_one(probe: Probe, a: CandidateView)
    ensures
        first_passing(probe, seq![a]) == (if gate_spec(probe, a) {
            Some(a.run)
        } else {
            None
        }),
{
    let cs = seq![a];
    let p = |i: int| gate_spec(probe, cs[i]);
    if gate_spec(probe, a) {
        assert(is_first_where(1, p, 0));
        lemma_first_where_some(1, p, 0);
    } else {
        assert(!p(0));
        lemma_first_where_none(1, p);
    }
}

/// A two-candidate list runs the first whose gates pass.
proof fn lemma_first_passing_two(probe: Probe, a: CandidateView, b: CandidateView)
    ensures
        first_passing(probe, seq![a, b]) == (if gate_spec(probe, a) {
            Some(a.run)
        } else if gate_spec(probe, b) {
            Some(b.run)
        } else {
            None
        }),
{
    let cs = seq![a, b];
    let p = |i: int| gate_spec(probe, cs[i]);
    if gate_spec(probe, a) {
        assert(is_first_where(2, p, 0));
        lemma_first_where_some(2, p, 0);
    } else if gate_spec(probe, b) {
        assert(!p(0));
        assert(is_first_where(2, p, 1));
        lemma_first_where_some(2, p, 1);
    } else {
        assert(!p(0) && !p(1));
        lemma_first_where_none(2, p);
    }
}

proof fn lemma_kamal(probe: Probe)
    ensures
        first_passing(probe, kamal_deploy()) == kamal_deploy_spec(probe),
{
    lemma_first_passing_one(probe, path_candidate("kamal deploy"@, ".kamal"@));
}

proof fn lemma_middleman_runs(probe: Probe, c: Seq<char>)
    ensures
        command_run(probe, middleman_type().commands, c) == middleman_runs(probe, c),
{
    lemma_command_names_distinct();
    lemma_first_passing_one(probe, plain_candidate("bundle install"@));
    lemma_first_passing_one(probe, plain_candidate("bundle exec middleman serve"@));
    lemma_kamal(probe);
}

proof fn lemma_rails_runs(probe: Probe, c: Seq<char>)
    ensures
        command_run(probe, rails_type().commands, c) == rails_runs(probe, c),
{
    lemma_command_names_distinct();
    lemma_first_passing_one(probe, plain_candidate("bundle install"@));
    lemma_first_passing_one(probe, plain_candidate("bin/rails db:migrate"@));
    lemma_first_passing_one(probe, plain_candidate("bin/rails c"@));
    lemma_first_passing_two(probe, path_candidate("bin/dev"@, "bin/dev"@), plain_candidate("bin/rails s"@));
    lemma_first_passing_two(
        probe,
        path_candidate("bin/rspec spec/"@, "spec"@),
        path_candidate("bin/rails test"@, "test"@),
    );
    lemma_first_passing_two(
        probe,
        bin_candidate("bin/rails routes | fzf -e"@, "fzf"@),
        plain_candidate("bin/rails routes"@),
    );
    lemma_kamal(probe);
}

proof fn lemma_anchor_runs(probe: Probe, c: Seq<char>)
    ensures
        command_run(probe, anchor_type().commands, c) == anchor_runs(probe, c),
{
    lemma_command_names_distinct();
    lemma_first_passing_one(probe, plain_candidate("anchor build"@));
    lemma_first_passing_one(probe, plain_candidate("anchor localnet"@));
    lemma_first_passing_one(probe, plain_candidate("anchor test"@));
    lemma_first_passing_one(probe, plain_candidate("anchor deploy"@));
}

proof fn lemma_rust_runs(probe: Probe, c: Seq<char>)
    ensures
        command_run(probe, rust_type().commands, c) == rust_runs(probe, c),
{
    lemma_command_names_distinct();
    lemma_first_passing_one(probe, plain_candidate("cargo build"@));
    lemma_first_passing_one(probe, plain_candidate("cargo run"@));
    lemma_first_passing_one(probe, plain_candidate("cargo test"@));
    lemma_kamal(probe);
}

proof fn lemma_nextjs_runs(probe: Probe, c: Seq<char>)
    ensures
        command_run(probe, nextjs_type().commands, c) == nextjs_runs(probe, c),
{
    lemma_command_names_distinct();
    lemma_first_passing_one(probe, plain_candidate("npm install"@));
    lemma_first_passing_one(probe, plain_candidate("npm run dev"@));
    lemma_first_passing_one(probe, plain_candidate("npm test"@));
    lemma_kamal(probe);
}

proof fn lemma_nodejs_runs(probe: Probe, c: Seq<char>)
    ensures
        command_run(probe, nodejs_type().commands, c) == nodejs_runs(probe, c),
{
    lemma_command_names_distinct();
    lemma_first_passing_one(probe, plain_candidate("npm install"@));
    lemma_first_passing_one(probe, plain_candidate("npm start"@));
    lemma_first_passing_one(probe, plain_candidate("npm test"@));
    lemma_kamal(probe);
}

/// The built-in types, as contenders with no config around them.
pub open spec fn builtin_contenders() -> Seq<Contender> {
    contenders(empty_layer(), empty_layer(), builtin_type_list())
}

/// Each built-in type's markers match exactly where the chain's type is
/// detected (a Rust project with a `Cargo.lock` also has a `Cargo.toml`).
proof fn lemma_builtin_markers(probe: Probe)
    requires
        probe.has_path("Cargo.lock"@) ==> probe.has_path("Cargo.toml"@),
    ensures
        builtin_contenders().len() == 6,
        detects(probe, builtin_contenders()[0]) == middleman_detected(probe),
        detects(probe, builtin_contenders()[1]) == rails_detected(probe),
        detects(probe, builtin_contenders()[2]) == anchor_detected(probe),
        detects(probe, builtin_contenders()[3]) == rust_detected(probe),
        detects(probe, builtin_contenders()[4]) == nextjs_detected(probe),
        detects(probe, builtin_contenders()[5]) == nodejs_detected(probe),
{
    let cs = builtin_contenders();
    assert(cs[0].ty == middleman_type());
    assert(cs[1].ty == rails_type());
    assert(cs[2].ty == anchor_type());
    assert(cs[3].ty == rust_type());
    assert(cs[4].ty == nextjs_type());
    assert(cs[5].ty == nodejs_type());
    let m = middleman_type().detect;
    assert(m[0] == "Gemfile"@ && m[1] == "source"@);
    if detects(probe, cs[0]) {
        assert(probe.has_path(m[0]) && probe.has_path(m[1]));
    }
    let r = rails_type().detect;
    if detects(probe, cs[1]) {
        assert(probe.has_path(r[0]));
    }
    let a = anchor_type().detect;
    if detects(probe, cs[2]) {
        assert(probe.has_path(a[0]));
    }
    let u = rust_type().detect;
    if detects(probe, cs[3]) {
        assert(probe.has_path(u[0]));
    }
    let j = nextjs_type().detect;
    if detects(probe, cs[4]) {
        assert(probe.has_path(j[0]));
    }
    let o = nodejs_type().detect;
    if detects(probe, cs[5]) {
        assert(probe.has_path(o[0]));
    }
    let n = nextjs_type().detect_any;
    assert(n[0] == "next.config.js"@ && n[1] == "next.config.mjs"@ && n[2] == "next.config.ts"@);
    if nextjs_detected(probe) {
        if probe.has_path("next.config.js"@) {
            assert(probe.has_path(n[0]));
        } else if probe.has_path("next.config.mjs"@) {
            assert(probe.has_path(n[1]));
        } else {
            assert(probe.has_path(n[2]));
        }
    }
}

/// The built-in type keys are distinct.
proof fn lemma_builtin_keys_distinct()
    ensures
        forall|i: int, j: int|
            0 <= i < j < builtin_type_list().len() ==> #[trigger] builtin_type_list()[i].0
                != #[trigger] builtin_type_list()[j].0,
{
    reveal_strlit("middleman");
    reveal_strlit("rails");
    reveal_strlit("anchor");
    reveal_strlit("rust");
    reveal_strlit("nextjs");
    reveal_strlit("nodejs");
    let bs = builtin_type_list();
    assert forall|i: int, j: int| 0 <= i < j < bs.len() implies #[trigger] bs[i].0 != #[trigger] bs[j].0 by {
        let a = bs[i].0;
        let b = bs[j].0;
        assert(a.len() != b.len() || a[0] != b[0] || a[1] != b[1]);
    }
}

/// The built-in type at position `w` is what its key names.
proof fn lemma_builtin_at(w: int)
    requires
        0 <= w < builtin_type_list().len(),
    ensures
        first_key_index(builtin_type_list(), builtin_type_list()[w].0) == Some(w),
        builtin_type(builtin_type_list(), builtin_type_list()[w].0) == Some(builtin_type_list()[w].1),
{
    let bs = builtin_type_list();
    lemma_builtin_keys_distinct();
    let p = |i: int| bs[i].0 == bs[w].0;
    assert forall|j: int| 0 <= j < w implies !#[trigger] p(j) by {
        assert(bs[j].0 != bs[w].0);
    }
    assert(is_first_where(bs.len() as int, p, w));
    lemma_first_where_some(bs.len() as int, p, w);
}

/// With no config, the built-in type at `w` resolves to its own name and
/// commands when it is detected.
proof fn lemma_builtin_resolution(probe: Probe, w: int)
    requires
        0 <= w < builtin_contenders().len(),
        winner(probe, builtin_contenders()) == Some(builtin_contenders()[w]),
    ensures
        resolved_name(probe, empty_layer(), empty_layer(), builtin_type_list())
            == builtin_type_list()[w].1.name,
        resolved_commands(probe, empty_layer(), empty_layer(), builtin_type_list())
            == builtin_type_list()[w].1.commands,
        resolves(probe, empty_layer(), empty_layer(), builtin_type_list()),
{
    let bs = builtin_type_list();
    let e = empty_layer();
    let c = builtin_contenders()[w];
    assert(c.layer == Layer::Builtin && c.key == bs[w].0 && c.ty == bs[w].1);
    lemma_builtin_at(w);
    assert(!crate::table::entries_map(e.types).contains_key(c.key));
    assert(layer_type(e.types, c.key) == None::<TypeDefView>);
    assert(display_name_spec(c.key, e, e, bs) == bs[w].1.name);
    assert(type_commands(c.key, e, e, bs) =~= bs[w].1.commands);
    assert(resolved_commands(probe, e, e, bs) =~= bs[w].1.commands);
}

/// The hand-written chain and the built-in definitions agree: with no config,
/// in a directory where a `Cargo.lock` comes with a `Cargo.toml`, they detect
/// a type in the same places, show the same name, and run the same command
/// for every name.
pub proof fn lemma_chain_agrees_with_builtins(probe: Probe, command: Seq<char>)
    requires
        probe.has_path("Cargo.lock"@) ==> probe.has_path("Cargo.toml"@),
    ensures
        (chain_winner(probe) is Some) == resolves(probe, empty_layer(), empty_layer(), builtin_type_list()),
        chain_winner(probe) matches Some(cw) ==> {
            &&& resolved_name(probe, empty_layer(), empty_layer(), builtin_type_list()) == Some(cw.0)
            &&& (cw.1)(probe, command) == command_run(
                probe,
                resolved_commands(probe, empty_layer(), empty_layer(), builtin_type_list()),
                command,
            )
        },
{
    let bs = builtin_type_list();
    let cs = builtin_contenders();
    lemma_builtin_markers(probe);
    assert forall|i: int, j: int| 0 <= i < j < cs.len() implies #[trigger] cs[i].layer
        == #[trigger] cs[j].layer && cs[i].ty.priority < cs[j].ty.priority by {
        assert(cs[i].ty == bs[i].1 && cs[j].ty == bs[j].1);
    }
    lemma_ordered_layer_winner(probe, cs);
    let d = |i: int| detects(probe, cs[i]);
    if middleman_detected(probe) {
        assert(is_first_where(6, d, 0));
        lemma_first_where_some(6, d, 0);
        lemma_builtin_resolution(probe, 0);
        lemma_middleman_runs(probe, command);
    } else if rails_detected(probe) {
        assert(!d(0));
        assert(is_first_where(6, d, 1));
        lemma_first_where_some(6, d, 1);
        lemma_builtin_resolution(probe, 1);
        lemma_rails_runs(probe, command);
    } else if anchor_detected(probe) {
        assert(!d(0) && !d(1));
        assert(is_first_where(6, d, 2));
        lemma_first_where_some(6, d, 2);
        lemma_builtin_resolution(probe, 2);
        lemma_anchor_runs(probe, command);
    } else if rust_detected(probe) {
        assert(!d(0) && !d(1) && !d(2));
        assert(is_first_where(6, d, 3));
        lemma_first_where_some(6, d, 3);
        lemma_builtin_resolution(probe, 3);
        lemma_rust_runs(probe, command);
    } else if nextjs_detected(probe) {
        assert(!d(0) && !d(1) && !d(2) && !d(3));
        assert(is_first_where(6, d, 4));
        lemma_first_where_some(6, d, 4);
        lemma_builtin_resolution(probe, 4);
        lemma_nextjs_runs(probe, command);
    } else if nodejs_detected(probe) {
        assert(!d(0) && !d(1) && !d(2) && !d(3) && !d(4));
        assert(is_first_where(6, d, 5));
        lemma_first_where_some(6, d, 5);
        lemma_builtin_resolution(probe, 5);
        lemma_nodejs_runs(probe, command);
    } else {
        assert forall|j: int| 0 <= j < 6 implies !#[trigger] d(j) by {
            assert(j == 0 || j == 1 || j == 2 || j == 3 || j == 4 || j == 5);
        }
        lemma_first_where_none(6, d);
        let e = empty_layer();
        assert(e.commands.union_prefer_right(e.commands) =~= e.commands);
    }
}

} // verus!
