//! What a set of definitions can ask of a directory: the relative paths
//! whose existence detection and gates test, and the binaries gates ask
//! about. The caller probes exactly these to build a `Probe`.

use crate::definition::{Candidate, CandidateView, Commands, CommandsView, DefinitionFile, TypeDef, TypeDefView};
use crate::resolver::first_key_index;
use crate::resolver::{
    builtin_type, commands_of, contenders, detects, fallback_commands, first_builtin_detected,
    first_passing, first_where, gate_spec, is_first_where, is_winner, layer_type,
    lemma_first_where_some, lemma_winner_unique, markers_match_spec, resolved_commands,
    resolved_name, resolves, type_commands, winner, LayerView, Probe,
};
use crate::table::{entries_map, lemma_entries_map_at, lemma_entries_map_value, Table};
use vstd::prelude::*;

verus! {

pub open spec fn asks_path(cs: Seq<CandidateView>, p: Seq<char>) -> bool {
    exists|j: int| 0 <= j < cs.len() && #[trigger] cs[j].when_path == Some(p)
}

pub open spec fn asks_bin(cs: Seq<CandidateView>, b: Seq<char>) -> bool {
    exists|j: int| 0 <= j < cs.len() && #[trigger] cs[j].when_bin == Some(b)
}

pub open spec fn commands_ask_path(m: CommandsView, p: Seq<char>) -> bool {
    exists|k: Seq<char>| m.contains_key(k) && asks_path(#[trigger] m[k], p)
}

pub open spec fn commands_ask_bin(m: CommandsView, b: Seq<char>) -> bool {
    exists|k: Seq<char>| m.contains_key(k) && asks_bin(#[trigger] m[k], b)
}

/// A type asks about its markers and about its commands' path gates.
pub open spec fn type_asks_path(t: TypeDefView, p: Seq<char>) -> bool {
    t.detect.contains(p) || t.detect_any.contains(p) || commands_ask_path(t.commands, p)
}

pub open spec fn types_ask_path(types: Seq<(Seq<char>, TypeDefView)>, p: Seq<char>) -> bool {
    exists|i: int| 0 <= i < types.len() && type_asks_path(#[trigger] types[i].1, p)
}

pub open spec fn types_ask_bin(types: Seq<(Seq<char>, TypeDefView)>, b: Seq<char>) -> bool {
    exists|i: int| 0 <= i < types.len() && commands_ask_bin(#[trigger] types[i].1.commands, b)
}

pub open spec fn layer_asks_path(l: LayerView, p: Seq<char>) -> bool {
    commands_ask_path(l.commands, p) || types_ask_path(l.types, p)
}

pub open spec fn layer_asks_bin(l: LayerView, b: Seq<char>) -> bool {
    commands_ask_bin(l.commands, b) || types_ask_bin(l.types, b)
}

pub(crate) fn add_candidate_gates(cs: &Vec<Candidate>, paths: &mut Vec<String>, bins: &mut Vec<String>)
    ensures
        forall|p: Seq<char>|
            #[trigger] final(paths).deep_view().contains(p) <==> old(paths).deep_view().contains(p)
                || asks_path(cs.deep_view(), p),
        forall|b: Seq<char>|
            #[trigger] final(bins).deep_view().contains(b) <==> old(bins).deep_view().contains(b)
                || asks_bin(cs.deep_view(), b),
{
    let ghost ps0 = paths.deep_view();
    let ghost bs0 = bins.deep_view();
    let ghost v = cs.deep_view();
    let mut j: usize = 0;
    while j < cs.len()
        invariant
            v == cs.deep_view(),
            0 <= j <= cs.len(),
            forall|p: Seq<char>|
                #[trigger] paths.deep_view().contains(p) <==> ps0.contains(p) || exists|i: int|
                    0 <= i < j && #[trigger] v[i].when_path == Some(p),
            forall|b: Seq<char>|
                #[trigger] bins.deep_view().contains(b) <==> bs0.contains(b) || exists|i: int|
                    0 <= i < j && #[trigger] v[i].when_bin == Some(b),
        decreases cs.len() - j,
    {
        let c = &cs[j];
        let ghost before_p = paths.deep_view();
        let ghost before_b = bins.deep_view();
        match &c.when_path {
            Some(p) => {
                paths.push(p.clone());
                assert(paths.deep_view() =~= before_p.push(p@));
            },
            None => {},
        }
        match &c.when_bin {
            Some(b) => {
                bins.push(b.clone());
                assert(bins.deep_view() =~= before_b.push(b@));
            },
            None => {},
        }
        proof {
            assert(v[j as int] == c.deep_view());
            assert forall|p: Seq<char>| #[trigger] paths.deep_view().contains(p) <==> ps0.contains(p)
                || exists|i: int| 0 <= i < j + 1 && #[trigger] v[i].when_path == Some(p) by {
                match v[j as int].when_path {
                    Some(q) => lemma_push_contains(before_p, q, p),
                    None => {},
                }
                if exists|i: int| 0 <= i < j + 1 && #[trigger] v[i].when_path == Some(p) {
                    let i = choose|i: int| 0 <= i < j + 1 && #[trigger] v[i].when_path == Some(p);
                    if i < j {
                        assert(exists|i: int| 0 <= i < j && #[trigger] v[i].when_path == Some(p));
                    }
                }
                if before_p.contains(p) && !ps0.contains(p) {
                    let i = choose|i: int| 0 <= i < j && #[trigger] v[i].when_path == Some(p);
                    assert(0 <= i < j + 1 && v[i].when_path == Some(p));
                }
            }
            assert forall|b: Seq<char>| #[trigger] bins.deep_view().contains(b) <==> bs0.contains(b)
                || exists|i: int| 0 <= i < j + 1 && #[trigger] v[i].when_bin == Some(b) by {
                match v[j as int].when_bin {
                    Some(q) => lemma_push_contains(before_b, q, b),
                    None => {},
                }
                if exists|i: int| 0 <= i < j + 1 && #[trigger] v[i].when_bin == Some(b) {
                    let i = choose|i: int| 0 <= i < j + 1 && #[trigger] v[i].when_bin == Some(b);
                    if i < j {
                        assert(exists|i: int| 0 <= i < j && #[trigger] v[i].when_bin == Some(b));
                    }
                }
                if before_b.contains(b) && !bs0.contains(b) {
                    let i = choose|i: int| 0 <= i < j && #[trigger] v[i].when_bin == Some(b);
                    assert(0 <= i < j + 1 && v[i].when_bin == Some(b));
                }
            }
        }
        j = j + 1;
    }
}

/// Pushing `x` adds `x` and keeps the rest.
pub proof fn lemma_push_contains<A>(s: Seq<A>, x: A, y: A)
    ensures
        s.push(x).contains(y) <==> s.contains(y) || x == y,
{
    if s.contains(y) {
        let k = choose|k: int| 0 <= k < s.len() && s[k] == y;
        assert(s.push(x)[k] == y);
    }
    if x == y {
        assert(s.push(x)[s.len() as int] == y);
    }
    if s.push(x).contains(y) && x != y {
        let k = choose|k: int| 0 <= k < s.len() + 1 && s.push(x)[k] == y;
        assert(k < s.len());
        assert(s[k] == y);
    }
}

fn add_markers(ms: &Vec<String>, paths: &mut Vec<String>)
    ensures
        forall|p: Seq<char>|
            #[trigger] final(paths).deep_view().contains(p) <==> old(paths).deep_view().contains(p)
                || ms.deep_view().contains(p),
{
    let ghost ps0 = paths.deep_view();
    let ghost v = ms.deep_view();
    let mut j: usize = 0;
    while j < ms.len()
        invariant
            v == ms.deep_view(),
            0 <= j <= ms.len(),
            forall|p: Seq<char>|
                #[trigger] paths.deep_view().contains(p) <==> ps0.contains(p) || v.take(j as int).contains(p),
        decreases ms.len() - j,
    {
        let ghost before = paths.deep_view();
        paths.push(ms[j].clone());
        proof {
            assert(paths.deep_view() =~= before.push(v[j as int]));
            assert(v.take(j as int + 1) =~= v.take(j as int).push(v[j as int]));
            assert forall|p: Seq<char>| #[trigger] paths.deep_view().contains(p) <==> ps0.contains(p)
                || v.take(j as int + 1).contains(p) by {
                lemma_push_contains(before, v[j as int], p);
                lemma_push_contains(v.take(j as int), v[j as int], p);
            }
        }
        j = j + 1;
    }
    assert(v.take(ms.len() as int) =~= v);
}

fn add_command_gates(cmds: &Commands, paths: &mut Vec<String>, bins: &mut Vec<String>)
    ensures
        forall|p: Seq<char>|
            #[trigger] final(paths).deep_view().contains(p) <==> old(paths).deep_view().contains(p)
                || commands_ask_path(cmds@, p),
        forall|b: Seq<char>|
            #[trigger] final(bins).deep_view().contains(b) <==> old(bins).deep_view().contains(b)
                || commands_ask_bin(cmds@, b),
{
    let ghost ps0 = paths.deep_view();
    let ghost bs0 = bins.deep_view();
    let ghost es = cmds.entries();
    let n = cmds.len();
    let mut i: usize = 0;
    while i < n
        invariant
            es == cmds.entries(),
            n == es.len(),
            crate::table::keys_sorted(es),
            0 <= i <= n,
            forall|p: Seq<char>|
                #[trigger] paths.deep_view().contains(p) <==> ps0.contains(p) || exists|k: int|
                    0 <= k < i && asks_path(#[trigger] es[k].1, p),
            forall|b: Seq<char>|
                #[trigger] bins.deep_view().contains(b) <==> bs0.contains(b) || exists|k: int|
                    0 <= k < i && asks_bin(#[trigger] es[k].1, b),
        decreases n - i,
    {
        let ghost before_p = paths.deep_view();
        let ghost before_b = bins.deep_view();
        add_candidate_gates(cmds.value_at(i), paths, bins);
        proof {
            assert forall|p: Seq<char>| #[trigger] paths.deep_view().contains(p) <==> ps0.contains(p)
                || exists|k: int| 0 <= k < i + 1 && asks_path(#[trigger] es[k].1, p) by {
                if exists|k: int| 0 <= k < i + 1 && asks_path(#[trigger] es[k].1, p) {
                    let k = choose|k: int| 0 <= k < i + 1 && asks_path(#[trigger] es[k].1, p);
                    if k < i {
                        assert(before_p.contains(p));
                    }
                }
                if before_p.contains(p) && !ps0.contains(p) {
                    let k = choose|k: int| 0 <= k < i && asks_path(#[trigger] es[k].1, p);
                    assert(0 <= k < i + 1 && asks_path(es[k].1, p));
                }
            }
            assert forall|b: Seq<char>| #[trigger] bins.deep_view().contains(b) <==> bs0.contains(b)
                || exists|k: int| 0 <= k < i + 1 && asks_bin(#[trigger] es[k].1, b) by {
                if exists|k: int| 0 <= k < i + 1 && asks_bin(#[trigger] es[k].1, b) {
                    let k = choose|k: int| 0 <= k < i + 1 && asks_bin(#[trigger] es[k].1, b);
                    if k < i {
                        assert(before_b.contains(b));
                    }
                }
                if before_b.contains(b) && !bs0.contains(b) {
                    let k = choose|k: int| 0 <= k < i && asks_bin(#[trigger] es[k].1, b);
                    assert(0 <= k < i + 1 && asks_bin(es[k].1, b));
                }
            }
        }
        i = i + 1;
    }
    proof {
        assert forall|p: Seq<char>|
            (exists|k: int| 0 <= k < n && asks_path(#[trigger] es[k].1, p)) <==> commands_ask_path(
                cmds@,
                p,
            ) by {
            if exists|k: int| 0 <= k < n && asks_path(#[trigger] es[k].1, p) {
                let k = choose|k: int| 0 <= k < n && asks_path(#[trigger] es[k].1, p);
                lemma_entries_map_at(es, k);
                assert(cmds@.contains_key(es[k].0) && asks_path(cmds@[es[k].0], p));
            }
            if commands_ask_path(cmds@, p) {
                let key = choose|key: Seq<char>| cmds@.contains_key(key) && asks_path(#[trigger] cmds@[key], p);
                let k = choose|k: int| 0 <= k < es.len() && #[trigger] es[k].0 == key;
                assert(asks_path(es[k].1, p));
            }
        }
        assert forall|b: Seq<char>|
            (exists|k: int| 0 <= k < n && asks_bin(#[trigger] es[k].1, b)) <==> commands_ask_bin(
                cmds@,
                b,
            ) by {
            if exists|k: int| 0 <= k < n && asks_bin(#[trigger] es[k].1, b) {
                let k = choose|k: int| 0 <= k < n && asks_bin(#[trigger] es[k].1, b);
                lemma_entries_map_at(es, k);
                assert(cmds@.contains_key(es[k].0) && asks_bin(cmds@[es[k].0], b));
            }
            if commands_ask_bin(cmds@, b) {
                let key = choose|key: Seq<char>| cmds@.contains_key(key) && asks_bin(#[trigger] cmds@[key], b);
                let k = choose|k: int| 0 <= k < es.len() && #[trigger] es[k].0 == key;
                assert(asks_bin(es[k].1, b));
            }
        }
    }
}

fn add_type_targets(t: &TypeDef, paths: &mut Vec<String>, bins: &mut Vec<String>)
    ensures
        forall|p: Seq<char>|
            #[trigger] final(paths).deep_view().contains(p) <==> old(paths).deep_view().contains(p)
                || type_asks_path(t.deep_view(), p),
        forall|b: Seq<char>|
            #[trigger] final(bins).deep_view().contains(b) <==> old(bins).deep_view().contains(b)
                || commands_ask_bin(t.commands@, b),
{
    add_markers(&t.detect, paths);
    add_markers(&t.detect_any, paths);
    add_command_gates(&t.commands, paths, bins);
}

fn add_table_types(types: &Table<TypeDef>, paths: &mut Vec<String>, bins: &mut Vec<String>)
    ensures
        forall|p: Seq<char>|
            #[trigger] final(paths).deep_view().contains(p) <==> old(paths).deep_view().contains(p)
                || types_ask_path(types.entries(), p),
        forall|b: Seq<char>|
            #[trigger] final(bins).deep_view().contains(b) <==> old(bins).deep_view().contains(b)
                || types_ask_bin(types.entries(), b),
{
    let ghost ps0 = paths.deep_view();
    let ghost bs0 = bins.deep_view();
    let ghost es = types.entries();
    let n = types.len();
    let mut i: usize = 0;
    while i < n
        invariant
            es == types.entries(),
            n == es.len(),
            0 <= i <= n,
            forall|p: Seq<char>|
                #[trigger] paths.deep_view().contains(p) <==> ps0.contains(p) || exists|k: int|
                    0 <= k < i && type_asks_path(#[trigger] es[k].1, p),
            forall|b: Seq<char>|
                #[trigger] bins.deep_view().contains(b) <==> bs0.contains(b) || exists|k: int|
                    0 <= k < i && commands_ask_bin(#[trigger] es[k].1.commands, b),
        decreases n - i,
    {
        let ghost before_p = paths.deep_view();
        let ghost before_b = bins.deep_view();
        add_type_targets(types.value_at(i), paths, bins);
        proof {
            assert forall|p: Seq<char>| #[trigger] paths.deep_view().contains(p) <==> ps0.contains(p)
                || exists|k: int| 0 <= k < i + 1 && type_asks_path(#[trigger] es[k].1, p) by {
                if exists|k: int| 0 <= k < i + 1 && type_asks_path(#[trigger] es[k].1, p) {
                    let k = choose|k: int| 0 <= k < i + 1 && type_asks_path(#[trigger] es[k].1, p);
                    if k < i {
                        assert(before_p.contains(p));
                    }
                }
                if before_p.contains(p) && !ps0.contains(p) {
                    let k = choose|k: int| 0 <= k < i && type_asks_path(#[trigger] es[k].1, p);
                    assert(0 <= k < i + 1 && type_asks_path(es[k].1, p));
                }
            }
            assert forall|b: Seq<char>| #[trigger] bins.deep_view().contains(b) <==> bs0.contains(b)
                || exists|k: int| 0 <= k < i + 1 && commands_ask_bin(#[trigger] es[k].1.commands, b) by {
                if exists|k: int| 0 <= k < i + 1 && commands_ask_bin(#[trigger] es[k].1.commands, b) {
                    let k = choose|k: int| 0 <= k < i + 1 && commands_ask_bin(#[trigger] es[k].1.commands, b);
                    if k < i {
                        assert(before_b.contains(b));
                    }
                }
                if before_b.contains(b) && !bs0.contains(b) {
                    let k = choose|k: int| 0 <= k < i && commands_ask_bin(#[trigger] es[k].1.commands, b);
                    assert(0 <= k < i + 1 && commands_ask_bin(es[k].1.commands, b));
                }
            }
        }
        i = i + 1;
    }
}

fn add_listed_types(types: &Vec<(String, TypeDef)>, paths: &mut Vec<String>, bins: &mut Vec<String>)
    ensures
        forall|p: Seq<char>|
            #[trigger] final(paths).deep_view().contains(p) <==> old(paths).deep_view().contains(p)
                || types_ask_path(types.deep_view(), p),
        forall|b: Seq<char>|
            #[trigger] final(bins).deep_view().contains(b) <==> old(bins).deep_view().contains(b)
                || types_ask_bin(types.deep_view(), b),
{
    let ghost ps0 = paths.deep_view();
    let ghost bs0 = bins.deep_view();
    let ghost es = types.deep_view();
    let n = types.len();
    let mut i: usize = 0;
    while i < n
        invariant
            es == types.deep_view(),
            n == es.len(),
            0 <= i <= n,
            forall|p: Seq<char>|
                #[trigger] paths.deep_view().contains(p) <==> ps0.contains(p) || exists|k: int|
                    0 <= k < i && type_asks_path(#[trigger] es[k].1, p),
            forall|b: Seq<char>|
                #[trigger] bins.deep_view().contains(b) <==> bs0.contains(b) || exists|k: int|
                    0 <= k < i && commands_ask_bin(#[trigger] es[k].1.commands, b),
        decreases n - i,
    {
        let ghost before_p = paths.deep_view();
        let ghost before_b = bins.deep_view();
        add_type_targets(&types[i].1, paths, bins);
        proof {
            assert(es[i as int].1 == types[i as int].1.deep_view());
            assert forall|p: Seq<char>| #[trigger] paths.deep_view().contains(p) <==> ps0.contains(p)
                || exists|k: int| 0 <= k < i + 1 && type_asks_path(#[trigger] es[k].1, p) by {
                if exists|k: int| 0 <= k < i + 1 && type_asks_path(#[trigger] es[k].1, p) {
                    let k = choose|k: int| 0 <= k < i + 1 && type_asks_path(#[trigger] es[k].1, p);
                    if k < i {
                        assert(before_p.contains(p));
                    }
                }
                if before_p.contains(p) && !ps0.contains(p) {
                    let k = choose|k: int| 0 <= k < i && type_asks_path(#[trigger] es[k].1, p);
                    assert(0 <= k < i + 1 && type_asks_path(es[k].1, p));
                }
            }
            assert forall|b: Seq<char>| #[trigger] bins.deep_view().contains(b) <==> bs0.contains(b)
                || exists|k: int| 0 <= k < i + 1 && commands_ask_bin(#[trigger] es[k].1.commands, b) by {
                if exists|k: int| 0 <= k < i + 1 && commands_ask_bin(#[trigger] es[k].1.commands, b) {
                    let k = choose|k: int| 0 <= k < i + 1 && commands_ask_bin(#[trigger] es[k].1.commands, b);
                    if k < i {
                        assert(before_b.contains(b));
                    }
                }
                if before_b.contains(b) && !bs0.contains(b) {
                    let k = choose|k: int| 0 <= k < i && commands_ask_bin(#[trigger] es[k].1.commands, b);
                    assert(0 <= k < i + 1 && commands_ask_bin(es[k].1.commands, b));
                }
            }
        }
        i = i + 1;
    }
}

/// The paths and binaries that resolving with these definitions can ask
/// about: every marker of every type, and every gate of every candidate.
pub fn probe_targets(
    project: &DefinitionFile,
    global: &DefinitionFile,
    builtins: &Vec<(String, TypeDef)>,
) -> (r: (Vec<String>, Vec<String>))
    ensures
        forall|p: Seq<char>|
            #[trigger] r.0.deep_view().contains(p) <==> layer_asks_path(project.layer(), p)
                || layer_asks_path(global.layer(), p) || types_ask_path(builtins.deep_view(), p),
        forall|b: Seq<char>|
            #[trigger] r.1.deep_view().contains(b) <==> layer_asks_bin(project.layer(), b)
                || layer_asks_bin(global.layer(), b) || types_ask_bin(builtins.deep_view(), b),
{
    let mut paths: Vec<String> = Vec::new();
    let mut bins: Vec<String> = Vec::new();
    add_command_gates(&project.commands, &mut paths, &mut bins);
    add_table_types(&project.types, &mut paths, &mut bins);
    add_command_gates(&global.commands, &mut paths, &mut bins);
    add_table_types(&global.types, &mut paths, &mut bins);
    add_listed_types(builtins, &mut paths, &mut bins);
    (paths, bins)
}

// ------------------------------------------------------------ sufficiency

/// Something the definitions of these layers can ask about a path.
pub open spec fn asked_path(
    project: LayerView,
    global: LayerView,
    builtins: Seq<(Seq<char>, TypeDefView)>,
    p: Seq<char>,
) -> bool {
    layer_asks_path(project, p) || layer_asks_path(global, p) || types_ask_path(builtins, p)
}

pub open spec fn asked_bin(
    project: LayerView,
    global: LayerView,
    builtins: Seq<(Seq<char>, TypeDefView)>,
    b: Seq<char>,
) -> bool {
    layer_asks_bin(project, b) || layer_asks_bin(global, b) || types_ask_bin(builtins, b)
}

/// Two probes answer alike on everything the layers can ask.
pub open spec fn probes_agree(
    p1: Probe,
    p2: Probe,
    project: LayerView,
    global: LayerView,
    builtins: Seq<(Seq<char>, TypeDefView)>,
) -> bool {
    &&& forall|p: Seq<char>| asked_path(project, global, builtins, p) ==> p1.has_path(p) == p2.has_path(p)
    &&& forall|b: Seq<char>| asked_bin(project, global, builtins, b) ==> p1.has_bin(b) == p2.has_bin(b)
}

/// Every gate of every candidate in `m` is one the layers ask about.
pub open spec fn gates_asked(
    m: CommandsView,
    project: LayerView,
    global: LayerView,
    builtins: Seq<(Seq<char>, TypeDefView)>,
) -> bool {
    forall|k: Seq<char>, j: int|
        m.contains_key(k) && 0 <= j < m[k].len() ==> {
            &&& (#[trigger] m[k][j]).when_path matches Some(x) ==> asked_path(project, global, builtins, x)
            &&& m[k][j].when_bin matches Some(x) ==> asked_bin(project, global, builtins, x)
        }
}

/// A first occurrence depends only on where the predicate holds.
proof fn lemma_first_where_same(n: int, a: spec_fn(int) -> bool, b: spec_fn(int) -> bool)
    requires
        forall|i: int| 0 <= i < n ==> #[trigger] a(i) == b(i),
    ensures
        first_where(n, a) == first_where(n, b),
{
    if exists|i: int| is_first_where(n, a, i) {
        let i = choose|i: int| is_first_where(n, a, i);
        assert forall|j: int| 0 <= j < i implies !#[trigger] b(j) by {
            assert(a(j) == b(j));
        }
        assert(a(i) == b(i));
        assert(is_first_where(n, b, i));
        lemma_first_where_some(n, a, i);
        lemma_first_where_some(n, b, i);
    } else if exists|i: int| is_first_where(n, b, i) {
        let i = choose|i: int| is_first_where(n, b, i);
        assert forall|j: int| 0 <= j < i implies !#[trigger] a(j) by {
            assert(a(j) == b(j));
        }
        assert(a(i) == b(i));
        assert(is_first_where(n, a, i));
    }
}

proof fn lemma_markers_agree(
    p1: Probe,
    p2: Probe,
    detect: Seq<Seq<char>>,
    detect_any: Seq<Seq<char>>,
    implicit_ok: bool,
)
    requires
        forall|x: Seq<char>| detect.contains(x) || detect_any.contains(x) ==> p1.has_path(x) == p2.has_path(x),
    ensures
        markers_match_spec(p1, detect, detect_any, implicit_ok) == markers_match_spec(
            p2,
            detect,
            detect_any,
            implicit_ok,
        ),
{
    assert forall|i: int| 0 <= i < detect.len() implies p1.has_path(#[trigger] detect[i]) == p2.has_path(
        detect[i],
    ) by {
        assert(detect.contains(detect[i]));
    }
    assert forall|i: int| 0 <= i < detect_any.len() implies p1.has_path(#[trigger] detect_any[i])
        == p2.has_path(detect_any[i]) by {
        assert(detect_any.contains(detect_any[i]));
    }
}

/// A type of the layers asks about its own markers.
proof fn lemma_contender_markers_asked(
    project: LayerView,
    global: LayerView,
    builtins: Seq<(Seq<char>, TypeDefView)>,
    i: int,
    x: Seq<char>,
)
    requires
        0 <= i < contenders(project, global, builtins).len(),
        contenders(project, global, builtins)[i].ty.detect.contains(x)
            || contenders(project, global, builtins)[i].ty.detect_any.contains(x),
    ensures
        asked_path(project, global, builtins, x),
{
    let np = project.types.len() as int;
    let ng = global.types.len() as int;
    if i < np {
        assert(type_asks_path(project.types[i].1, x));
    } else if i < np + ng {
        assert(type_asks_path(global.types[i - np].1, x));
    } else {
        assert(type_asks_path(builtins[i - np - ng].1, x));
    }
}

/// The commands of a type of the layers are gated by what they ask.
proof fn lemma_type_commands_gated(
    project: LayerView,
    global: LayerView,
    builtins: Seq<(Seq<char>, TypeDefView)>,
    key: Seq<char>,
)
    ensures
        gates_asked(commands_of(layer_type(project.types, key)), project, global, builtins),
        gates_asked(commands_of(layer_type(global.types, key)), project, global, builtins),
        gates_asked(commands_of(builtin_type(builtins, key)), project, global, builtins),
        gates_asked(type_commands(key, project, global, builtins), project, global, builtins),
{
    lemma_layer_type_gated(project, global, builtins, project.types, key);
    lemma_layer_type_gated(project, global, builtins, global.types, key);
    let b = commands_of(builtin_type(builtins, key));
    assert forall|k: Seq<char>, j: int| b.contains_key(k) && 0 <= j < b[k].len() implies {
        &&& (#[trigger] b[k][j]).when_path matches Some(x) ==> asked_path(project, global, builtins, x)
        &&& b[k][j].when_bin matches Some(x) ==> asked_bin(project, global, builtins, x)
    } by {
        let i = first_key_index(builtins, key).unwrap();
        let t = builtins[i].1;
        if let Some(x) = b[k][j].when_path {
            assert(asks_path(t.commands[k], x));
            assert(commands_ask_path(t.commands, x));
            assert(type_asks_path(builtins[i].1, x));
        }
        if let Some(x) = b[k][j].when_bin {
            assert(asks_bin(t.commands[k], x));
            assert(commands_ask_bin(builtins[i].1.commands, x));
        }
    }
    lemma_union_gated(
        commands_of(builtin_type(builtins, key)),
        commands_of(layer_type(global.types, key)),
        project,
        global,
        builtins,
    );
    lemma_union_gated(
        commands_of(builtin_type(builtins, key)).union_prefer_right(
            commands_of(layer_type(global.types, key)),
        ),
        commands_of(layer_type(project.types, key)),
        project,
        global,
        builtins,
    );
}

proof fn lemma_layer_type_gated(
    project: LayerView,
    global: LayerView,
    builtins: Seq<(Seq<char>, TypeDefView)>,
    types: Seq<(Seq<char>, TypeDefView)>,
    key: Seq<char>,
)
    requires
        types == project.types || types == global.types,
    ensures
        gates_asked(commands_of(layer_type(types, key)), project, global, builtins),
{
    let m = commands_of(layer_type(types, key));
    assert forall|k: Seq<char>, j: int| m.contains_key(k) && 0 <= j < m[k].len() implies {
        &&& (#[trigger] m[k][j]).when_path matches Some(x) ==> asked_path(project, global, builtins, x)
        &&& m[k][j].when_bin matches Some(x) ==> asked_bin(project, global, builtins, x)
    } by {
        assert(entries_map(types).contains_key(key));
        lemma_entries_map_value(types, key);
        let i = choose|i: int| 0 <= i < types.len() && #[trigger] types[i] == (
            key,
            entries_map(types)[key],
        );
        let t = types[i].1;
        assert(m == t.commands);
        if let Some(x) = m[k][j].when_path {
            assert(asks_path(t.commands[k], x));
            assert(commands_ask_path(t.commands, x));
            assert(type_asks_path(types[i].1, x));
            assert(types_ask_path(types, x));
        }
        if let Some(x) = m[k][j].when_bin {
            assert(asks_bin(t.commands[k], x));
            assert(commands_ask_bin(types[i].1.commands, x));
            assert(types_ask_bin(types, x));
        }
    }
}

proof fn lemma_union_gated(
    a: CommandsView,
    b: CommandsView,
    project: LayerView,
    global: LayerView,
    builtins: Seq<(Seq<char>, TypeDefView)>,
)
    requires
        gates_asked(a, project, global, builtins),
        gates_asked(b, project, global, builtins),
    ensures
        gates_asked(a.union_prefer_right(b), project, global, builtins),
{
    let m = a.union_prefer_right(b);
    assert forall|k: Seq<char>, j: int| m.contains_key(k) && 0 <= j < m[k].len() implies {
        &&& (#[trigger] m[k][j]).when_path matches Some(x) ==> asked_path(project, global, builtins, x)
        &&& m[k][j].when_bin matches Some(x) ==> asked_bin(project, global, builtins, x)
    } by {
        if b.contains_key(k) {
            assert(m[k] == b[k]);
            assert(b[k][j] == m[k][j]);
        } else {
            assert(m[k] == a[k]);
            assert(a[k][j] == m[k][j]);
        }
    }
}

proof fn lemma_typeless_gated(
    project: LayerView,
    global: LayerView,
    builtins: Seq<(Seq<char>, TypeDefView)>,
)
    ensures
        gates_asked(project.commands, project, global, builtins),
        gates_asked(global.commands, project, global, builtins),
{
    assert forall|k: Seq<char>, j: int| project.commands.contains_key(k) && 0 <= j
        < project.commands[k].len() implies {
        &&& (#[trigger] project.commands[k][j]).when_path matches Some(x) ==> asked_path(
            project,
            global,
            builtins,
            x,
        )
        &&& project.commands[k][j].when_bin matches Some(x) ==> asked_bin(project, global, builtins, x)
    } by {
        if let Some(x) = project.commands[k][j].when_path {
            assert(asks_path(project.commands[k], x));
        }
        if let Some(x) = project.commands[k][j].when_bin {
            assert(asks_bin(project.commands[k], x));
        }
    }
    assert forall|k: Seq<char>, j: int| global.commands.contains_key(k) && 0 <= j
        < global.commands[k].len() implies {
        &&& (#[trigger] global.commands[k][j]).when_path matches Some(x) ==> asked_path(
            project,
            global,
            builtins,
            x,
        )
        &&& global.commands[k][j].when_bin matches Some(x) ==> asked_bin(project, global, builtins, x)
    } by {
        if let Some(x) = global.commands[k][j].when_path {
            assert(asks_path(global.commands[k], x));
        }
        if let Some(x) = global.commands[k][j].when_bin {
            assert(asks_bin(global.commands[k], x));
        }
    }
}

/// Resolution reads only paths: two probes that agree on every path the
/// layers can ask about detect the same type and resolve to the same
/// commands under the same name, whatever binaries answer.
pub proof fn lemma_resolution_reads_only_paths(
    p1: Probe,
    p2: Probe,
    project: LayerView,
    global: LayerView,
    builtins: Seq<(Seq<char>, TypeDefView)>,
)
    requires
        forall|p: Seq<char>| asked_path(project, global, builtins, p) ==> p1.has_path(p) == p2.has_path(p),
    ensures
        winner(p1, contenders(project, global, builtins)) == winner(p2, contenders(project, global, builtins)),
        first_builtin_detected(p1, builtins) == first_builtin_detected(p2, builtins),
        resolved_commands(p1, project, global, builtins) == resolved_commands(
            p2,
            project,
            global,
            builtins,
        ),
        resolved_name(p1, project, global, builtins) == resolved_name(p2, project, global, builtins),
        resolves(p1, project, global, builtins) == resolves(p2, project, global, builtins),
{
    let cs = contenders(project, global, builtins);
    assert forall|i: int| 0 <= i < cs.len() implies detects(p1, #[trigger] cs[i]) == detects(p2, cs[i]) by {
        assert forall|x: Seq<char>| cs[i].ty.detect.contains(x) || cs[i].ty.detect_any.contains(x) implies p1.has_path(x)
            == p2.has_path(x) by {
            lemma_contender_markers_asked(project, global, builtins, i, x);
        }
        lemma_markers_agree(p1, p2, cs[i].ty.detect, cs[i].ty.detect_any, cs[i].layer == crate::resolver::Layer::Project);
    }
    assert forall|w: int| is_winner(p1, cs, w) == is_winner(p2, cs, w) by {
        if 0 <= w < cs.len() {
            assert(detects(p1, cs[w]) == detects(p2, cs[w]));
        }
    }
    if exists|w: int| is_winner(p1, cs, w) {
        let w = choose|w: int| is_winner(p1, cs, w);
        lemma_winner_unique(p1, cs, w);
        lemma_winner_unique(p2, cs, w);
    } else {
        assert(!exists|w: int| is_winner(p2, cs, w));
    }
    assert(winner(p1, cs) == winner(p2, cs));
    let a = |i: int| markers_match_spec(p1, builtins[i].1.detect, builtins[i].1.detect_any, false);
    let b = |i: int| markers_match_spec(p2, builtins[i].1.detect, builtins[i].1.detect_any, false);
    assert forall|i: int| 0 <= i < builtins.len() implies #[trigger] a(i) == b(i) by {
        assert forall|x: Seq<char>| builtins[i].1.detect.contains(x) || builtins[i].1.detect_any.contains(x) implies p1.has_path(x)
            == p2.has_path(x) by {
            assert(type_asks_path(builtins[i].1, x));
        }
        lemma_markers_agree(p1, p2, builtins[i].1.detect, builtins[i].1.detect_any, false);
    }
    lemma_first_where_same(builtins.len() as int, a, b);
    assert(first_builtin_detected(p1, builtins) == first_builtin_detected(p2, builtins));
}

/// Probing only the targets suffices: two probes that answer alike on
/// everything the layers can ask detect the same type, resolve to the same
/// commands under the same name, and pick the same candidate for each.
pub proof fn lemma_probe_targets_suffice(
    p1: Probe,
    p2: Probe,
    project: LayerView,
    global: LayerView,
    builtins: Seq<(Seq<char>, TypeDefView)>,
)
    requires
        probes_agree(p1, p2, project, global, builtins),
    ensures
        resolved_commands(p1, project, global, builtins) == resolved_commands(
            p2,
            project,
            global,
            builtins,
        ),
        resolved_name(p1, project, global, builtins) == resolved_name(p2, project, global, builtins),
        resolves(p1, project, global, builtins) == resolves(p2, project, global, builtins),
        forall|name: Seq<char>|
            #[trigger] resolved_commands(p1, project, global, builtins).contains_key(name)
                ==> first_passing(p1, resolved_commands(p1, project, global, builtins)[name])
                == first_passing(p2, resolved_commands(p1, project, global, builtins)[name]),
{
    let cs = contenders(project, global, builtins);
    lemma_resolution_reads_only_paths(p1, p2, project, global, builtins);
    let r = resolved_commands(p1, project, global, builtins);
    assert(r == resolved_commands(p2, project, global, builtins));
    lemma_typeless_gated(project, global, builtins);
    match winner(p1, cs) {
        Some(w) => {
            lemma_type_commands_gated(project, global, builtins, w.key);
            let f = fallback_commands(p1, project, global, builtins, w);
            if w.layer != crate::resolver::Layer::Builtin {
                match first_builtin_detected(p1, builtins) {
                    Some(bi) => {
                        lemma_type_commands_gated(project, global, builtins, builtins[bi].0);
                    },
                    None => {},
                }
            }
            assert(gates_asked(f, project, global, builtins));
            let b = commands_of(builtin_type(builtins, w.key));
            let gt = commands_of(layer_type(global.types, w.key));
            let pt = commands_of(layer_type(project.types, w.key));
            let m1 = f.union_prefer_right(b);
            let m2 = m1.union_prefer_right(global.commands);
            let m3 = m2.union_prefer_right(gt);
            let m4 = m3.union_prefer_right(pt);
            lemma_union_gated(f, b, project, global, builtins);
            lemma_union_gated(m1, global.commands, project, global, builtins);
            lemma_union_gated(m2, gt, project, global, builtins);
            lemma_union_gated(m3, pt, project, global, builtins);
            lemma_union_gated(m4, project.commands, project, global, builtins);
        },
        None => {
            lemma_union_gated(global.commands, project.commands, project, global, builtins);
        },
    }
    assert(gates_asked(r, project, global, builtins));
    assert forall|name: Seq<char>| #[trigger] r.contains_key(name) implies first_passing(p1, r[name])
        == first_passing(p2, r[name]) by {
        let c = r[name];
        let g1 = |i: int| gate_spec(p1, c[i]);
        let g2 = |i: int| gate_spec(p2, c[i]);
        assert forall|i: int| 0 <= i < c.len() implies #[trigger] g1(i) == g2(i) by {
            assert(c[i] == r[name][i]);
        }
        lemma_first_where_same(c.len() as int, g1, g2);
    }
}

/// Which candidate runs depends only on the candidates' own gates: two
/// probes that agree on the paths and binaries those gates ask about pick
/// the same candidate.
pub proof fn lemma_first_passing_reads_its_gates(p1: Probe, p2: Probe, cs: Seq<CandidateView>)
    requires
        forall|x: Seq<char>| asks_path(cs, x) ==> p1.has_path(x) == p2.has_path(x),
        forall|b: Seq<char>| asks_bin(cs, b) ==> p1.has_bin(b) == p2.has_bin(b),
    ensures
        first_passing(p1, cs) == first_passing(p2, cs),
{
    let g1 = |i: int| gate_spec(p1, cs[i]);
    let g2 = |i: int| gate_spec(p2, cs[i]);
    assert forall|i: int| 0 <= i < cs.len() implies #[trigger] g1(i) == g2(i) by {
        if let Some(x) = cs[i].when_path {
            assert(asks_path(cs, x));
        }
        if let Some(b) = cs[i].when_bin {
            assert(asks_bin(cs, b));
        }
    }
    lemma_first_where_same(cs.len() as int, g1, g2);
}

} // verus!
