//! What resolution promises, stated over the engine's model: which type is
//! detected, and which layer a command comes from.

use crate::definition::{CandidateView, CommandsView, TypeDefView};
use crate::table::entries_map;
use crate::resolver::{
    display_name_spec, first_passing, first_where, is_first_where,
    ahead, builtin_type, commands_of, contenders, detects, first_builtin_detected, is_winner,
    layer_rank, layer_type, lemma_ahead_order, lemma_winner_unique, level, precedes,
    resolved_commands, resolved_name, resolves, type_commands, winner, Contender, Layer, LayerView,
    Probe,
};
use vstd::prelude::*;

verus! {

// ------------------------------------------------------------ detection

/// Detection order is a strict total order on positioned contenders.
proof fn lemma_precedes_order(a: Contender, i: int, b: Contender, j: int, c: Contender, k: int)
    ensures
        !precedes(a, i, a, i),
        precedes(a, i, b, j) && precedes(b, j, c, k) ==> precedes(a, i, c, k),
        i != j ==> precedes(a, i, b, j) || precedes(b, j, a, i),
        precedes(a, i, b, j) ==> !precedes(b, j, a, i),
{
    lemma_ahead_order(a, b, c);
    lemma_ahead_order(b, a, c);
    lemma_ahead_order(a, c, b);
    lemma_ahead_order(a, a, a);
}

/// Among the first `n` contenders, some detecting one precedes every other
/// detecting one.
proof fn lemma_least_detecting(probe: Probe, cs: Seq<Contender>, n: int) -> (m: int)
    requires
        0 <= n <= cs.len(),
        exists|j: int| 0 <= j < n && detects(probe, #[trigger] cs[j]),
    ensures
        0 <= m < n,
        detects(probe, cs[m]),
        forall|j: int|
            0 <= j < n && j != m && detects(probe, #[trigger] cs[j]) ==> precedes(cs[m], m, cs[j], j),
    decreases n,
{
    if exists|j: int| 0 <= j < n - 1 && detects(probe, #[trigger] cs[j]) {
        let m0 = lemma_least_detecting(probe, cs, n - 1);
        let last = n - 1;
        if detects(probe, cs[last]) && precedes(cs[last], last, cs[m0], m0) {
            assert forall|j: int|
                0 <= j < n && j != last && detects(probe, #[trigger] cs[j]) implies precedes(
                cs[last],
                last,
                cs[j],
                j,
            ) by {
                if j != m0 {
                    lemma_precedes_order(cs[last], last, cs[m0], m0, cs[j], j);
                }
            }
            last
        } else {
            assert forall|j: int|
                0 <= j < n && j != m0 && detects(probe, #[trigger] cs[j]) implies precedes(
                cs[m0],
                m0,
                cs[j],
                j,
            ) by {
                if j == last {
                    lemma_precedes_order(cs[m0], m0, cs[last], last, cs[m0], m0);
                }
            }
            m0
        }
    } else {
        let j = choose|j: int| 0 <= j < n && detects(probe, #[trigger] cs[j]);
        assert(j == n - 1);
        n - 1
    }
}

/// Once any contender detects, a type is detected, and no detecting
/// contender comes ahead of it in detection order.
pub proof fn lemma_detection_finds_first(probe: Probe, cs: Seq<Contender>, i: int)
    requires
        0 <= i < cs.len(),
        detects(probe, cs[i]),
    ensures
        winner(probe, cs) matches Some(w) && detects(probe, w) && !ahead(cs[i], w),
{
    let m = lemma_least_detecting(probe, cs, cs.len() as int);
    assert(is_winner(probe, cs, m));
    lemma_winner_unique(probe, cs, m);
    if i != m {
        assert(precedes(cs[m], m, cs[i], i));
        lemma_ahead_order(cs[i], cs[m], cs[i]);
    } else {
        lemma_ahead_order(cs[i], cs[i], cs[i]);
    }
}

/// A type declared in config beats one that detection guessed: when a
/// per-project or global type's markers match, the detected type comes from
/// config, and from the per-project file when one of its types matches.
pub proof fn lemma_declared_type_beats_detection(
    probe: Probe,
    project: LayerView,
    global: LayerView,
    builtins: Seq<(Seq<char>, TypeDefView)>,
    i: int,
)
    requires
        0 <= i < project.types.len() + global.types.len(),
        detects(probe, contenders(project, global, builtins)[i]),
    ensures
        winner(probe, contenders(project, global, builtins)) matches Some(w) && {
            &&& w.layer != Layer::Builtin
            &&& i < project.types.len() ==> w.layer == Layer::Project
        },
{
    let cs = contenders(project, global, builtins);
    lemma_detection_finds_first(probe, cs, i);
}

/// Within one layer, lower priority runs earlier: a detected type never has
/// a higher priority than another matching type of its own layer.
pub proof fn lemma_lower_priority_first(probe: Probe, cs: Seq<Contender>, i: int)
    requires
        0 <= i < cs.len(),
        detects(probe, cs[i]),
    ensures
        winner(probe, cs) matches Some(w) && {
            &&& layer_rank(w.layer) <= layer_rank(cs[i].layer)
            &&& w.layer == cs[i].layer ==> w.ty.priority <= cs[i].ty.priority
        },
{
    lemma_detection_finds_first(probe, cs, i);
}

/// In a directory where no type matches and no config supplies a typeless
/// command, nothing resolves.
pub proof fn lemma_unrecognized_resolves_nothing(
    probe: Probe,
    project: LayerView,
    global: LayerView,
    builtins: Seq<(Seq<char>, TypeDefView)>,
)
    requires
        forall|i: int|
            0 <= i < contenders(project, global, builtins).len() ==> !detects(
                probe,
                #[trigger] contenders(project, global, builtins)[i],
            ),
        project.commands == Map::<Seq<char>, Seq<crate::definition::CandidateView>>::empty(),
        global.commands == Map::<Seq<char>, Seq<crate::definition::CandidateView>>::empty(),
    ensures
        !resolves(probe, project, global, builtins),
{
    let cs = contenders(project, global, builtins);
    assert(!exists|w: int| is_winner(probe, cs, w));
    assert(global.commands.union_prefer_right(project.commands) =~= Map::<
        Seq<char>,
        Seq<crate::definition::CandidateView>,
    >::empty());
}

/// Typeless commands work where no type matches: the directory then offers
/// exactly the typeless commands, per-project over global, under no name.
pub proof fn lemma_typeless_commands_anywhere(
    probe: Probe,
    project: LayerView,
    global: LayerView,
    builtins: Seq<(Seq<char>, TypeDefView)>,
)
    requires
        forall|i: int|
            0 <= i < contenders(project, global, builtins).len() ==> !detects(
                probe,
                #[trigger] contenders(project, global, builtins)[i],
            ),
    ensures
        resolved_commands(probe, project, global, builtins) == global.commands.union_prefer_right(
            project.commands,
        ),
        resolved_name(probe, project, global, builtins) == None::<Seq<char>>,
        resolves(probe, project, global, builtins) <==> global.commands.union_prefer_right(
            project.commands,
        ) != Map::<Seq<char>, Seq<crate::definition::CandidateView>>::empty(),
{
    let cs = contenders(project, global, builtins);
    assert(!exists|w: int| is_winner(probe, cs, w));
}

// ------------------------------------------------------------ commands

/// A command in the per-project `[commands]` block is what the directory
/// runs under that name, whatever else defines it.
pub proof fn lemma_project_commands_win(
    probe: Probe,
    project: LayerView,
    global: LayerView,
    builtins: Seq<(Seq<char>, TypeDefView)>,
    name: Seq<char>,
)
    requires
        project.commands.contains_key(name),
    ensures
        resolved_commands(probe, project, global, builtins).contains_key(name),
        resolved_commands(probe, project, global, builtins)[name] == project.commands[name],
{
}

/// For the detected type, each command comes from the most explicit layer
/// that defines it: the per-project `[commands]` block, the per-project
/// commands for the type, the global commands for the type, the global
/// `[commands]` block, then the type's built-in commands. So a config that
/// redefines one command wins for that command and leaves the others as
/// they were.
pub proof fn lemma_per_command_precedence(
    probe: Probe,
    project: LayerView,
    global: LayerView,
    builtins: Seq<(Seq<char>, TypeDefView)>,
    name: Seq<char>,
)
    requires
        winner(probe, contenders(project, global, builtins)) is Some,
    ensures
        ({
            let w = winner(probe, contenders(project, global, builtins)).unwrap();
            let r = resolved_commands(probe, project, global, builtins);
            let pc = project.commands;
            let pt = commands_of(layer_type(project.types, w.key));
            let gt = commands_of(layer_type(global.types, w.key));
            let gc = global.commands;
            let b = commands_of(builtin_type(builtins, w.key));
            &&& pc.contains_key(name) ==> r.contains_key(name) && r[name] == pc[name]
            &&& !pc.contains_key(name) && pt.contains_key(name) ==> r.contains_key(name) && r[name]
                == pt[name]
            &&& !pc.contains_key(name) && !pt.contains_key(name) && gt.contains_key(name)
                ==> r.contains_key(name) && r[name] == gt[name]
            &&& !pc.contains_key(name) && !pt.contains_key(name) && !gt.contains_key(name)
                && gc.contains_key(name) ==> r.contains_key(name) && r[name] == gc[name]
            &&& !pc.contains_key(name) && !pt.contains_key(name) && !gt.contains_key(name)
                && !gc.contains_key(name) && b.contains_key(name) ==> r.contains_key(name) && r[name]
                == b[name]
        }),
{
}

/// A command in the global `[commands]` block beats the detected type's
/// built-in command of that name, unless the per-project config or the
/// global commands for the type define it.
pub proof fn lemma_global_config_beats_builtin(
    probe: Probe,
    project: LayerView,
    global: LayerView,
    builtins: Seq<(Seq<char>, TypeDefView)>,
    name: Seq<char>,
)
    requires
        winner(probe, contenders(project, global, builtins)) is Some,
        !project.commands.contains_key(name),
        !commands_of(
            layer_type(project.types, winner(probe, contenders(project, global, builtins)).unwrap().key),
        ).contains_key(name),
        !commands_of(
            layer_type(global.types, winner(probe, contenders(project, global, builtins)).unwrap().key),
        ).contains_key(name),
        global.commands.contains_key(name),
    ensures
        resolved_commands(probe, project, global, builtins).contains_key(name),
        resolved_commands(probe, project, global, builtins)[name] == global.commands[name],
{
}

/// When a type declared in config won, the built-in type that detection
/// would have found here stands behind it: what neither config nor the
/// declared type defines comes from that built-in type.
pub proof fn lemma_builtin_behind_declared_type(
    probe: Probe,
    project: LayerView,
    global: LayerView,
    builtins: Seq<(Seq<char>, TypeDefView)>,
    name: Seq<char>,
)
    requires
        winner(probe, contenders(project, global, builtins)) matches Some(w) && w.layer
            != Layer::Builtin,
        first_builtin_detected(probe, builtins) matches Some(b) && builtins[b].0 != winner(
            probe,
            contenders(project, global, builtins),
        ).unwrap().key,
        !project.commands.contains_key(name),
        !global.commands.contains_key(name),
        !type_commands(
            winner(probe, contenders(project, global, builtins)).unwrap().key,
            project,
            global,
            builtins,
        ).contains_key(name),
    ensures
        ({
            let b = first_builtin_detected(probe, builtins).unwrap();
            let f: CommandsView = type_commands(builtins[b].0, project, global, builtins);
            &&& resolved_commands(probe, project, global, builtins).contains_key(name)
                == f.contains_key(name)
            &&& f.contains_key(name) ==> resolved_commands(probe, project, global, builtins)[name]
                == f[name]
        }),
{
}

// ------------------------------------------------------------ gates and names

/// A candidate's gates fail: a path it names is missing or a binary it names
/// does not answer.
pub open spec fn gates_fail(probe: Probe, c: CandidateView) -> bool {
    (c.when_path matches Some(x) && !probe.has_path(x)) || (c.when_bin matches Some(b)
        && !probe.has_bin(b))
}

/// A command runs the first candidate all of whose gates pass, both the
/// path it names and the binary it names: every earlier candidate has a
/// failing gate; and when every candidate has one, nothing runs.
pub proof fn lemma_first_passing_candidate(probe: Probe, cs: Seq<CandidateView>)
    ensures
        match first_passing(probe, cs) {
            Some(r) => exists|i: int|
                0 <= i < cs.len() && #[trigger] cs[i].run == r && (cs[i].when_path matches Some(x)
                    ==> probe.has_path(x)) && (cs[i].when_bin matches Some(b) ==> probe.has_bin(b))
                    && forall|j: int| 0 <= j < i ==> gates_fail(probe, #[trigger] cs[j]),
            None => forall|j: int| 0 <= j < cs.len() ==> gates_fail(probe, #[trigger] cs[j]),
        },
{
    let p = |i: int| crate::resolver::gate_spec(probe, cs[i]);
    if exists|i: int| is_first_where(cs.len() as int, p, i) {
        let i = choose|i: int| is_first_where(cs.len() as int, p, i);
        crate::resolver::lemma_first_where_some(cs.len() as int, p, i);
        assert(p(i));
        assert forall|j: int| 0 <= j < i implies gates_fail(probe, #[trigger] cs[j]) by {
            assert(!p(j));
        }
    } else {
        assert forall|j: int| 0 <= j < cs.len() implies gates_fail(probe, #[trigger] cs[j]) by {
            if !gates_fail(probe, cs[j]) {
                assert(p(j));
                crate::resolver::lemma_first_where_exists(cs.len() as int, p, j);
            }
        }
    }
}

/// The shown name comes from the most explicit layer that names the type:
/// the per-project config's name for it, else the global config's, else the
/// first built-in type with that key's.
pub proof fn lemma_display_name_most_explicit(
    key: Seq<char>,
    project: LayerView,
    global: LayerView,
    builtins: Seq<(Seq<char>, TypeDefView)>,
)
    ensures
        ({
            let pm = entries_map(project.types);
            let gm = entries_map(global.types);
            let pn: Option<Seq<char>> = if pm.contains_key(key) { pm[key].name } else { None };
            let gn: Option<Seq<char>> = if gm.contains_key(key) { gm[key].name } else { None };
            let r = display_name_spec(key, project, global, builtins);
            &&& pn is Some ==> r == pn
            &&& (pn is None && gn is Some) ==> r == gn
            &&& pn is None && gn is None ==> (r is Some <==> exists|i: int|
                0 <= i < builtins.len() && #[trigger] builtins[i].0 == key && builtins[i].1.name is Some
                    && forall|j: int| 0 <= j < i ==> builtins[j].0 != key)
            &&& pn is None && gn is None ==> forall|i: int|
                0 <= i < builtins.len() && #[trigger] builtins[i].0 == key && (forall|j: int|
                    0 <= j < i ==> builtins[j].0 != key) ==> r == builtins[i].1.name
        }),
{
    crate::resolver::lemma_first_key_index(builtins, key);
    match crate::resolver::first_key_index(builtins, key) {
        Some(k) => {
            assert forall|i: int|
                0 <= i < builtins.len() && #[trigger] builtins[i].0 == key && (forall|j: int|
                    0 <= j < i ==> builtins[j].0 != key) implies i == k by {
                if i < k {
                    assert(builtins[i].0 != key);
                } else if k < i {
                    assert(builtins[k].0 != key);
                }
            }
        },
        None => {},
    }
}

} // verus!
