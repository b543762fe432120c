//! The resolution engine: detect the project type, merge the layers, and
//! evaluate candidate gates against the target directory.
//!
//! Layer precedence, per command, most explicit first:
//!   1. the per-project typeless `[commands]` block
//!   2. the per-project commands for the detected type
//!   3. the global commands for the detected type
//!   4. the global typeless `[commands]` block
//!   5. the detected type's built-in commands
//!   6. when a config-declared type won: the built-in type that would have
//!      been detected in this directory, as the fallback for what it omits
//!
//! What the directory holds reaches the engine as a [`Probe`]: the relative
//! paths that exist in the target directory and the binaries that answer.

use crate::config::{approved, load_global, load_project, ConfigFile, ProjectConfig, TrustStore};
use crate::definition::{
    Candidate, CandidateView, Commands, CommandsView, DefinitionError, DefinitionFile, TypeDef,
    TypeDefView,
};
use crate::definitions::{builtin_type_list, builtin_types};
use crate::table::{entries_map, keys_sorted, Table};
use crate::targets::{add_candidate_gates, asks_bin};
use crate::text::{key_lt, lemma_key_lt_order, str_eq, str_lt};
use vstd::prelude::*;

verus! {

// ------------------------------------------------------------------ probe

/// What the target directory and the machine answered: the relative paths
/// that exist there and the binaries that respond to `--version`.
#[derive(Debug)]
pub struct Probe {
    paths: Vec<String>,
    bins: Vec<String>,
}

/// Whether `s` holds a string with view `x`.
pub fn contains_str(v: &Vec<String>, x: &str) -> (b: bool)
    ensures
        b == v.deep_view().contains(x@),
{
    let mut i: usize = 0;
    while i < v.len()
        invariant
            0 <= i <= v.len(),
            forall|j: int| 0 <= j < i ==> v[j]@ != x@,
        decreases v.len() - i,
    {
        if str_eq(v[i].as_str(), x) {
            assert(v.deep_view()[i as int] == x@);
            return true;
        }
        i = i + 1;
    }
    assert(!v.deep_view().contains(x@)) by {
        if v.deep_view().contains(x@) {
            let k = choose|k: int| 0 <= k < v.deep_view().len() && v.deep_view()[k] == x@;
            assert(v[k]@ == x@);
        }
    }
    false
}

impl Probe {
    /// The paths, relative to the target directory, that exist.
    pub closed spec fn paths(&self) -> Seq<Seq<char>> {
        self.paths.deep_view()
    }

    /// The binaries that answer.
    pub closed spec fn bins(&self) -> Seq<Seq<char>> {
        self.bins.deep_view()
    }

    pub open spec fn has_path(&self, p: Seq<char>) -> bool {
        self.paths().contains(p)
    }

    pub open spec fn has_bin(&self, b: Seq<char>) -> bool {
        self.bins().contains(b)
    }

    pub fn new(existing_paths: Vec<String>, available_bins: Vec<String>) -> (p: Probe)
        ensures
            p.paths() == existing_paths.deep_view(),
            p.bins() == available_bins.deep_view(),
    {
        Probe { paths: existing_paths, bins: available_bins }
    }

    pub fn path_exists(&self, p: &str) -> (b: bool)
        ensures
            b == self.has_path(p@),
    {
        contains_str(&self.paths, p)
    }

    pub fn bin_available(&self, b: &str) -> (r: bool)
        ensures
            r == self.has_bin(b@),
    {
        contains_str(&self.bins, b)
    }
}

// ------------------------------------------------------- first occurrence

/// `i` is the first index below `n` where `p` holds.
pub open spec fn is_first_where(n: int, p: spec_fn(int) -> bool, i: int) -> bool {
    0 <= i < n && p(i) && forall|j: int| 0 <= j < i ==> !#[trigger] p(j)
}

/// The first index below `n` where `p` holds, if any.
pub open spec fn first_where(n: int, p: spec_fn(int) -> bool) -> Option<int> {
    if exists|i: int| is_first_where(n, p, i) {
        Some(choose|i: int| is_first_where(n, p, i))
    } else {
        None
    }
}

pub proof fn lemma_first_where_some(n: int, p: spec_fn(int) -> bool, i: int)
    requires
        is_first_where(n, p, i),
    ensures
        first_where(n, p) == Some(i),
{
    let k = choose|k: int| is_first_where(n, p, k);
    if k < i {
        assert(!p(k));
    } else if i < k {
        assert(!p(i));
    }
}

/// A predicate that holds somewhere below `n` has a first place to hold.
pub proof fn lemma_first_where_exists(n: int, p: spec_fn(int) -> bool, j: int)
    requires
        0 <= j < n,
        p(j),
    ensures
        exists|i: int| is_first_where(n, p, i),
    decreases j,
{
    if forall|k: int| 0 <= k < j ==> !#[trigger] p(k) {
        assert(is_first_where(n, p, j));
    } else {
        let k = choose|k: int| 0 <= k < j && #[trigger] p(k);
        lemma_first_where_exists(n, p, k);
    }
}

pub proof fn lemma_first_where_none(n: int, p: spec_fn(int) -> bool)
    requires
        forall|j: int| 0 <= j < n ==> !#[trigger] p(j),
    ensures
        first_where(n, p) == None::<int>,
{
}

// ------------------------------------------------------------------ gates

/// Every marker of `detect` exists and, when `detect_any` is not empty, one
/// of its markers does; a type with no markers at all matches only where
/// `implicit_ok` says it may.
pub open spec fn markers_match_spec(
    probe: Probe,
    detect: Seq<Seq<char>>,
    detect_any: Seq<Seq<char>>,
    implicit_ok: bool,
) -> bool {
    if detect.len() == 0 && detect_any.len() == 0 {
        implicit_ok
    } else {
        &&& forall|i: int| 0 <= i < detect.len() ==> probe.has_path(#[trigger] detect[i])
        &&& (detect_any.len() == 0 || exists|i: int|
            0 <= i < detect_any.len() && probe.has_path(#[trigger] detect_any[i]))
    }
}

pub fn markers_match(
    probe: &Probe,
    detect: &Vec<String>,
    detect_any: &Vec<String>,
    implicit_ok: bool,
) -> (r: bool)
    ensures
        r == markers_match_spec(*probe, detect.deep_view(), detect_any.deep_view(), implicit_ok),
{
    let ghost d = detect.deep_view();
    let ghost a = detect_any.deep_view();
    if detect.len() == 0 && detect_any.len() == 0 {
        return implicit_ok;
    }
    let mut i: usize = 0;
    while i < detect.len()
        invariant
            d == detect.deep_view(),
            0 <= i <= detect.len(),
            forall|j: int| 0 <= j < i ==> probe.has_path(#[trigger] d[j]),
        decreases detect.len() - i,
    {
        if !probe.path_exists(detect[i].as_str()) {
            assert(!probe.has_path(d[i as int]));
            return false;
        }
        i = i + 1;
    }
    if detect_any.len() == 0 {
        return true;
    }
    let mut k: usize = 0;
    while k < detect_any.len()
        invariant
            a == detect_any.deep_view(),
            d == detect.deep_view(),
            forall|j: int| 0 <= j < d.len() ==> probe.has_path(#[trigger] d[j]),
            0 <= k <= detect_any.len(),
            forall|j: int| 0 <= j < k ==> !probe.has_path(#[trigger] a[j]),
        decreases detect_any.len() - k,
    {
        if probe.path_exists(detect_any[k].as_str()) {
            assert(probe.has_path(a[k as int]));
            return true;
        }
        k = k + 1;
    }
    false
}

/// A candidate's gates pass: its path exists and its binary answers, for
/// whichever of the two it sets.
pub open spec fn gate_spec(probe: Probe, c: CandidateView) -> bool {
    &&& (c.when_path matches Some(p) ==> probe.has_path(p))
    &&& (c.when_bin matches Some(b) ==> probe.has_bin(b))
}

pub fn gate_passes(candidate: &Candidate, probe: &Probe) -> (r: bool)
    ensures
        r == gate_spec(*probe, candidate.deep_view()),
{
    if let Some(path) = &candidate.when_path {
        if !probe.path_exists(path.as_str()) {
            return false;
        }
    }
    if let Some(bin) = &candidate.when_bin {
        if !probe.bin_available(bin.as_str()) {
            return false;
        }
    }
    true
}

/// The command the first passing candidate runs; `None` when every gate
/// fails.
pub open spec fn first_passing(probe: Probe, cs: Seq<CandidateView>) -> Option<Seq<char>> {
    match first_where(cs.len() as int, |i: int| gate_spec(probe, cs[i])) {
        Some(i) => Some(cs[i].run),
        None => None,
    }
}

/// What running `name` runs with these commands: the first passing
/// candidate's command; nothing when the name is unknown or every gate fails.
pub open spec fn command_run(probe: Probe, commands: CommandsView, name: Seq<char>) -> Option<Seq<char>> {
    if commands.contains_key(name) {
        first_passing(probe, commands[name])
    } else {
        None
    }
}

pub fn select_candidate(candidates: &Vec<Candidate>, probe: &Probe) -> (r: Option<String>)
    ensures
        r.deep_view() == first_passing(*probe, candidates.deep_view()),
{
    let ghost cs = candidates.deep_view();
    let ghost p = |i: int| gate_spec(*probe, cs[i]);
    let mut i: usize = 0;
    while i < candidates.len()
        invariant
            cs == candidates.deep_view(),
            p == (|i: int| gate_spec(*probe, cs[i])),
            0 <= i <= candidates.len(),
            forall|j: int| 0 <= j < i ==> !#[trigger] p(j),
        decreases candidates.len() - i,
    {
        if gate_passes(&candidates[i], probe) {
            proof {
                assert(p(i as int));
                lemma_first_where_some(cs.len() as int, p, i as int);
            }
            return Some(candidates[i].run.clone());
        }
        i = i + 1;
    }
    proof {
        lemma_first_where_none(cs.len() as int, p);
    }
    None
}

// -------------------------------------------------------------- detection

/// The three layers a type can come from.
#[derive(PartialEq, Eq, Structural, Clone, Copy, Debug)]
pub enum Layer {
    Project,
    Global,
    Builtin,
}

/// Config-declared layers run ahead of the built-ins, the per-project file
/// first.
pub open spec fn layer_rank(l: Layer) -> int {
    match l {
        Layer::Project => 0,
        Layer::Global => 1,
        Layer::Builtin => 2,
    }
}

/// What a definition file holds, as views: its typeless commands and its
/// types in key order.
pub struct LayerView {
    pub commands: CommandsView,
    pub types: Seq<(Seq<char>, TypeDefView)>,
}

impl DefinitionFile {
    pub open spec fn layer(&self) -> LayerView {
        LayerView { commands: self.commands@, types: self.types.entries() }
    }
}

/// The layer of a file with nothing in it.
pub open spec fn empty_layer() -> LayerView {
    LayerView {
        commands: Map::<Seq<char>, Seq<CandidateView>>::empty(),
        types: Seq::<(Seq<char>, TypeDefView)>::empty(),
    }
}

/// A type that takes part in detection.
pub struct Contender {
    pub layer: Layer,
    pub key: Seq<char>,
    pub ty: TypeDefView,
}

pub open spec fn layer_contenders(l: Layer, s: Seq<(Seq<char>, TypeDefView)>) -> Seq<Contender> {
    Seq::new(s.len(), |i: int| Contender { layer: l, key: s[i].0, ty: s[i].1 })
}

/// Every type of every layer: the per-project file's, the global file's,
/// then the built-ins, in that order.
pub open spec fn contenders(
    project: LayerView,
    global: LayerView,
    builtins: Seq<(Seq<char>, TypeDefView)>,
) -> Seq<Contender> {
    layer_contenders(Layer::Project, project.types) + layer_contenders(Layer::Global, global.types)
        + layer_contenders(Layer::Builtin, builtins)
}

/// A type's markers match. A type declared in the per-project file with no
/// markers matches its own directory; a markerless type elsewhere never
/// matches.
pub open spec fn detects(probe: Probe, c: Contender) -> bool {
    markers_match_spec(probe, c.ty.detect, c.ty.detect_any, c.layer == Layer::Project)
}

/// Detection order, without the position: layer first, then priority
/// (lower earlier), then key.
pub open spec fn ahead(a: Contender, b: Contender) -> bool {
    ||| layer_rank(a.layer) < layer_rank(b.layer)
    ||| layer_rank(a.layer) == layer_rank(b.layer) && a.ty.priority < b.ty.priority
    ||| layer_rank(a.layer) == layer_rank(b.layer) && a.ty.priority == b.ty.priority && key_lt(
        a.key,
        b.key,
    )
}

pub open spec fn level(a: Contender, b: Contender) -> bool {
    layer_rank(a.layer) == layer_rank(b.layer) && a.ty.priority == b.ty.priority && a.key == b.key
}

/// Detection order: `a` at position `i` is tried before `b` at `j`; equal
/// ones keep their positions.
pub open spec fn precedes(a: Contender, i: int, b: Contender, j: int) -> bool {
    ahead(a, b) || (level(a, b) && i < j)
}

/// `w` is the first contender, in detection order, whose markers match.
pub open spec fn is_winner(probe: Probe, cs: Seq<Contender>, w: int) -> bool {
    &&& 0 <= w < cs.len()
    &&& detects(probe, cs[w])
    &&& forall|j: int|
        0 <= j < cs.len() && j != w && detects(probe, #[trigger] cs[j]) ==> precedes(
            cs[w],
            w,
            cs[j],
            j,
        )
}

/// The detected type, if any type matches.
pub open spec fn winner(probe: Probe, cs: Seq<Contender>) -> Option<Contender> {
    if exists|w: int| is_winner(probe, cs, w) {
        Some(cs[choose|w: int| is_winner(probe, cs, w)])
    } else {
        None
    }
}

pub proof fn lemma_ahead_order(a: Contender, b: Contender, c: Contender)
    ensures
        !ahead(a, a),
        !(ahead(a, b) && ahead(b, a)),
        !(ahead(a, b) && level(a, b)),
        ahead(a, b) && ahead(b, c) ==> ahead(a, c),
        ahead(a, b) && level(b, c) ==> ahead(a, c),
        level(a, b) && ahead(b, c) ==> ahead(a, c),
        ahead(a, b) || ahead(b, a) || level(a, b),
{
    lemma_key_lt_order(a.key, b.key, c.key);
    lemma_key_lt_order(a.key, a.key, a.key);
    lemma_key_lt_order(b.key, a.key, c.key);
}

pub proof fn lemma_winner_unique(probe: Probe, cs: Seq<Contender>, w: int)
    requires
        is_winner(probe, cs, w),
    ensures
        winner(probe, cs) == Some(cs[w]),
{
    let k = choose|k: int| is_winner(probe, cs, k);
    if k != w {
        assert(precedes(cs[w], w, cs[k], k));
        assert(precedes(cs[k], k, cs[w], w));
        lemma_ahead_order(cs[w], cs[k], cs[w]);
    }
}

/// `i` is the first position of key `key` in `s`.
pub open spec fn first_key_index(s: Seq<(Seq<char>, TypeDefView)>, key: Seq<char>) -> Option<int> {
    first_where(s.len() as int, has_key_at(s, key))
}

/// Position `i` of `s` holds key `key`.
pub open spec fn has_key_at(s: Seq<(Seq<char>, TypeDefView)>, key: Seq<char>) -> spec_fn(int) -> bool {
    |i: int| s[i].0 == key
}

/// Where `key` first occurs in `s`, as `first_key_index` finds it.
pub proof fn lemma_first_key_index(s: Seq<(Seq<char>, TypeDefView)>, key: Seq<char>)
    ensures
        match first_key_index(s, key) {
            Some(i) => 0 <= i < s.len() && s[i].0 == key && forall|j: int|
                0 <= j < i ==> #[trigger] s[j].0 != key,
            None => forall|j: int| 0 <= j < s.len() ==> #[trigger] s[j].0 != key,
        },
{
    let p = has_key_at(s, key);
    if exists|i: int| is_first_where(s.len() as int, p, i) {
        let i = choose|i: int| is_first_where(s.len() as int, p, i);
        lemma_first_where_some(s.len() as int, p, i);
        assert forall|j: int| 0 <= j < i implies #[trigger] s[j].0 != key by {
            assert(!p(j));
        }
    } else {
        assert forall|j: int| 0 <= j < s.len() implies #[trigger] s[j].0 != key by {
            if s[j].0 == key {
                assert(p(j));
                lemma_first_where_exists(s.len() as int, p, j);
            }
        }
    }
}

/// The type named `key` in a layer's map, if there is one.
pub open spec fn layer_type(types: Seq<(Seq<char>, TypeDefView)>, key: Seq<char>) -> Option<TypeDefView> {
    if entries_map(types).contains_key(key) {
        Some(entries_map(types)[key])
    } else {
        None
    }
}

/// The built-in type with key `key`: the first one listed.
pub open spec fn builtin_type(builtins: Seq<(Seq<char>, TypeDefView)>, key: Seq<char>) -> Option<TypeDefView> {
    match first_key_index(builtins, key) {
        Some(i) => Some(builtins[i].1),
        None => None,
    }
}

pub open spec fn name_of(t: Option<TypeDefView>) -> Option<Seq<char>> {
    match t {
        Some(t) => t.name,
        None => None,
    }
}

/// The display name for a type key: from the most explicit layer that sets
/// one.
pub open spec fn display_name_spec(
    key: Seq<char>,
    project: LayerView,
    global: LayerView,
    builtins: Seq<(Seq<char>, TypeDefView)>,
) -> Option<Seq<char>> {
    match name_of(layer_type(project.types, key)) {
        Some(n) => Some(n),
        None => match name_of(layer_type(global.types, key)) {
            Some(n) => Some(n),
            None => name_of(builtin_type(builtins, key)),
        },
    }
}

/// The winner's display name, the type key when no layer names it.
pub open spec fn shown_name(
    key: Seq<char>,
    project: LayerView,
    global: LayerView,
    builtins: Seq<(Seq<char>, TypeDefView)>,
) -> Seq<char> {
    match display_name_spec(key, project, global, builtins) {
        Some(n) => n,
        None => key,
    }
}

/// The detected type: its key, its display name and the layer it came from.
#[derive(Debug)]
pub struct Winner {
    pub key: String,
    pub display_name: String,
    pub layer: Layer,
}

/// Finds the position of the first built-in with key `key`.
pub fn find_builtin(builtins: &Vec<(String, TypeDef)>, key: &str) -> (r: Option<usize>)
    ensures
        match r {
            Some(i) => first_key_index(builtins.deep_view(), key@) == Some(i as int),
            None => first_key_index(builtins.deep_view(), key@) == None::<int>,
        },
{
    let ghost s = builtins.deep_view();
    let ghost p = |i: int| s[i].0 == key@;
    let mut i: usize = 0;
    while i < builtins.len()
        invariant
            s == builtins.deep_view(),
            p == (|i: int| s[i].0 == key@),
            0 <= i <= builtins.len(),
            forall|j: int| 0 <= j < i ==> !#[trigger] p(j),
        decreases builtins.len() - i,
    {
        if str_eq(builtins[i].0.as_str(), key) {
            proof {
                assert(p(i as int));
                lemma_first_where_some(s.len() as int, p, i as int);
            }
            return Some(i);
        }
        i = i + 1;
    }
    proof {
        lemma_first_where_none(s.len() as int, p);
    }
    None
}

fn name_clone(t: Option<&TypeDef>) -> (r: Option<String>)
    ensures
        r.deep_view() == name_of(
            match t {
                Some(t) => Some(t.deep_view()),
                None => None,
            },
        ),
{
    match t {
        Some(t) => match &t.name {
            Some(n) => Some(n.clone()),
            None => None,
        },
        None => None,
    }
}

/// Display name for a type key: the most explicit layer that sets one.
pub fn resolve_display_name(
    key: &str,
    project: &DefinitionFile,
    global: &DefinitionFile,
    builtins: &Vec<(String, TypeDef)>,
) -> (r: Option<String>)
    ensures
        r.deep_view() == display_name_spec(
            key@,
            project.layer(),
            global.layer(),
            builtins.deep_view(),
        ),
{
    let p = name_clone(project.types.get(key));
    if p.is_some() {
        return p;
    }
    let g = name_clone(global.types.get(key));
    if g.is_some() {
        return g;
    }
    match find_builtin(builtins, key) {
        Some(i) => name_clone(Some(&builtins[i].1)),
        None => None,
    }
}

/// Every type of every layer, with references into the layers.
fn gather<'a>(
    project: &'a DefinitionFile,
    global: &'a DefinitionFile,
    builtins: &'a Vec<(String, TypeDef)>,
) -> (v: Vec<(Layer, &'a String, &'a TypeDef)>)
    ensures
        v.len() == contenders(project.layer(), global.layer(), builtins.deep_view()).len(),
        forall|i: int|
            0 <= i < v.len() ==> {
                let c = #[trigger] contenders(project.layer(), global.layer(), builtins.deep_view())[i];
                &&& v[i].0 == c.layer
                &&& v[i].1@ == c.key
                &&& v[i].2.deep_view() == c.ty
            },
{
    let ghost cs = contenders(project.layer(), global.layer(), builtins.deep_view());
    let ghost np = project.types.entries().len();
    let ghost ng = global.types.entries().len();
    let mut v: Vec<(Layer, &'a String, &'a TypeDef)> = Vec::new();
    let n = project.types.len();
    let mut i: usize = 0;
    while i < n
        invariant
            n == np,
            np == project.types.entries().len(),
            cs == contenders(project.layer(), global.layer(), builtins.deep_view()),
            0 <= i <= n,
            v.len() == i,
            forall|k: int|
                0 <= k < v.len() ==> {
                    let c = #[trigger] cs[k];
                    &&& v[k].0 == c.layer
                    &&& v[k].1@ == c.key
                    &&& v[k].2.deep_view() == c.ty
                },
        decreases n - i,
    {
        v.push((Layer::Project, project.types.key_at(i), project.types.value_at(i)));
        i = i + 1;
    }
    let m = global.types.len();
    let mut i: usize = 0;
    while i < m
        invariant
            m == ng,
            np == project.types.entries().len(),
            ng == global.types.entries().len(),
            cs == contenders(project.layer(), global.layer(), builtins.deep_view()),
            0 <= i <= m,
            v.len() == np + i,
            forall|k: int|
                0 <= k < v.len() ==> {
                    let c = #[trigger] cs[k];
                    &&& v[k].0 == c.layer
                    &&& v[k].1@ == c.key
                    &&& v[k].2.deep_view() == c.ty
                },
        decreases m - i,
    {
        v.push((Layer::Global, global.types.key_at(i), global.types.value_at(i)));
        i = i + 1;
    }
    let mut i: usize = 0;
    while i < builtins.len()
        invariant
            np == project.types.entries().len(),
            ng == global.types.entries().len(),
            cs == contenders(project.layer(), global.layer(), builtins.deep_view()),
            0 <= i <= builtins.len(),
            v.len() == np + ng + i,
            forall|k: int|
                0 <= k < v.len() ==> {
                    let c = #[trigger] cs[k];
                    &&& v[k].0 == c.layer
                    &&& v[k].1@ == c.key
                    &&& v[k].2.deep_view() == c.ty
                },
        decreases builtins.len() - i,
    {
        let e = &builtins[i];
        v.push((Layer::Builtin, &e.0, &e.1));
        i = i + 1;
    }
    v
}

fn rank(l: Layer) -> (r: u8)
    ensures
        r == layer_rank(l),
{
    match l {
        Layer::Project => 0,
        Layer::Global => 1,
        Layer::Builtin => 2,
    }
}

/// Detection: config-declared types run ahead of built-ins whatever their
/// priority; within a layer, lower priority runs earlier, then key order.
pub fn detect(
    probe: &Probe,
    project: &DefinitionFile,
    global: &DefinitionFile,
    builtins: &Vec<(String, TypeDef)>,
) -> (r: Option<Winner>)
    ensures
        match winner(*probe, contenders(project.layer(), global.layer(), builtins.deep_view())) {
            None => r.is_none(),
            Some(c) => r.is_some() && r.unwrap().key@ == c.key && r.unwrap().layer == c.layer
                && r.unwrap().display_name@ == shown_name(
                c.key,
                project.layer(),
                global.layer(),
                builtins.deep_view(),
            ),
        },
{
    let ghost cs = contenders(project.layer(), global.layer(), builtins.deep_view());
    let v = gather(project, global, builtins);
    let mut best: Option<usize> = None;
    let mut i: usize = 0;
    while i < v.len()
        invariant
            cs == contenders(project.layer(), global.layer(), builtins.deep_view()),
            v.len() == cs.len(),
            forall|k: int|
                0 <= k < v.len() ==> {
                    let c = #[trigger] cs[k];
                    &&& v[k].0 == c.layer
                    &&& v[k].1@ == c.key
                    &&& v[k].2.deep_view() == c.ty
                },
            0 <= i <= v.len(),
            match best {
                None => forall|j: int| 0 <= j < i ==> !detects(*probe, #[trigger] cs[j]),
                Some(b) => {
                    &&& b < i
                    &&& detects(*probe, cs[b as int])
                    &&& forall|j: int|
                        0 <= j < i && j != b && detects(*probe, #[trigger] cs[j]) ==> precedes(
                            cs[b as int],
                            b as int,
                            cs[j],
                            j,
                        )
                },
            },
        decreases v.len() - i,
    {
        let (layer, key, ty) = v[i];
        let ghost ci = cs[i as int];
        if markers_match(probe, &ty.detect, &ty.detect_any, layer == Layer::Project) {
            assert(detects(*probe, ci));
            match best {
                None => {
                    best = Some(i);
                },
                Some(b) => {
                    let (bl, bk, bt) = v[b];
                    let ghost cb = cs[b as int];
                    let rl = rank(layer);
                    let rb = rank(bl);
                    let wins = rl < rb || (rl == rb && ty.priority < bt.priority) || (rl == rb
                        && ty.priority == bt.priority && str_lt(key.as_str(), bk.as_str()));
                    assert(wins == ahead(ci, cb));
                    if wins {
                        proof {
                            assert forall|j: int|
                                0 <= j < i + 1 && j != i && detects(
                                    *probe,
                                    #[trigger] cs[j],
                                ) implies precedes(ci, i as int, cs[j], j) by {
                                lemma_ahead_order(ci, cb, cs[j]);
                            }
                        }
                        best = Some(i);
                    } else {
                        proof {
                            lemma_ahead_order(cb, ci, cb);
                            assert(precedes(cb, b as int, ci, i as int));
                        }
                    }
                },
            }
        }
        i = i + 1;
    }
    match best {
        None => {
            assert(!exists|w: int| is_winner(*probe, cs, w));
            None
        },
        Some(b) => {
            proof {
                assert(is_winner(*probe, cs, b as int));
                lemma_winner_unique(*probe, cs, b as int);
            }
            let (layer, key, _) = v[b];
            let display_name = match resolve_display_name(key.as_str(), project, global, builtins) {
                Some(n) => n,
                None => key.clone(),
            };
            Some(Winner { key: key.clone(), display_name, layer })
        },
    }
}

// ---------------------------------------------------------------- merging

pub open spec fn commands_of(t: Option<TypeDefView>) -> CommandsView {
    match t {
        Some(t) => t.commands,
        None => Map::empty(),
    }
}

/// A type's commands merged across layers, per command: per-project over
/// global over built-in, for the same type key.
pub open spec fn type_commands(
    key: Seq<char>,
    project: LayerView,
    global: LayerView,
    builtins: Seq<(Seq<char>, TypeDefView)>,
) -> CommandsView {
    commands_of(builtin_type(builtins, key)).union_prefer_right(
        commands_of(layer_type(global.types, key)),
    ).union_prefer_right(commands_of(layer_type(project.types, key)))
}

/// The first built-in type, in list order, whose markers match.
pub open spec fn first_builtin_detected(probe: Probe, builtins: Seq<(Seq<char>, TypeDefView)>) -> Option<
    int,
> {
    first_where(
        builtins.len() as int,
        |i: int| markers_match_spec(probe, builtins[i].1.detect, builtins[i].1.detect_any, false),
    )
}

/// When a config-declared type won, the built-in type that detection would
/// have found here stands behind it for the commands it omits.
pub open spec fn fallback_commands(
    probe: Probe,
    project: LayerView,
    global: LayerView,
    builtins: Seq<(Seq<char>, TypeDefView)>,
    w: Contender,
) -> CommandsView {
    if w.layer != Layer::Builtin {
        match first_builtin_detected(probe, builtins) {
            Some(b) => if builtins[b].0 != w.key {
                type_commands(builtins[b].0, project, global, builtins)
            } else {
                Map::empty()
            },
            None => Map::empty(),
        }
    } else {
        Map::empty()
    }
}

/// The commands a directory resolves to, layered per command from least to
/// most explicit: the built-in type behind a declared one, the detected
/// type's built-in commands, the global `[commands]` block, the global
/// commands for the detected type, the per-project commands for it, then
/// the per-project `[commands]` block.
pub open spec fn resolved_commands(
    probe: Probe,
    project: LayerView,
    global: LayerView,
    builtins: Seq<(Seq<char>, TypeDefView)>,
) -> CommandsView {
    match winner(probe, contenders(project, global, builtins)) {
        Some(w) => fallback_commands(probe, project, global, builtins, w).union_prefer_right(
            commands_of(builtin_type(builtins, w.key)),
        ).union_prefer_right(global.commands).union_prefer_right(
            commands_of(layer_type(global.types, w.key)),
        ).union_prefer_right(commands_of(layer_type(project.types, w.key))).union_prefer_right(
            project.commands,
        ),
        None => global.commands.union_prefer_right(project.commands),
    }
}

/// The name shown for the detected type, if a type was detected.
pub open spec fn resolved_name(
    probe: Probe,
    project: LayerView,
    global: LayerView,
    builtins: Seq<(Seq<char>, TypeDefView)>,
) -> Option<Seq<char>> {
    match winner(probe, contenders(project, global, builtins)) {
        Some(w) => Some(shown_name(w.key, project, global, builtins)),
        None => None,
    }
}

/// A directory resolves when a type was detected or some command is defined.
pub open spec fn resolves(
    probe: Probe,
    project: LayerView,
    global: LayerView,
    builtins: Seq<(Seq<char>, TypeDefView)>,
) -> bool {
    winner(probe, contenders(project, global, builtins)) is Some || resolved_commands(
        probe,
        project,
        global,
        builtins,
    ) != Map::<Seq<char>, Seq<CandidateView>>::empty()
}

/// Overlays a type's commands into `commands`, least explicit layer first,
/// so that commands fall back one by one within the same type key.
pub fn merge_type_commands(
    commands: &mut Commands,
    key: &str,
    project: &DefinitionFile,
    global: &DefinitionFile,
    builtins: &Vec<(String, TypeDef)>,
)
    ensures
        final(commands)@ == old(commands)@.union_prefer_right(
            type_commands(key@, project.layer(), global.layer(), builtins.deep_view()),
        ),
{
    let ghost start = commands@;
    let ghost b = commands_of(builtin_type(builtins.deep_view(), key@));
    let ghost g = commands_of(layer_type(global.types.entries(), key@));
    let ghost p = commands_of(layer_type(project.types.entries(), key@));
    match find_builtin(builtins, key) {
        Some(i) => {
            commands.overlay(&builtins[i].1.commands);
        },
        None => {
            assert(commands@ =~= start.union_prefer_right(b));
        },
    }
    assert(commands@ == start.union_prefer_right(b));
    match global.types.get(key) {
        Some(t) => {
            commands.overlay(&t.commands);
        },
        None => {
            assert(commands@ =~= start.union_prefer_right(b).union_prefer_right(g));
        },
    }
    assert(commands@ == start.union_prefer_right(b).union_prefer_right(g));
    match project.types.get(key) {
        Some(t) => {
            commands.overlay(&t.commands);
        },
        None => {
            assert(commands@ =~= start.union_prefer_right(b).union_prefer_right(g).union_prefer_right(p));
        },
    }
    assert(commands@ =~= start.union_prefer_right(
        b.union_prefer_right(g).union_prefer_right(p),
    ));
}

/// Finds the first built-in type whose markers match.
pub fn first_matching_builtin(probe: &Probe, builtins: &Vec<(String, TypeDef)>) -> (r: Option<usize>)
    ensures
        match r {
            Some(i) => first_builtin_detected(*probe, builtins.deep_view()) == Some(i as int),
            None => first_builtin_detected(*probe, builtins.deep_view()) == None::<int>,
        },
{
    let ghost s = builtins.deep_view();
    let ghost p = |i: int| markers_match_spec(*probe, s[i].1.detect, s[i].1.detect_any, false);
    let mut i: usize = 0;
    while i < builtins.len()
        invariant
            s == builtins.deep_view(),
            p == (|i: int| markers_match_spec(*probe, s[i].1.detect, s[i].1.detect_any, false)),
            0 <= i <= builtins.len(),
            forall|j: int| 0 <= j < i ==> !#[trigger] p(j),
        decreases builtins.len() - i,
    {
        let t = &builtins[i].1;
        if markers_match(probe, &t.detect, &t.detect_any, false) {
            proof {
                assert(p(i as int));
                lemma_first_where_some(s.len() as int, p, i as int);
            }
            return Some(i);
        }
        i = i + 1;
    }
    proof {
        lemma_first_where_none(s.len() as int, p);
    }
    None
}

// ------------------------------------------------------------- resolution

/// What a directory resolved to: the detected type's display name (none for
/// commands supplied by config alone) and every command it offers.
#[derive(Debug)]
pub struct Resolution {
    pub display_name: Option<String>,
    commands: Commands,
}

impl Resolution {
    /// Command name to candidates.
    pub closed spec fn command_map(&self) -> CommandsView {
        self.commands@
    }

    /// The display name, as a view.
    pub closed spec fn name_view(&self) -> Option<Seq<char>> {
        self.display_name.deep_view()
    }

    /// The display name of the detected type, as `name_view` gives it.
    pub fn detected_name(&self) -> (r: &Option<String>)
        ensures
            r.deep_view() == self.name_view(),
    {
        &self.display_name
    }

    /// Resolves a command name to its shell string: the first candidate
    /// whose gates pass; `None` when the name is unknown or every gate fails.
    pub fn command(&self, name: &str, probe: &Probe) -> (r: Option<String>)
        ensures
            r.deep_view() == command_run(*probe, self.command_map(), name@),
    {
        match self.commands.get(name) {
            Some(candidates) => select_candidate(candidates, probe),
            None => None,
        }
    }

    /// The binaries the gates of command `name` ask about: what running it
    /// needs to know besides which paths exist.
    pub fn command_bins(&self, name: &str) -> (bins: Vec<String>)
        ensures
            forall|b: Seq<char>|
                #[trigger] bins.deep_view().contains(b) <==> self.command_map().contains_key(name@)
                    && asks_bin(self.command_map()[name@], b),
    {
        match self.commands.get(name) {
            Some(candidates) => {
                let mut paths: Vec<String> = Vec::new();
                let mut bins: Vec<String> = Vec::new();
                proof {
                    assert forall|b: Seq<char>| !bins.deep_view().contains(b) by {}
                    assert forall|p: Seq<char>| !paths.deep_view().contains(p) by {}
                }
                add_candidate_gates(candidates, &mut paths, &mut bins);
                bins
            },
            None => {
                let bins: Vec<String> = Vec::new();
                assert forall|b: Seq<char>| !bins.deep_view().contains(b) by {}
                bins
            },
        }
    }

    /// The names of the commands, in key order.
    pub closed spec fn command_keys(&self) -> Seq<Seq<char>> {
        self.commands.entries().map_values(|e: (Seq<char>, Seq<CandidateView>)| e.0)
    }

    /// The command names on offer, in key order.
    pub fn command_names(&self) -> (names: Vec<String>)
        ensures
            names.deep_view() == self.command_keys(),
            forall|i: int, j: int|
                0 <= i < j < names.len() ==> key_lt(#[trigger] names[i]@, #[trigger] names[j]@),
            forall|k: Seq<char>|
                self.command_map().contains_key(k) <==> exists|i: int|
                    0 <= i < names.len() && #[trigger] names[i]@ == k,
    {
        let names = self.commands.keys();
        assert(names.deep_view() =~= self.command_keys());
        names
    }
}

/// Overlays a layer's commands for the type `key`, if it declares that type.
fn overlay_layer_type(commands: &mut Commands, types: &Table<TypeDef>, key: &str)
    ensures
        final(commands)@ == old(commands)@.union_prefer_right(
            commands_of(layer_type(types.entries(), key@)),
        ),
{
    let ghost start = commands@;
    match types.get(key) {
        Some(ty) => {
            commands.overlay(&ty.commands);
        },
        None => {
            assert(commands@ =~= start.union_prefer_right(
                commands_of(layer_type(types.entries(), key@)),
            ));
        },
    }
}

/// Merges the layers for a directory: detection, then the per-command
/// overlay from least to most explicit layer.
pub fn resolve_layers(
    probe: &Probe,
    project: &DefinitionFile,
    global: &DefinitionFile,
    builtins: &Vec<(String, TypeDef)>,
) -> (r: Option<Resolution>)
    ensures
        r.is_some() == resolves(*probe, project.layer(), global.layer(), builtins.deep_view()),
        r matches Some(res) ==> {
            &&& res.command_map() == resolved_commands(
                *probe,
                project.layer(),
                global.layer(),
                builtins.deep_view(),
            )
            &&& res.name_view() == resolved_name(
                *probe,
                project.layer(),
                global.layer(),
                builtins.deep_view(),
            )
        },
{
    let ghost pl = project.layer();
    let ghost gl = global.layer();
    let ghost bs = builtins.deep_view();
    let ghost empty = Map::<Seq<char>, Seq<CandidateView>>::empty();
    let found = detect(probe, project, global, builtins);
    let mut commands: Commands = Table::new();
    match &found {
        Some(w) => {
            let ghost wc = winner(*probe, contenders(pl, gl, bs)).unwrap();
            if w.layer != Layer::Builtin {
                match first_matching_builtin(probe, builtins) {
                    Some(b) => {
                        if !str_eq(builtins[b].0.as_str(), w.key.as_str()) {
                            merge_type_commands(
                                &mut commands,
                                builtins[b].0.as_str(),
                                project,
                                global,
                                builtins,
                            );
                        }
                    },
                    None => {},
                }
            }
            assert(commands@ =~= empty.union_prefer_right(
                fallback_commands(*probe, pl, gl, bs, wc),
            ));
        },
        None => {},
    }
    match &found {
        Some(w) => {
            let ghost before = commands@;
            let key = w.key.as_str();
            match find_builtin(builtins, key) {
                Some(i) => {
                    commands.overlay(&builtins[i].1.commands);
                },
                None => {
                    assert(commands@ =~= before.union_prefer_right(
                        commands_of(builtin_type(bs, key@)),
                    ));
                },
            }
            commands.overlay(&global.commands);
            overlay_layer_type(&mut commands, &global.types, key);
            overlay_layer_type(&mut commands, &project.types, key);
            commands.overlay(&project.commands);
        },
        None => {
            commands.overlay(&global.commands);
            commands.overlay(&project.commands);
        },
    }
    assert(commands@ =~= resolved_commands(*probe, pl, gl, bs));
    let no_commands = commands.is_empty();
    match found {
        None => {
            if no_commands {
                None
            } else {
                Some(Resolution { display_name: None, commands })
            }
        },
        Some(w) => Some(Resolution { display_name: Some(w.display_name), commands }),
    }
}

// --------------------------------------------------------------- loading

/// The error a read result stands for, if any.
pub open spec fn config_error(f: ConfigFile) -> Option<DefinitionError> {
    match f {
        ConfigFile::Unreadable { path, message } => Some(DefinitionError { source: path, message }),
        ConfigFile::Read { parsed: Err(e), .. } => Some(e),
        _ => None,
    }
}

/// The layer a read result contributes when it is used.
pub open spec fn config_layer(f: ConfigFile) -> LayerView {
    match f {
        ConfigFile::Read { parsed: Ok(file), .. } => file.layer(),
        _ => empty_layer(),
    }
}

/// The per-project file was read, is well formed, and is approved as it is.
pub open spec fn project_trusted(
    project: ConfigFile,
    approvals: Map<Seq<char>, Seq<char>>,
    key: Seq<char>,
) -> bool {
    project matches ConfigFile::Read { content, parsed: Ok(_), .. } && approved(
        approvals,
        key,
        content@,
    )
}

/// The per-project layer that takes part: the file's when it is trusted,
/// nothing otherwise.
pub open spec fn project_layer(
    project: ConfigFile,
    approvals: Map<Seq<char>, Seq<char>>,
    key: Seq<char>,
) -> LayerView {
    if project_trusted(project, approvals, key) {
        config_layer(project)
    } else {
        empty_layer()
    }
}

/// The per-project file that is present and well formed but not approved.
pub open spec fn untrusted_path(
    project: ConfigFile,
    approvals: Map<Seq<char>, Seq<char>>,
    key: Seq<char>,
) -> Option<String> {
    match project {
        ConfigFile::Read { path, parsed: Ok(_), .. } => if project_trusted(project, approvals, key) {
            None
        } else {
            Some(path)
        },
        _ => None,
    }
}

/// What resolving a directory gave.
#[derive(Debug)]
pub struct ResolveOutcome {
    pub resolution: Option<Resolution>,
    /// Set when a `.qq.toml` exists but is not approved: the caller prints
    /// the notice and goes on with the other layers.
    pub untrusted_project_config: Option<String>,
}

/// Resolves a directory: loads the global config, then the per-project one
/// through the trust gate (`store` holds the approvals, `approval_key` is the
/// per-project file's key in it), and merges them with the built-in types.
/// A broken global config is reported before a broken per-project one.
pub fn resolve(
    probe: &Probe,
    global: ConfigFile,
    project: ConfigFile,
    store: &TrustStore,
    approval_key: &str,
) -> (r: Result<ResolveOutcome, DefinitionError>)
    ensures
        match config_error(global) {
            Some(e) => r == Err::<ResolveOutcome, DefinitionError>(e),
            None => match config_error(project) {
                Some(e) => r == Err::<ResolveOutcome, DefinitionError>(e),
                None => r matches Ok(out) && {
                    let pl = project_layer(project, store.approvals@, approval_key@);
                    let gl = config_layer(global);
                    let bs = builtin_type_list();
                    &&& out.untrusted_project_config == untrusted_path(
                        project,
                        store.approvals@,
                        approval_key@,
                    )
                    &&& out.resolution.is_some() == resolves(*probe, pl, gl, bs)
                    &&& out.resolution matches Some(res) ==> {
                        &&& res.command_map() == resolved_commands(*probe, pl, gl, bs)
                        &&& res.name_view() == resolved_name(*probe, pl, gl, bs)
                    }
                },
            },
        },
{
    let ghost g0 = global;
    let ghost p0 = project;
    let global_file = match load_global(global) {
        Ok(f) => f,
        Err(e) => {
            return Err(e);
        },
    };
    assert(global_file.layer() == config_layer(g0));
    let (project_file, untrusted) = match load_project(project, store, approval_key) {
        Err(e) => {
            return Err(e);
        },
        Ok(ProjectConfig::Missing) => (DefinitionFile::empty(), None),
        Ok(ProjectConfig::Untrusted { path }) => (DefinitionFile::empty(), Some(path)),
        Ok(ProjectConfig::Trusted { file }) => (file, None),
    };
    assert(project_file.layer() == project_layer(p0, store.approvals@, approval_key@));
    let builtins = match builtin_types() {
        Ok(b) => b,
        Err(e) => {
            return Err(e);
        },
    };
    let resolution = resolve_layers(probe, &project_file, &global_file, &builtins);
    Ok(ResolveOutcome { resolution, untrusted_project_config: untrusted })
}

} // verus!
