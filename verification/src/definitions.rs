//! The built-in project types. Each one is a definition file of its own,
//! written in the same schema as user config; `builtin_types` checks them
//! and lays them out in detection order (lower priority first).

use crate::definition::{
    Candidate, CandidateView, Commands, CommandsView, DefinitionError, DefinitionFile, TypeDef,
    TypeDefView,
};
use crate::resolver::{
    first_where, is_first_where, lemma_first_where_exists, lemma_first_where_none,
    lemma_first_where_some,
};
use crate::table::Table;
use vstd::prelude::*;

verus! {

// ------------------------------------------------------------ the sorting

/// Where a type of priority `p` goes in `s`: after every entry whose
/// priority is at most `p`, so that equal priorities keep their order.
pub open spec fn insert_pos(s: Seq<(Seq<char>, TypeDefView)>, p: i64) -> int {
    match first_where(s.len() as int, |i: int| s[i].1.priority > p) {
        Some(i) => i,
        None => s.len() as int,
    }
}

/// Stable sort by priority (insertion sort).
pub open spec fn sort_by_priority(s: Seq<(Seq<char>, TypeDefView)>) -> Seq<(Seq<char>, TypeDefView)>
    decreases s.len(),
{
    if s.len() == 0 {
        s
    } else {
        let rest = sort_by_priority(s.drop_last());
        rest.insert(insert_pos(rest, s.last().1.priority), s.last())
    }
}

/// Priorities never decrease along `s`.
pub open spec fn priority_sorted(s: Seq<(Seq<char>, TypeDefView)>) -> bool {
    forall|i: int, j: int| 0 <= i < j < s.len() ==> #[trigger] s[i].1.priority <= #[trigger] s[j].1.priority
}

/// Where `insert_pos` lands: past every priority up to `p`, and onto one
/// above it when it lands inside.
pub proof fn lemma_insert_pos(s: Seq<(Seq<char>, TypeDefView)>, p: i64)
    ensures
        0 <= insert_pos(s, p) <= s.len(),
        forall|j: int| 0 <= j < insert_pos(s, p) ==> #[trigger] s[j].1.priority <= p,
        insert_pos(s, p) < s.len() ==> s[insert_pos(s, p)].1.priority > p,
{
    let q = |i: int| s[i].1.priority > p;
    if exists|i: int| is_first_where(s.len() as int, q, i) {
        let i = choose|i: int| is_first_where(s.len() as int, q, i);
        lemma_first_where_some(s.len() as int, q, i);
        assert forall|j: int| 0 <= j < i implies #[trigger] s[j].1.priority <= p by {
            assert(!q(j));
        }
    } else {
        assert forall|j: int| 0 <= j < s.len() implies #[trigger] s[j].1.priority <= p by {
            if q(j) {
                lemma_first_where_exists(s.len() as int, q, j);
            }
        }
    }
}

/// Sorting by priority leaves the priorities in order and every type in
/// place: the result holds the same entries as the input.
pub proof fn lemma_sort_by_priority(s: Seq<(Seq<char>, TypeDefView)>)
    ensures
        priority_sorted(sort_by_priority(s)),
        sort_by_priority(s).to_multiset() =~= s.to_multiset(),
    decreases s.len(),
{
    broadcast use vstd::seq_lib::group_to_multiset_ensures;

    if s.len() > 0 {
        let rest = sort_by_priority(s.drop_last());
        lemma_sort_by_priority(s.drop_last());
        let e = s.last();
        let k = insert_pos(rest, e.1.priority);
        lemma_insert_pos(rest, e.1.priority);
        let out = rest.insert(k, e);
        assert(out == sort_by_priority(s));
        assert forall|i: int, j: int| 0 <= i < j < out.len() implies #[trigger] out[i].1.priority
            <= #[trigger] out[j].1.priority by {
            if j < k {
                assert(out[i] == rest[i] && out[j] == rest[j]);
            } else if j == k {
                assert(out[i] == rest[i]);
            } else if i < k {
                assert(out[i] == rest[i] && out[j] == rest[j - 1]);
            } else if i == k {
                assert(out[j] == rest[j - 1]);
                if j - 1 > k {
                    assert(rest[k].1.priority <= rest[j - 1].1.priority);
                }
            } else {
                assert(out[i] == rest[i - 1] && out[j] == rest[j - 1]);
            }
        }
        assert(out.remove(k) =~= rest);
        vstd::seq_lib::to_multiset_remove(out, k);
        assert(out[k] == e);
        assert(out.contains(e));
        assert(out.to_multiset() =~= rest.to_multiset().insert(e));
        assert(s =~= s.drop_last().push(e));
        vstd::seq_lib::to_multiset_build(s.drop_last(), e);
    }
}

// ------------------------------------------------------------ collecting

/// The message for a built-in file that holds a typeless command block.
pub open spec fn typeless_builtin_message() -> Seq<char> {
    "built-in definitions must declare [types.*], not a top-level [commands] block"@
}

/// The types of all the files, file by file, each file's in key order.
pub open spec fn all_types(files: Seq<(Seq<char>, DefinitionFile)>) -> Seq<(Seq<char>, TypeDefView)>
    decreases files.len(),
{
    if files.len() == 0 {
        Seq::empty()
    } else {
        all_types(files.drop_last()) + files.last().1.types.entries()
    }
}

/// The files, by source label and contents.
pub open spec fn files_view(files: Seq<(String, DefinitionFile)>) -> Seq<(Seq<char>, DefinitionFile)> {
    Seq::new(files.len(), |i: int| (files[i].0@, files[i].1))
}

/// The first file that declares a typeless command block.
pub open spec fn first_typeless(files: Seq<(Seq<char>, DefinitionFile)>) -> Option<int> {
    first_where(
        files.len() as int,
        |i: int| files[i].1.commands@ != Map::<Seq<char>, Seq<CandidateView>>::empty(),
    )
}

/// Checks the built-in definition files and lists their types in detection
/// order. A file with a typeless command block is refused.
pub fn collect_types(files: Vec<(String, DefinitionFile)>) -> (r: Result<Vec<(String, TypeDef)>, DefinitionError>)
    ensures
        match first_typeless(files_view(files@)) {
            Some(i) => r matches Err(e) && e.source@ == files_view(files@)[i].0 && e.message@
                == typeless_builtin_message(),
            None => r matches Ok(v) && v.deep_view() == sort_by_priority(all_types(files_view(files@))),
        },
{
    let ghost fv = files_view(files@);
    let ghost p = |i: int| fv[i].1.commands@ != Map::<Seq<char>, Seq<CandidateView>>::empty();
    let mut out: Vec<(String, TypeDef)> = Vec::new();
    let total = files.len();
    let mut rest = files;
    let ghost n = fv.len();
    let mut i: usize = 0;
    while rest.len() > 0
        invariant
            fv == files_view(files@),
            fv.len() == n,
            n == total,
            p == (|i: int| fv[i].1.commands@ != Map::<Seq<char>, Seq<CandidateView>>::empty()),
            i + rest.len() == n,
            files_view(rest@) == fv.skip(i as int),
            forall|j: int| 0 <= j < i ==> !#[trigger] p(j),
            out.deep_view() == sort_by_priority(all_types(fv.take(i as int))),
        decreases rest.len(),
    {
        let ghost before = rest@;
        let (source, file) = rest.remove(0);
        proof {
            assert(files_view(before)[0] == fv.skip(i as int)[0]);
            assert(files_view(before)[0] == (before[0].0@, before[0].1));
            assert(rest@ =~= before.remove(0));
            assert forall|j: int| 0 <= j < rest@.len() implies #[trigger] files_view(rest@)[j]
                == fv.skip(i as int + 1)[j] by {
                assert(files_view(before)[j + 1] == fv.skip(i as int)[j + 1]);
            }
            assert(files_view(rest@) =~= fv.skip(i as int + 1));
        }
        assert(fv[i as int] == (source@, file));
        if !file.commands.is_empty() {
            proof {
                assert(p(i as int));
                lemma_first_where_some(n as int, p, i as int);
                assert(first_typeless(fv) == Some(i as int));
            }
            return Err(DefinitionError {
                source,
                message: String::from_str(
                    "built-in definitions must declare [types.*], not a top-level [commands] block",
                ),
            });
        }
        let count = file.types.len();
        let mut k: usize = 0;
        while k < count
            invariant
                count == file.types.entries().len(),
                i < n,
                fv.len() == n,
                files_view(rest@) == fv.skip(i as int + 1),
                0 <= k <= count,
                out.deep_view() == sort_by_priority(
                    all_types(fv.take(i as int)) + file.types.entries().take(k as int),
                ),
            decreases count - k,
        {
            let key = file.types.key_at(k).clone();
            let ty = crate::table::Duplicate::duplicate(file.types.value_at(k));
            let prio = ty.priority;
            let ghost before = out.deep_view();
            let ghost e = (key@, ty.deep_view());
            let ghost q = |j: int| before[j].1.priority > prio;
            let mut pos: usize = 0;
            while pos < out.len() && out[pos].1.priority <= prio
                invariant
                    before == out.deep_view(),
                    q == (|j: int| before[j].1.priority > prio),
                    0 <= pos <= out.len(),
                    forall|j: int| 0 <= j < pos ==> !#[trigger] q(j),
                decreases out.len() - pos,
            {
                pos = pos + 1;
            }
            proof {
                if pos < out.len() {
                    assert(q(pos as int));
                    lemma_first_where_some(before.len() as int, q, pos as int);
                } else {
                    lemma_first_where_none(before.len() as int, q);
                }
                let whole = all_types(fv.take(i as int)) + file.types.entries().take(k as int + 1);
                assert(whole.drop_last() =~= all_types(fv.take(i as int)) + file.types.entries().take(
                    k as int,
                ));
                assert(whole.last() == e);
            }
            out.insert(pos, (key, ty));
            proof {
                assert(out.deep_view() =~= before.insert(pos as int, e));
            }
            k = k + 1;
        }
        proof {
            assert(file.types.entries().take(count as int) =~= file.types.entries());
            assert(fv.take(i as int + 1).drop_last() =~= fv.take(i as int));
            assert(fv.take(i as int + 1).last() == (source@, file));
            assert(all_types(fv.take(i as int + 1)) == all_types(fv.take(i as int))
                + file.types.entries());
        }
        i = i + 1;
    }
    proof {
        assert(fv.take(n as int) =~= fv);
        lemma_first_where_none(n as int, p);
    }
    Ok(out)
}

// ------------------------------------------------------------ the data

pub open spec fn plain_candidate(run: Seq<char>) -> CandidateView {
    CandidateView { run, when_path: None, when_bin: None }
}

pub open spec fn path_candidate(run: Seq<char>, path: Seq<char>) -> CandidateView {
    CandidateView { run, when_path: Some(path), when_bin: None }
}

pub open spec fn bin_candidate(run: Seq<char>, bin: Seq<char>) -> CandidateView {
    CandidateView { run, when_path: None, when_bin: Some(bin) }
}

/// The deploy every type but Anchor has: Kamal, once `.kamal` exists.
pub open spec fn kamal_deploy() -> Seq<CandidateView> {
    seq![path_candidate("kamal deploy"@, ".kamal"@)]
}

fn plain(run: &str) -> (c: Candidate)
    ensures
        c.deep_view() == plain_candidate(run@),
{
    Candidate { run: String::from_str(run), when_path: None, when_bin: None }
}

fn when_path(run: &str, path: &str) -> (c: Candidate)
    ensures
        c.deep_view() == path_candidate(run@, path@),
{
    Candidate { run: String::from_str(run), when_path: Some(String::from_str(path)), when_bin: None }
}

fn when_bin(run: &str, bin: &str) -> (c: Candidate)
    ensures
        c.deep_view() == bin_candidate(run@, bin@),
{
    Candidate { run: String::from_str(run), when_path: None, when_bin: Some(String::from_str(bin)) }
}

fn one(c: Candidate) -> (v: Vec<Candidate>)
    ensures
        v.deep_view() == seq![c.deep_view()],
{
    let ghost cv = c.deep_view();
    let mut v: Vec<Candidate> = Vec::new();
    v.push(c);
    assert(v.deep_view() =~= seq![cv]);
    v
}

fn two(a: Candidate, b: Candidate) -> (v: Vec<Candidate>)
    ensures
        v.deep_view() == seq![a.deep_view(), b.deep_view()],
{
    let ghost av = a.deep_view();
    let ghost bv = b.deep_view();
    let mut v: Vec<Candidate> = Vec::new();
    v.push(a);
    v.push(b);
    assert(v.deep_view() =~= seq![av, bv]);
    v
}

fn markers(names: &[&str]) -> (v: Vec<String>)
    ensures
        v.deep_view() == names@.map_values(|n: &str| n@),
{
    let mut v: Vec<String> = Vec::new();
    let mut i: usize = 0;
    while i < names.len()
        invariant
            0 <= i <= names.len(),
            v.deep_view() == names@.take(i as int).map_values(|n: &str| n@),
        decreases names.len() - i,
    {
        let ghost before = v.deep_view();
        let m = String::from_str(names[i]);
        v.push(m);
        proof {
            assert(v.deep_view() =~= before.push(names@[i as int]@));
            assert(names@.take(i as int + 1).map_values(|n: &str| n@) =~= names@.take(
                i as int,
            ).map_values(|n: &str| n@).push(names@[i as int]@));
        }
        i = i + 1;
    }
    assert(names@.take(names.len() as int) =~= names@);
    v
}

fn kamal() -> (v: Vec<Candidate>)
    ensures
        v.deep_view() == kamal_deploy(),
{
    one(when_path("kamal deploy", ".kamal"))
}

pub open spec fn middleman_type() -> TypeDefView {
    TypeDefView {
        name: Some("Middleman"@),
        priority: 10,
        detect: seq!["Gemfile"@, "source"@],
        detect_any: seq![],
        commands: Map::empty().insert("install"@, seq![plain_candidate("bundle install"@)]).insert(
            "start"@,
            seq![plain_candidate("bundle exec middleman serve"@)],
        ).insert("deploy"@, kamal_deploy()),
    }
}

fn middleman() -> (t: TypeDef)
    ensures
        t.deep_view() == middleman_type(),
{
    let mut commands: Commands = Table::new();
    commands.insert(String::from_str("install"), one(plain("bundle install")));
    commands.insert(String::from_str("start"), one(plain("bundle exec middleman serve")));
    commands.insert(String::from_str("deploy"), kamal());
    let detect = markers(&["Gemfile", "source"]);
    let t = TypeDef {
        name: Some(String::from_str("Middleman")),
        priority: 10,
        detect,
        detect_any: Vec::new(),
        commands,
    };
    assert(t.deep_view().detect =~= middleman_type().detect);
    assert(t.deep_view().detect_any =~= middleman_type().detect_any);
    t
}

pub open spec fn rails_type() -> TypeDefView {
    TypeDefView {
        name: Some("Rails"@),
        priority: 20,
        detect: seq!["Gemfile"@],
        detect_any: seq![],
        commands: Map::empty().insert("install"@, seq![plain_candidate("bundle install"@)]).insert(
            "migrate"@,
            seq![plain_candidate("bin/rails db:migrate"@)],
        ).insert("console"@, seq![plain_candidate("bin/rails c"@)]).insert(
            "start"@,
            seq![path_candidate("bin/dev"@, "bin/dev"@), plain_candidate("bin/rails s"@)],
        ).insert(
            "test"@,
            seq![
                path_candidate("bin/rspec spec/"@, "spec"@),
                path_candidate("bin/rails test"@, "test"@),
            ],
        ).insert(
            "routes"@,
            seq![
                bin_candidate("bin/rails routes | fzf -e"@, "fzf"@),
                plain_candidate("bin/rails routes"@),
            ],
        ).insert("deploy"@, kamal_deploy()),
    }
}

fn rails() -> (t: TypeDef)
    ensures
        t.deep_view() == rails_type(),
{
    let mut commands: Commands = Table::new();
    commands.insert(String::from_str("install"), one(plain("bundle install")));
    commands.insert(String::from_str("migrate"), one(plain("bin/rails db:migrate")));
    commands.insert(String::from_str("console"), one(plain("bin/rails c")));
    commands.insert(
        String::from_str("start"),
        two(when_path("bin/dev", "bin/dev"), plain("bin/rails s")),
    );
    commands.insert(
        String::from_str("test"),
        two(when_path("bin/rspec spec/", "spec"), when_path("bin/rails test", "test")),
    );
    commands.insert(
        String::from_str("routes"),
        two(when_bin("bin/rails routes | fzf -e", "fzf"), plain("bin/rails routes")),
    );
    commands.insert(String::from_str("deploy"), kamal());
    let detect = markers(&["Gemfile"]);
    let t = TypeDef {
        name: Some(String::from_str("Rails")),
        priority: 20,
        detect,
        detect_any: Vec::new(),
        commands,
    };
    assert(t.deep_view().detect =~= rails_type().detect);
    assert(t.deep_view().detect_any =~= rails_type().detect_any);
    t
}

pub open spec fn anchor_type() -> TypeDefView {
    TypeDefView {
        name: Some("Anchor"@),
        priority: 30,
        detect: seq!["Anchor.toml"@],
        detect_any: seq![],
        commands: Map::empty().insert("install"@, seq![plain_candidate("anchor build"@)]).insert(
            "start"@,
            seq![plain_candidate("anchor localnet"@)],
        ).insert("test"@, seq![plain_candidate("anchor test"@)]).insert(
            "deploy"@,
            seq![plain_candidate("anchor deploy"@)],
        ),
    }
}

fn anchor() -> (t: TypeDef)
    ensures
        t.deep_view() == anchor_type(),
{
    let mut commands: Commands = Table::new();
    commands.insert(String::from_str("install"), one(plain("anchor build")));
    commands.insert(String::from_str("start"), one(plain("anchor localnet")));
    commands.insert(String::from_str("test"), one(plain("anchor test")));
    commands.insert(String::from_str("deploy"), one(plain("anchor deploy")));
    let detect = markers(&["Anchor.toml"]);
    let t = TypeDef {
        name: Some(String::from_str("Anchor")),
        priority: 30,
        detect,
        detect_any: Vec::new(),
        commands,
    };
    assert(t.deep_view().detect =~= anchor_type().detect);
    assert(t.deep_view().detect_any =~= anchor_type().detect_any);
    t
}

pub open spec fn rust_type() -> TypeDefView {
    TypeDefView {
        name: Some("Rust"@),
        priority: 40,
        detect: seq!["Cargo.toml"@],
        detect_any: seq![],
        commands: Map::empty().insert("install"@, seq![plain_candidate("cargo build"@)]).insert(
            "start"@,
            seq![plain_candidate("cargo run"@)],
        ).insert("test"@, seq![plain_candidate("cargo test"@)]).insert("deploy"@, kamal_deploy()),
    }
}

fn rust() -> (t: TypeDef)
    ensures
        t.deep_view() == rust_type(),
{
    let mut commands: Commands = Table::new();
    commands.insert(String::from_str("install"), one(plain("cargo build")));
    commands.insert(String::from_str("start"), one(plain("cargo run")));
    commands.insert(String::from_str("test"), one(plain("cargo test")));
    commands.insert(String::from_str("deploy"), kamal());
    let detect = markers(&["Cargo.toml"]);
    let t = TypeDef {
        name: Some(String::from_str("Rust")),
        priority: 40,
        detect,
        detect_any: Vec::new(),
        commands,
    };
    assert(t.deep_view().detect =~= rust_type().detect);
    assert(t.deep_view().detect_any =~= rust_type().detect_any);
    t
}

pub open spec fn nextjs_type() -> TypeDefView {
    TypeDefView {
        name: Some("NextJS"@),
        priority: 50,
        detect: seq!["package.json"@],
        detect_any: seq!["next.config.js"@, "next.config.mjs"@, "next.config.ts"@],
        commands: Map::empty().insert("install"@, seq![plain_candidate("npm install"@)]).insert(
            "start"@,
            seq![plain_candidate("npm run dev"@)],
        ).insert("test"@, seq![plain_candidate("npm test"@)]).insert("deploy"@, kamal_deploy()),
    }
}

fn nextjs() -> (t: TypeDef)
    ensures
        t.deep_view() == nextjs_type(),
{
    let mut commands: Commands = Table::new();
    commands.insert(String::from_str("install"), one(plain("npm install")));
    commands.insert(String::from_str("start"), one(plain("npm run dev")));
    commands.insert(String::from_str("test"), one(plain("npm test")));
    commands.insert(String::from_str("deploy"), kamal());
    let detect = markers(&["package.json"]);
    let detect_any = markers(&["next.config.js", "next.config.mjs", "next.config.ts"]);
    let t = TypeDef { name: Some(String::from_str("NextJS")), priority: 50, detect, detect_any, commands };
    assert(t.deep_view().detect =~= nextjs_type().detect);
    assert(t.deep_view().detect_any =~= nextjs_type().detect_any);
    t
}

pub open spec fn nodejs_type() -> TypeDefView {
    TypeDefView {
        name: Some("Nodejs"@),
        priority: 60,
        detect: seq!["package.json"@],
        detect_any: seq![],
        commands: Map::empty().insert("install"@, seq![plain_candidate("npm install"@)]).insert(
            "start"@,
            seq![plain_candidate("npm start"@)],
        ).insert("test"@, seq![plain_candidate("npm test"@)]).insert("deploy"@, kamal_deploy()),
    }
}

fn nodejs() -> (t: TypeDef)
    ensures
        t.deep_view() == nodejs_type(),
{
    let mut commands: Commands = Table::new();
    commands.insert(String::from_str("install"), one(plain("npm install")));
    commands.insert(String::from_str("start"), one(plain("npm start")));
    commands.insert(String::from_str("test"), one(plain("npm test")));
    commands.insert(String::from_str("deploy"), kamal());
    let detect = markers(&["package.json"]);
    let t = TypeDef {
        name: Some(String::from_str("Nodejs")),
        priority: 60,
        detect,
        detect_any: Vec::new(),
        commands,
    };
    assert(t.deep_view().detect =~= nodejs_type().detect);
    assert(t.deep_view().detect_any =~= nodejs_type().detect_any);
    t
}

// ------------------------------------------------------------ the built-ins

/// The built-in types in detection order: lower priority first.
pub open spec fn builtin_type_list() -> Seq<(Seq<char>, TypeDefView)> {
    seq![
        ("middleman"@, middleman_type()),
        ("rails"@, rails_type()),
        ("anchor"@, anchor_type()),
        ("rust"@, rust_type()),
        ("nextjs"@, nextjs_type()),
        ("nodejs"@, nodejs_type()),
    ]
}

/// The label a built-in definition file carries in errors.
pub open spec fn builtin_source(key: Seq<char>) -> Seq<char> {
    "built-in "@ + key + ".toml"@
}

/// Every file declares exactly the type listed at its place, so the types
/// of all the files are the list itself.
proof fn lemma_all_types_of_singles(
    files: Seq<(Seq<char>, DefinitionFile)>,
    list: Seq<(Seq<char>, TypeDefView)>,
)
    requires
        files.len() == list.len(),
        forall|i: int| 0 <= i < files.len() ==> #[trigger] files[i].1.types.entries() == seq![list[i]],
    ensures
        all_types(files) == list,
    decreases files.len(),
{
    if files.len() > 0 {
        let n = files.len() - 1;
        lemma_all_types_of_singles(files.drop_last(), list.drop_last());
        assert(files[n].1.types.entries() == seq![list[n]]);
        assert(list =~= list.drop_last() + seq![list[n]]);
    }
}

/// Sorting what is already in priority order changes nothing.
pub proof fn lemma_sort_sorted(s: Seq<(Seq<char>, TypeDefView)>)
    requires
        priority_sorted(s),
    ensures
        sort_by_priority(s) == s,
    decreases s.len(),
{
    if s.len() > 0 {
        let rest = s.drop_last();
        assert(priority_sorted(rest));
        lemma_sort_sorted(rest);
        let p = s.last().1.priority;
        let q = |i: int| rest[i].1.priority > p;
        assert forall|j: int| 0 <= j < rest.len() implies !#[trigger] q(j) by {
            assert(s[j].1.priority <= s[s.len() - 1].1.priority);
        }
        lemma_first_where_none(rest.len() as int, q);
        assert(insert_pos(rest, p) == rest.len());
        assert(rest.insert(rest.len() as int, s.last()) =~= s);
    }
}

fn builtin_file(key: &str, t: TypeDef) -> (r: (String, DefinitionFile))
    ensures
        r.0@ == builtin_source(key@),
        r.1.commands@ == Map::<Seq<char>, Seq<CandidateView>>::empty(),
        r.1.types.entries() == seq![(key@, t.deep_view())],
{
    let mut source = String::from_str("built-in ");
    source.append(key);
    source.append(".toml");
    let types = Table::single(String::from_str(key), t);
    (source, DefinitionFile { commands: Table::new(), types })
}

/// The built-in definition files, one per type, in detection order.
fn builtin_files() -> (files: Vec<(String, DefinitionFile)>)
    ensures
        files.len() == builtin_type_list().len(),
        forall|i: int|
            0 <= i < files.len() ==> {
                &&& #[trigger] files[i].0@ == builtin_source(builtin_type_list()[i].0)
                &&& files[i].1.commands@ == Map::<Seq<char>, Seq<CandidateView>>::empty()
                &&& files[i].1.types.entries() == seq![builtin_type_list()[i]]
            },
{
    let mut files: Vec<(String, DefinitionFile)> = Vec::new();
    files.push(builtin_file("middleman", middleman()));
    files.push(builtin_file("rails", rails()));
    files.push(builtin_file("anchor", anchor()));
    files.push(builtin_file("rust", rust()));
    files.push(builtin_file("nextjs", nextjs()));
    files.push(builtin_file("nodejs", nodejs()));
    files
}

/// The built-in project types in detection order (lower priority first),
/// each with its key. The built-in definitions are well formed, so this
/// never fails.
pub fn builtin_types() -> (r: Result<Vec<(String, TypeDef)>, DefinitionError>)
    ensures
        r matches Ok(v) && v.deep_view() == builtin_type_list(),
{
    let files = builtin_files();
    proof {
        let fv = files_view(files@);
        let list = builtin_type_list();
        assert forall|i: int| 0 <= i < fv.len() implies #[trigger] fv[i].1.types.entries() == seq![
            list[i],
        ] by {
            assert(files@[i] == files[i]);
        }
        lemma_all_types_of_singles(fv, list);
        let p = |i: int| fv[i].1.commands@ != Map::<Seq<char>, Seq<CandidateView>>::empty();
        assert forall|j: int| 0 <= j < fv.len() implies !#[trigger] p(j) by {
            assert(files@[j] == files[j]);
        }
        lemma_first_where_none(fv.len() as int, p);
        assert(priority_sorted(list));
        lemma_sort_sorted(list);
    }
    collect_types(files)
}

} // verus!
