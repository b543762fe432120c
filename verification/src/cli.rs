//! The command-line surface: which names `qq` offers, what each one runs,
//! and the text it shows. The program around it parses arguments, prompts,
//! prints and spawns the shell; it asks this module what to do.

use crate::config::AllowOutcome;
use crate::resolver::{command_run, contains_str, Probe, Resolution};
use crate::text::{byte_prefix, starts_with, str_eq};
use vstd::prelude::*;

verus! {

// ------------------------------------------------------------ the names

/// The seven standard project commands, in their traditional help order.
pub open spec fn canonical_commands() -> Seq<Seq<char>> {
    seq!["install"@, "migrate"@, "console"@, "start"@, "test"@, "routes"@, "deploy"@]
}

/// The standard project commands, in help order.
pub fn canonical_command_list() -> (v: Vec<&'static str>)
    ensures
        v@.map_values(|s: &'static str| s@) == canonical_commands(),
{
    let v = vec!["install", "migrate", "console", "start", "test", "routes", "deploy"];
    assert(v@.map_values(|s: &'static str| s@) =~= canonical_commands());
    v
}

/// The git shortcuts: name, shell command, description. They are fixed and
/// no config can change them.
pub open spec fn git_shortcuts() -> Seq<(Seq<char>, Seq<char>, Seq<char>)> {
    seq![
        ("g"@, "git status"@, "Run git status"@),
        ("gl"@, "git log"@, "Run git log"@),
        ("gp"@, "git pull"@, "Run git pull"@),
        ("gP"@, "git push"@, "Run git push"@),
        ("gm"@, "git checkout main"@, "Switch to main branch"@),
        ("ga"@, "git commit --amend --no-edit"@, "Run git amend"@),
        ("gM"@, "git merge -"@, "Merge previous branch"@),
    ]
}

/// The git shortcuts as (name, shell command, description).
pub fn git_shortcut_list() -> (v: Vec<(&'static str, &'static str, &'static str)>)
    ensures
        v@.map_values(|t: (&'static str, &'static str, &'static str)| (t.0@, t.1@, t.2@))
            == git_shortcuts(),
{
    let v = vec![
        ("g", "git status", "Run git status"),
        ("gl", "git log", "Run git log"),
        ("gp", "git pull", "Run git pull"),
        ("gP", "git push", "Run git push"),
        ("gm", "git checkout main", "Switch to main branch"),
        ("ga", "git commit --amend --no-edit", "Run git amend"),
        ("gM", "git merge -", "Merge previous branch"),
    ];
    assert(v@.map_values(|t: (&'static str, &'static str, &'static str)| (t.0@, t.1@, t.2@))
        =~= git_shortcuts());
    v
}

/// The names a config can never claim: the git shortcuts and the built-in
/// verbs.
pub open spec fn reserved_names() -> Seq<Seq<char>> {
    seq!["g"@, "gl"@, "gp"@, "gP"@, "gm"@, "ga"@, "gM"@, "help"@, "exit"@, "allow"@]
}

/// Whether `v` holds `x`, by view.
fn contains_name(v: &Vec<&'static str>, x: &str) -> (b: bool)
    ensures
        b == v@.map_values(|s: &'static str| s@).contains(x@),
{
    let ghost m = v@.map_values(|s: &'static str| s@);
    let mut i: usize = 0;
    while i < v.len()
        invariant
            m == v@.map_values(|s: &'static str| s@),
            0 <= i <= v.len(),
            forall|j: int| 0 <= j < i ==> m[j] != x@,
        decreases v.len() - i,
    {
        if str_eq(v[i], x) {
            assert(m[i as int] == x@);
            return true;
        }
        i = i + 1;
    }
    assert(!m.contains(x@)) by {
        if m.contains(x@) {
            let k = choose|k: int| 0 <= k < m.len() && m[k] == x@;
            assert(m[k] != x@);
        }
    }
    false
}

/// Whether `name` is one of the standard project commands.
pub fn is_canonical(name: &str) -> (b: bool)
    ensures
        b == canonical_commands().contains(name@),
{
    contains_name(&canonical_command_list(), name)
}

/// Whether `name` is reserved.
pub fn is_reserved(name: &str) -> (b: bool)
    ensures
        b == reserved_names().contains(name@),
{
    let v = vec!["g", "gl", "gp", "gP", "gm", "ga", "gM", "help", "exit", "allow"];
    assert(v@.map_values(|s: &'static str| s@) =~= reserved_names());
    contains_name(&v, name)
}

/// The shell command of the git shortcut called `name`, if there is one.
pub open spec fn git_shortcut_spec(name: Seq<char>) -> Option<Seq<char>> {
    if exists|i: int| 0 <= i < git_shortcuts().len() && #[trigger] git_shortcuts()[i].0 == name {
        Some(git_shortcuts()[choose|i: int| 0 <= i < git_shortcuts().len() && #[trigger] git_shortcuts()[i].0 == name].1)
    } else {
        None
    }
}

/// Shortcut names are distinct.
proof fn lemma_git_names_distinct()
    ensures
        forall|i: int, j: int|
            0 <= i < j < git_shortcuts().len() ==> #[trigger] git_shortcuts()[i].0 != #[trigger] git_shortcuts()[j].0,
{
    reveal_strlit("g");
    reveal_strlit("gl");
    reveal_strlit("gp");
    reveal_strlit("gP");
    reveal_strlit("gm");
    reveal_strlit("ga");
    reveal_strlit("gM");
    assert forall|i: int, j: int|
        0 <= i < j < git_shortcuts().len() implies #[trigger] git_shortcuts()[i].0
        != #[trigger] git_shortcuts()[j].0 by {
        let a = git_shortcuts()[i].0;
        let b = git_shortcuts()[j].0;
        if a.len() == b.len() {
            assert(a[a.len() - 1] != b[b.len() - 1] || a[0] != b[0]);
        }
    }
}

/// The shell command a git shortcut runs.
pub fn git_shortcut(name: &str) -> (r: Option<&'static str>)
    ensures
        match r {
            Some(s) => git_shortcut_spec(name@) == Some(s@),
            None => git_shortcut_spec(name@) is None,
        },
{
    let list = git_shortcut_list();
    let ghost m = list@.map_values(|t: (&'static str, &'static str, &'static str)| (t.0@, t.1@, t.2@));
    proof {
        lemma_git_names_distinct();
    }
    let mut i: usize = 0;
    while i < list.len()
        invariant
            m == git_shortcuts(),
            m == list@.map_values(|t: (&'static str, &'static str, &'static str)| (t.0@, t.1@, t.2@)),
            forall|i: int, j: int| 0 <= i < j < m.len() ==> #[trigger] m[i].0 != #[trigger] m[j].0,
            0 <= i <= list.len(),
            forall|j: int| 0 <= j < i ==> m[j].0 != name@,
        decreases list.len() - i,
    {
        if str_eq(list[i].0, name) {
            proof {
                assert(m[i as int].0 == name@);
                let k = choose|k: int| 0 <= k < m.len() && #[trigger] m[k].0 == name@;
                if k != i {
                    assert(m[k].0 != m[i as int].0);
                }
            }
            return Some(list[i].1);
        }
        i = i + 1;
    }
    None
}

// ------------------------------------------------------------ descriptions

/// The help text of a project command.
pub open spec fn about_spec(name: Seq<char>) -> Seq<char> {
    if name == "install"@ {
        "Installs dependencies for the project"@
    } else if name == "migrate"@ {
        "Runs database migrations"@
    } else if name == "console"@ {
        "Runs console"@
    } else if name == "start"@ {
        "Starts the project"@
    } else if name == "test"@ {
        "Run tests"@
    } else if name == "routes"@ {
        "Show Routes"@
    } else if name == "deploy"@ {
        "Deploy with Kamal"@
    } else {
        "Run a project command"@
    }
}

pub fn about_for(name: &str) -> (r: &'static str)
    ensures
        r@ == about_spec(name@),
{
    if str_eq(name, "install") {
        "Installs dependencies for the project"
    } else if str_eq(name, "migrate") {
        "Runs database migrations"
    } else if str_eq(name, "console") {
        "Runs console"
    } else if str_eq(name, "start") {
        "Starts the project"
    } else if str_eq(name, "test") {
        "Run tests"
    } else if str_eq(name, "routes") {
        "Show Routes"
    } else if str_eq(name, "deploy") {
        "Deploy with Kamal"
    } else {
        "Run a project command"
    }
}

/// The one-letter alias of a standard project command.
pub open spec fn alias_spec(name: Seq<char>) -> Option<Seq<char>> {
    if name == "install"@ {
        Some("i"@)
    } else if name == "migrate"@ {
        Some("m"@)
    } else if name == "console"@ {
        Some("c"@)
    } else if name == "start"@ {
        Some("s"@)
    } else if name == "test"@ {
        Some("t"@)
    } else if name == "routes"@ {
        Some("r"@)
    } else if name == "deploy"@ {
        Some("d"@)
    } else {
        None
    }
}

pub fn alias_for(name: &str) -> (r: Option<&'static str>)
    ensures
        match r {
            Some(s) => alias_spec(name@) == Some(s@),
            None => alias_spec(name@) is None,
        },
{
    if str_eq(name, "install") {
        Some("i")
    } else if str_eq(name, "migrate") {
        Some("m")
    } else if str_eq(name, "console") {
        Some("c")
    } else if str_eq(name, "start") {
        Some("s")
    } else if str_eq(name, "test") {
        Some("t")
    } else if str_eq(name, "routes") {
        Some("r")
    } else if str_eq(name, "deploy") {
        Some("d")
    } else {
        None
    }
}

// ------------------------------------------------------------ listing

/// The project commands of a resolution, from its command names in key
/// order: the standard ones it has, in help order, then the others that are
/// not reserved, in key order. A config can never shadow a reserved name.
pub open spec fn command_list_spec(keys: Seq<Seq<char>>) -> Seq<Seq<char>> {
    canonical_commands().filter(|c: Seq<char>| keys.contains(c)) + keys.filter(
        |n: Seq<char>| !canonical_commands().contains(n) && !reserved_names().contains(n),
    )
}

/// The project commands on offer, standard ones first.
pub fn command_list(resolution: &Resolution) -> (list: Vec<String>)
    ensures
        list.deep_view() == command_list_spec(resolution.command_keys()),
{
    let names = resolution.command_names();
    let ghost keys = names.deep_view();
    let canon = canonical_command_list();
    let ghost cv = canon@.map_values(|s: &'static str| s@);
    let ghost f1 = |c: Seq<char>| keys.contains(c);
    let ghost f2 = |n: Seq<char>| !canonical_commands().contains(n) && !reserved_names().contains(n);
    let mut list: Vec<String> = Vec::new();
    let mut i: usize = 0;
    while i < canon.len()
        invariant
            keys == names.deep_view(),
            cv == canon@.map_values(|s: &'static str| s@),
            cv == canonical_commands(),
            f1 == (|c: Seq<char>| keys.contains(c)),
            0 <= i <= canon.len(),
            list.deep_view() == cv.take(i as int).filter(f1),
        decreases canon.len() - i,
    {
        let ghost before = list.deep_view();
        if contains_str(&names, canon[i]) {
            list.push(String::from_str(canon[i]));
        }
        proof {
            reveal(Seq::filter);
            assert(cv.take(i as int + 1).drop_last() =~= cv.take(i as int));
            assert(list.deep_view() =~= cv.take(i as int + 1).filter(f1));
        }
        i = i + 1;
    }
    assert(cv.take(canon.len() as int) =~= cv);
    let ghost head = list.deep_view();
    let mut j: usize = 0;
    while j < names.len()
        invariant
            keys == names.deep_view(),
            f2 == (|n: Seq<char>| !canonical_commands().contains(n) && !reserved_names().contains(n)),
            0 <= j <= names.len(),
            list.deep_view() == head + keys.take(j as int).filter(f2),
        decreases names.len() - j,
    {
        let ghost before = list.deep_view();
        let keep = !is_canonical(names[j].as_str()) && !is_reserved(names[j].as_str());
        if keep {
            list.push(names[j].clone());
        }
        proof {
            reveal(Seq::filter);
            assert(keep == f2(keys[j as int]));
            if keep {
                assert(list.deep_view() =~= before.push(keys[j as int]));
            } else {
                assert(list.deep_view() =~= before);
            }
            assert(keys.take(j as int + 1).drop_last() =~= keys.take(j as int));
            assert(keys[j as int] == names[j as int]@);
            assert(list.deep_view() =~= head + keys.take(j as int + 1).filter(f2));
        }
        j = j + 1;
    }
    assert(keys.take(names.len() as int) =~= keys);
    assert(keys == resolution.command_keys());
    list
}

/// The standard commands are not reserved.
proof fn lemma_canonical_not_reserved()
    ensures
        forall|i: int|
            0 <= i < canonical_commands().len() ==> !reserved_names().contains(
                #[trigger] canonical_commands()[i],
            ),
{
    reveal_strlit("install");
    reveal_strlit("migrate");
    reveal_strlit("console");
    reveal_strlit("start");
    reveal_strlit("test");
    reveal_strlit("routes");
    reveal_strlit("deploy");
    reveal_strlit("g");
    reveal_strlit("gl");
    reveal_strlit("gp");
    reveal_strlit("gP");
    reveal_strlit("gm");
    reveal_strlit("ga");
    reveal_strlit("gM");
    reveal_strlit("help");
    reveal_strlit("exit");
    reveal_strlit("allow");
    assert forall|i: int| 0 <= i < canonical_commands().len() implies !reserved_names().contains(
        #[trigger] canonical_commands()[i],
    ) by {
        let c = canonical_commands()[i];
        if reserved_names().contains(c) {
            let k = choose|k: int| 0 <= k < reserved_names().len() && reserved_names()[k] == c;
            assert(c.len() == reserved_names()[k].len());
            assert(c[0] == reserved_names()[k][0]);
        }
    }
}

/// The listed commands are exactly the resolution's commands that are not
/// reserved, each once: a config can never shadow a reserved name, and
/// everything else it defines is offered.
pub proof fn lemma_command_list_members(keys: Seq<Seq<char>>, name: Seq<char>)
    ensures
        command_list_spec(keys).contains(name) <==> keys.contains(name) && !reserved_names().contains(
            name,
        ),
{
    broadcast use vstd::seq_lib::group_filter_ensures;

    let f1 = |c: Seq<char>| keys.contains(c);
    let f2 = |n: Seq<char>| !canonical_commands().contains(n) && !reserved_names().contains(n);
    let a = canonical_commands().filter(f1);
    let b = keys.filter(f2);
    lemma_canonical_not_reserved();
    if command_list_spec(keys).contains(name) {
        let k = choose|k: int| 0 <= k < (a + b).len() && (a + b)[k] == name;
        if k < a.len() {
            assert(a[k] == name);
            assert(f1(a[k]));
            assert(a.contains(name));
            canonical_commands().lemma_filter_contains_rev(f1, name);
            let i = choose|i: int| 0 <= i < canonical_commands().len() && canonical_commands()[i] == name;
            assert(!reserved_names().contains(canonical_commands()[i]));
        } else {
            assert(b[k - a.len()] == name);
            assert(f2(b[k - a.len()]));
            keys.lemma_filter_contains_rev(f2, name);
        }
    }
    if keys.contains(name) && !reserved_names().contains(name) {
        if canonical_commands().contains(name) {
            let i = choose|i: int| 0 <= i < canonical_commands().len() && canonical_commands()[i] == name;
            assert(a.contains(name));
            let k = choose|k: int| 0 <= k < a.len() && a[k] == name;
            assert((a + b)[k] == name);
        } else {
            let i = choose|i: int| 0 <= i < keys.len() && keys[i] == name;
            assert(b.contains(name));
            let k = choose|k: int| 0 <= k < b.len() && b[k] == name;
            assert((a + b)[a.len() + k] == name);
        }
    }
}

// ------------------------------------------------------------ running

/// What a command name leads to.
#[derive(Debug)]
pub enum Dispatch {
    /// Run this shell command.
    Run(String),
    /// A known command that this project type does not support.
    NotSupported,
    /// A name nothing knows.
    NotRecognized,
}

/// A name is known when it is a standard command or the resolution has it.
pub open spec fn known_command(resolution: Resolution, name: Seq<char>) -> bool {
    canonical_commands().contains(name) || resolution.command_map().contains_key(name)
}

/// What running `cmd` does: a git shortcut always runs its git command;
/// otherwise the resolution's first passing candidate runs; a known command
/// with none is not supported, anything else is not recognized.
pub fn dispatch(cmd: &str, resolution: &Resolution, probe: &Probe) -> (d: Dispatch)
    ensures
        match git_shortcut_spec(cmd@) {
            Some(shell) => d matches Dispatch::Run(s) && s@ == shell,
            None => match command_run(*probe, resolution.command_map(), cmd@) {
                Some(run) => d matches Dispatch::Run(s) && s@ == run,
                None => if known_command(*resolution, cmd@) {
                    d is NotSupported
                } else {
                    d is NotRecognized
                },
            },
        },
{
    match git_shortcut(cmd) {
        Some(shell) => {
            return Dispatch::Run(String::from_str(shell));
        },
        None => {},
    }
    match resolution.command(cmd, probe) {
        Some(command) => Dispatch::Run(command),
        None => {
            let names = resolution.command_names();
            proof {
                if resolution.command_map().contains_key(cmd@) {
                    let i = choose|i: int| 0 <= i < names.len() && #[trigger] names[i]@ == cmd@;
                    assert(names.deep_view()[i] == cmd@);
                }
                if names.deep_view().contains(cmd@) {
                    let i = choose|i: int| 0 <= i < names.deep_view().len() && names.deep_view()[i] == cmd@;
                    assert(names[i]@ == cmd@);
                }
            }
            if is_canonical(cmd) || contains_str(&names, cmd) {
                Dispatch::NotSupported
            } else {
                Dispatch::NotRecognized
            }
        },
    }
}

/// The message for a known command this project type does not support.
pub fn not_supported_message(cmd: &str) -> (m: String)
    ensures
        m@ == "'"@ + cmd@ + "' command not supported for this project type."@,
{
    let mut m = String::from_str("'");
    m.append(cmd);
    m.append("' command not supported for this project type.");
    m
}

// ------------------------------------------------------------ the menu

/// What the interactive menu offers: the project commands, the git
/// shortcuts, then `allow`, `help` and `exit`.
pub open spec fn menu_suggestions_spec(keys: Seq<Seq<char>>) -> Seq<Seq<char>> {
    command_list_spec(keys) + git_shortcuts().map_values(
        |t: (Seq<char>, Seq<char>, Seq<char>)| t.0,
    ) + seq!["allow"@, "help"@, "exit"@]
}

pub fn menu_suggestions(resolution: &Resolution) -> (v: Vec<String>)
    ensures
        v.deep_view() == menu_suggestions_spec(resolution.command_keys()),
{
    let mut v = command_list(resolution);
    let ghost head = v.deep_view();
    let git = git_shortcut_list();
    let ghost gm = git@.map_values(|t: (&'static str, &'static str, &'static str)| (t.0@, t.1@, t.2@));
    let ghost names = git_shortcuts().map_values(|t: (Seq<char>, Seq<char>, Seq<char>)| t.0);
    let mut i: usize = 0;
    while i < git.len()
        invariant
            gm == git@.map_values(|t: (&'static str, &'static str, &'static str)| (t.0@, t.1@, t.2@)),
            gm == git_shortcuts(),
            names == git_shortcuts().map_values(|t: (Seq<char>, Seq<char>, Seq<char>)| t.0),
            0 <= i <= git.len(),
            v.deep_view() == head + names.take(i as int),
        decreases git.len() - i,
    {
        let ghost before = v.deep_view();
        v.push(String::from_str(git[i].0));
        proof {
            assert(gm[i as int].0 == git[i as int].0@);
            assert(names[i as int] == git_shortcuts()[i as int].0);
            assert(v.deep_view() =~= before.push(names[i as int]));
            assert(names.take(i as int + 1) =~= names.take(i as int).push(names[i as int]));
            assert(v.deep_view() =~= head + names.take(i as int + 1));
        }
        i = i + 1;
    }
    assert(names.take(git.len() as int) =~= names);
    v.push(String::from_str("allow"));
    v.push(String::from_str("help"));
    v.push(String::from_str("exit"));
    assert(v.deep_view() =~= menu_suggestions_spec(resolution.command_keys()));
    v
}

/// The suggestions that start with what was typed so far, in order.
pub fn complete(suggestions: &Vec<String>, typed: &str) -> (v: Vec<String>)
    ensures
        v.deep_view() == suggestions.deep_view().filter(|s: Seq<char>| byte_prefix(typed@, s)),
{
    let ghost all = suggestions.deep_view();
    let ghost f = |s: Seq<char>| byte_prefix(typed@, s);
    let mut v: Vec<String> = Vec::new();
    let mut i: usize = 0;
    while i < suggestions.len()
        invariant
            all == suggestions.deep_view(),
            f == (|s: Seq<char>| byte_prefix(typed@, s)),
            0 <= i <= suggestions.len(),
            v.deep_view() == all.take(i as int).filter(f),
        decreases suggestions.len() - i,
    {
        let ghost before = v.deep_view();
        let keep = starts_with(suggestions[i].as_str(), typed);
        if keep {
            v.push(suggestions[i].clone());
        }
        proof {
            reveal(Seq::filter);
            assert(all.take(i as int + 1).drop_last() =~= all.take(i as int));
            assert(all[i as int] == suggestions[i as int]@);
            if keep {
                assert(v.deep_view() =~= before.push(all[i as int]));
            } else {
                assert(v.deep_view() =~= before);
            }
            assert(v.deep_view() =~= all.take(i as int + 1).filter(f));
        }
        i = i + 1;
    }
    assert(all.take(suggestions.len() as int) =~= all);
    v
}

/// What the user chose at the prompt.
#[derive(Debug)]
pub enum MenuChoice {
    Exit,
    Help,
    Allow,
    /// Run the command with this name.
    Execute(String),
}

pub fn menu_choice(input: String) -> (c: MenuChoice)
    ensures
        input@ == "exit"@ ==> c is Exit,
        input@ == "help"@ ==> c is Help,
        input@ == "allow"@ ==> c is Allow,
        input@ != "exit"@ && input@ != "help"@ && input@ != "allow"@ ==> (c matches MenuChoice::Execute(
            s,
        ) && s@ == input@),
{
    proof {
        reveal_strlit("exit");
        reveal_strlit("help");
        reveal_strlit("allow");
        assert("help"@[0] != "exit"@[0]);
        assert("allow"@.len() != "exit"@.len() && "allow"@.len() != "help"@.len());
    }
    if str_eq(input.as_str(), "exit") {
        MenuChoice::Exit
    } else if str_eq(input.as_str(), "help") {
        MenuChoice::Help
    } else if str_eq(input.as_str(), "allow") {
        MenuChoice::Allow
    } else {
        MenuChoice::Execute(input)
    }
}

// ------------------------------------------------------------ text

/// `s` padded with spaces on the right to `width` characters.
pub open spec fn pad_spec(s: Seq<char>, width: nat) -> Seq<char> {
    if s.len() < width {
        s + Seq::new((width - s.len()) as nat, |i: int| ' ')
    } else {
        s
    }
}

/// A help line: the name padded to seven characters, then its description.
pub open spec fn help_line(name: Seq<char>, about: Seq<char>) -> Seq<char> {
    "  "@ + pad_spec(name, 7) + " - "@ + about
}

fn help_line_exec(name: &str, about: &str) -> (line: String)
    ensures
        line@ == help_line(name@, about@),
{
    let mut line = String::from_str("  ");
    line.append(name);
    let n = name.unicode_len();
    let mut k = n;
    while k < 7
        invariant
            n == name@.len(),
            n <= k <= 7 || (k == n && n >= 7),
            line@ == "  "@ + name@ + Seq::new((k - n) as nat, |i: int| ' '),
        decreases 7 - k,
    {
        proof {
            reveal_strlit(" ");
        }
        line.append(" ");
        assert(line@ =~= "  "@ + name@ + Seq::new((k + 1 - n) as nat, |i: int| ' '));
        k = k + 1;
    }
    line.append(" - ");
    proof {
        if n >= 7 {
            assert(Seq::new((k - n) as nat, |i: int| ' ') =~= Seq::<char>::empty());
        }
        assert(line@ =~= help_line(name@, about@).take(line@.len() as int));
    }
    line.append(about);
    assert(line@ =~= help_line(name@, about@));
    line
}

/// The lines `help` prints, in order.
pub open spec fn help_lines_spec(keys: Seq<Seq<char>>) -> Seq<Seq<char>> {
    seq!["Available commands:"@] + command_list_spec(keys).map_values(
        |n: Seq<char>| help_line(n, about_spec(n)),
    ) + git_shortcuts().map_values(|t: (Seq<char>, Seq<char>, Seq<char>)| help_line(t.0, t.2))
        + seq![
        "  allow   - Trust this directory's .qq.toml config"@,
        "  exit    - Exit the program"@,
        "  help    - Show this help message"@,
    ]
}

pub fn help_lines(resolution: &Resolution) -> (lines: Vec<String>)
    ensures
        lines.deep_view() == help_lines_spec(resolution.command_keys()),
{
    let list = command_list(resolution);
    let ghost lv = list.deep_view();
    let mut lines: Vec<String> = Vec::new();
    lines.push(String::from_str("Available commands:"));
    let ghost head = lines.deep_view();
    let mut i: usize = 0;
    while i < list.len()
        invariant
            lv == list.deep_view(),
            0 <= i <= list.len(),
            lines.deep_view() == head + lv.take(i as int).map_values(
                |n: Seq<char>| help_line(n, about_spec(n)),
            ),
        decreases list.len() - i,
    {
        let ghost before = lines.deep_view();
        let line = help_line_exec(list[i].as_str(), about_for(list[i].as_str()));
        lines.push(line);
        proof {
            assert(lv[i as int] == list[i as int]@);
            assert(lines.deep_view() =~= before.push(help_line(lv[i as int], about_spec(lv[i as int]))));
            assert(lv.take(i as int + 1) =~= lv.take(i as int).push(lv[i as int]));
            assert(lines.deep_view() =~= head + lv.take(i as int + 1).map_values(
                |n: Seq<char>| help_line(n, about_spec(n)),
            ));
        }
        i = i + 1;
    }
    assert(lv.take(list.len() as int) =~= lv);
    let ghost mid = lines.deep_view();
    let git = git_shortcut_list();
    let ghost gm = git@.map_values(|t: (&'static str, &'static str, &'static str)| (t.0@, t.1@, t.2@));
    let mut j: usize = 0;
    while j < git.len()
        invariant
            gm == git@.map_values(|t: (&'static str, &'static str, &'static str)| (t.0@, t.1@, t.2@)),
            gm == git_shortcuts(),
            0 <= j <= git.len(),
            lines.deep_view() == mid + gm.take(j as int).map_values(
                |t: (Seq<char>, Seq<char>, Seq<char>)| help_line(t.0, t.2),
            ),
        decreases git.len() - j,
    {
        let ghost before = lines.deep_view();
        let line = help_line_exec(git[j].0, git[j].2);
        lines.push(line);
        proof {
            assert(gm[j as int] == (git[j as int].0@, git[j as int].1@, git[j as int].2@));
            assert(lines.deep_view() =~= before.push(help_line(gm[j as int].0, gm[j as int].2)));
            assert(gm.take(j as int + 1) =~= gm.take(j as int).push(gm[j as int]));
            assert(lines.deep_view() =~= mid + gm.take(j as int + 1).map_values(
                |t: (Seq<char>, Seq<char>, Seq<char>)| help_line(t.0, t.2),
            ));
        }
        j = j + 1;
    }
    assert(gm.take(git.len() as int) =~= gm);
    let ghost body = lines.deep_view();
    assert(body == seq!["Available commands:"@] + command_list_spec(resolution.command_keys()).map_values(
        |n: Seq<char>| help_line(n, about_spec(n)),
    ) + git_shortcuts().map_values(|t: (Seq<char>, Seq<char>, Seq<char>)| help_line(t.0, t.2)));
    lines.push(String::from_str("  allow   - Trust this directory's .qq.toml config"));
    lines.push(String::from_str("  exit    - Exit the program"));
    lines.push(String::from_str("  help    - Show this help message"));
    assert(lines.deep_view() =~= help_lines_spec(resolution.command_keys()));
    lines
}

/// The notice for a per-project config that is present but not approved.
pub fn untrusted_notice(path: &str) -> (m: String)
    ensures
        m@ == "Ignoring unapproved config "@ + path@ + " \u{2014} run 'qq allow' to trust it."@,
{
    let mut m = String::from_str("Ignoring unapproved config ");
    m.append(path);
    m.append(" \u{2014} run 'qq allow' to trust it.");
    m
}

/// What `qq` says where nothing resolves.
pub fn unsupported_message() -> (m: &'static str)
    ensures
        m@ == "Project type found in current directory is not supported."@,
{
    "Project type found in current directory is not supported."
}

/// The line naming the detected project type.
pub fn detected_line(name: &str) -> (m: String)
    ensures
        m@ == "Detected: "@ + name@,
{
    let mut m = String::from_str("Detected: ");
    m.append(name);
    m
}

/// What `qq allow` reports.
pub fn allow_message(outcome: &AllowOutcome) -> (m: String)
    ensures
        match outcome {
            AllowOutcome::Approved(path) => m@ == "Approved "@ + path@,
            AllowOutcome::NothingToApprove => m@ == "No .qq.toml found in this directory."@,
        },
{
    match outcome {
        AllowOutcome::Approved(path) => {
            let mut m = String::from_str("Approved ");
            m.append(path.as_str());
            m
        },
        AllowOutcome::NothingToApprove => String::from_str("No .qq.toml found in this directory."),
    }
}

// ------------------------------------------------------------ laws

/// Each git shortcut runs its documented git command, and no other name is
/// a shortcut.
pub proof fn lemma_git_shortcuts_run_git(name: Seq<char>)
    ensures
        git_shortcut_spec("g"@) == Some("git status"@),
        git_shortcut_spec("gl"@) == Some("git log"@),
        git_shortcut_spec("gp"@) == Some("git pull"@),
        git_shortcut_spec("gP"@) == Some("git push"@),
        git_shortcut_spec("gm"@) == Some("git checkout main"@),
        git_shortcut_spec("ga"@) == Some("git commit --amend --no-edit"@),
        git_shortcut_spec("gM"@) == Some("git merge -"@),
        name != "g"@ && name != "gl"@ && name != "gp"@ && name != "gP"@ && name != "gm"@ && name
            != "ga"@ && name != "gM"@ ==> git_shortcut_spec(name) is None,
{
    lemma_git_names_distinct();
    let t = git_shortcuts();
    let names = seq!["g"@, "gl"@, "gp"@, "gP"@, "gm"@, "ga"@, "gM"@];
    assert forall|k: int| 0 <= k < 7 implies #[trigger] git_shortcut_spec(names[k]) == Some(t[k].1) by {
        assert(t[k].0 == names[k]);
        let c = choose|i: int| 0 <= i < t.len() && #[trigger] t[i].0 == names[k];
        if c != k {
            assert(t[c].0 != t[k].0);
        }
    }
    assert(git_shortcut_spec(names[0]) == Some(t[0].1));
    assert(git_shortcut_spec(names[1]) == Some(t[1].1));
    assert(git_shortcut_spec(names[2]) == Some(t[2].1));
    assert(git_shortcut_spec(names[3]) == Some(t[3].1));
    assert(git_shortcut_spec(names[4]) == Some(t[4].1));
    assert(git_shortcut_spec(names[5]) == Some(t[5].1));
    assert(git_shortcut_spec(names[6]) == Some(t[6].1));
    if name != "g"@ && name != "gl"@ && name != "gp"@ && name != "gP"@ && name != "gm"@ && name
        != "ga"@ && name != "gM"@ {
        assert forall|i: int| 0 <= i < t.len() implies #[trigger] t[i].0 != name by {
            assert(t[i].0 == names[i]);
        }
    }
}

/// Every standard command has its documented one-letter alias, and no
/// other name has one.
pub proof fn lemma_aliases(name: Seq<char>)
    ensures
        alias_spec("install"@) == Some("i"@),
        alias_spec("migrate"@) == Some("m"@),
        alias_spec("console"@) == Some("c"@),
        alias_spec("start"@) == Some("s"@),
        alias_spec("test"@) == Some("t"@),
        alias_spec("routes"@) == Some("r"@),
        alias_spec("deploy"@) == Some("d"@),
        alias_spec(name) is Some <==> name == "install"@ || name == "migrate"@ || name == "console"@
            || name == "start"@ || name == "test"@ || name == "routes"@ || name == "deploy"@,
{
    crate::project_type_trait::lemma_command_names_distinct();
}

/// The menu offers exactly the resolution's commands and the reserved
/// names: everything `qq` can run from the prompt, config-added commands
/// included.
pub proof fn lemma_menu_offers_commands(keys: Seq<Seq<char>>, name: Seq<char>)
    ensures
        menu_suggestions_spec(keys).contains(name) <==> keys.contains(name) || reserved_names().contains(
            name,
        ),
{
    lemma_command_list_members(keys, name);
    let a = command_list_spec(keys);
    let g = git_shortcuts().map_values(|t: (Seq<char>, Seq<char>, Seq<char>)| t.0);
    let v = seq!["allow"@, "help"@, "exit"@];
    let m = menu_suggestions_spec(keys);
    assert(m == a + g + v);
    assert(g =~= seq!["g"@, "gl"@, "gp"@, "gP"@, "gm"@, "ga"@, "gM"@]);
    let w = seq!["help"@, "exit"@, "allow"@];
    assert(reserved_names() =~= g + w);
    assert(v.contains(name) <==> w.contains(name)) by {
        if v.contains(name) {
            let i = choose|i: int| 0 <= i < v.len() && v[i] == name;
            if i == 0 {
                assert(w[2] == name);
            } else if i == 1 {
                assert(w[0] == name);
            } else {
                assert(w[1] == name);
            }
        }
        if w.contains(name) {
            let i = choose|i: int| 0 <= i < w.len() && w[i] == name;
            if i == 0 {
                assert(v[1] == name);
            } else if i == 1 {
                assert(v[2] == name);
            } else {
                assert(v[0] == name);
            }
        }
    }
    lemma_concat_contains(a + g, v, name);
    lemma_concat_contains(a, g, name);
    lemma_concat_contains(g, w, name);
}

proof fn lemma_concat_contains(a: Seq<Seq<char>>, b: Seq<Seq<char>>, x: Seq<char>)
    ensures
        (a + b).contains(x) <==> a.contains(x) || b.contains(x),
{
    if a.contains(x) {
        let i = choose|i: int| 0 <= i < a.len() && a[i] == x;
        assert((a + b)[i] == x);
    }
    if b.contains(x) {
        let i = choose|i: int| 0 <= i < b.len() && b[i] == x;
        assert((a + b)[a.len() + i] == x);
    }
    if (a + b).contains(x) {
        let i = choose|i: int| 0 <= i < (a + b).len() && (a + b)[i] == x;
        if i < a.len() {
            assert(a[i] == x);
        } else {
            assert(b[i - a.len()] == x);
        }
    }
}

} // verus!
