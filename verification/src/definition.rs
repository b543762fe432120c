//! Definition schema: the one format for built-in project types and for the
//! user's config files (per-project and global). A file may declare named
//! types (detection markers and commands) and a typeless command block.
//! Each command is an ordered list of candidates; the first one whose gate
//! passes wins. Gates are a path that must exist (`when_path`) or a binary
//! that must answer (`when_bin`), nothing more.

use crate::table::{Duplicate, Table};
use vstd::prelude::*;

verus! {

/// One way to run a command, with its optional gates.
#[derive(Debug)]
pub struct Candidate {
    /// The shell command to run.
    pub run: String,
    /// Gate: relative path that must exist in the target directory.
    pub when_path: Option<String>,
    /// Gate: binary that must answer `<bin> --version` successfully.
    pub when_bin: Option<String>,
}

/// What a candidate holds, as string views.
pub struct CandidateView {
    pub run: Seq<char>,
    pub when_path: Option<Seq<char>>,
    pub when_bin: Option<Seq<char>>,
}

impl DeepView for Candidate {
    type V = CandidateView;

    open spec fn deep_view(&self) -> CandidateView {
        CandidateView {
            run: self.run@,
            when_path: self.when_path.deep_view(),
            when_bin: self.when_bin.deep_view(),
        }
    }
}

/// Copies an optional string.
pub fn duplicate_opt(o: &Option<String>) -> (r: Option<String>)
    ensures
        r.deep_view() == o.deep_view(),
{
    match o {
        Some(s) => Some(s.clone()),
        None => None,
    }
}

impl Duplicate for Candidate {
    fn duplicate(&self) -> (r: Candidate) {
        Candidate {
            run: self.run.clone(),
            when_path: duplicate_opt(&self.when_path),
            when_bin: duplicate_opt(&self.when_bin),
        }
    }
}

impl<T: Duplicate> Duplicate for Vec<T> {
    fn duplicate(&self) -> (r: Vec<T>) {
        let mut r: Vec<T> = Vec::new();
        let mut i: usize = 0;
        while i < self.len()
            invariant
                0 <= i <= self.len(),
                r.len() == i,
                forall|j: int| 0 <= j < i ==> #[trigger] r[j].deep_view() == self[j].deep_view(),
            decreases self.len() - i,
        {
            r.push(self[i].duplicate());
            i = i + 1;
        }
        assert(r.deep_view() =~= self.deep_view());
        r
    }
}

/// Command name to its candidate list.
pub type Commands = Table<Vec<Candidate>>;

/// The view of a command table.
pub type CommandsView = Map<Seq<char>, Seq<CandidateView>>;

/// A named project type: how to detect it and what its commands run.
#[derive(Debug)]
pub struct TypeDef {
    /// Display name ("Detected: {name}"); the type key stands in when absent.
    pub name: Option<String>,
    /// Detection order among types of one layer: lower runs earlier.
    pub priority: i64,
    /// Markers that must all exist in the target directory.
    pub detect: Vec<String>,
    /// Markers of which at least one must exist (empty: no constraint).
    pub detect_any: Vec<String>,
    pub commands: Commands,
}

pub struct TypeDefView {
    pub name: Option<Seq<char>>,
    pub priority: i64,
    pub detect: Seq<Seq<char>>,
    pub detect_any: Seq<Seq<char>>,
    pub commands: CommandsView,
}

impl DeepView for TypeDef {
    type V = TypeDefView;

    open spec fn deep_view(&self) -> TypeDefView {
        TypeDefView {
            name: self.name.deep_view(),
            priority: self.priority,
            detect: self.detect.deep_view(),
            detect_any: self.detect_any.deep_view(),
            commands: self.commands@,
        }
    }
}

impl Duplicate for TypeDef {
    fn duplicate(&self) -> (r: TypeDef) {
        TypeDef {
            name: duplicate_opt(&self.name),
            priority: self.priority,
            detect: self.detect.duplicate(),
            detect_any: self.detect_any.duplicate(),
            commands: self.commands.duplicate(),
        }
    }
}

/// One parsed definition file: typeless command overrides and named types.
#[derive(Debug)]
pub struct DefinitionFile {
    /// Typeless command overrides, applied to whatever type resolves.
    pub commands: Commands,
    /// Named type definitions, keyed by type key (e.g. "rails").
    pub types: Table<TypeDef>,
}

impl DefinitionFile {
    /// The file with nothing in it.
    pub fn empty() -> (f: DefinitionFile)
        ensures
            f.commands@ == Map::<Seq<char>, Seq<CandidateView>>::empty(),
            f.types@ == Map::<Seq<char>, TypeDefView>::empty(),
            f.types.entries() == Seq::<(Seq<char>, TypeDefView)>::empty(),
    {
        DefinitionFile { commands: Table::new(), types: Table::new() }
    }
}

impl Default for DefinitionFile {
    fn default() -> (f: DefinitionFile)
        ensures
            f.commands@ == Map::<Seq<char>, Seq<CandidateView>>::empty(),
            f.types@ == Map::<Seq<char>, TypeDefView>::empty(),
            f.types.entries() == Seq::<(Seq<char>, TypeDefView)>::empty(),
    {
        DefinitionFile::empty()
    }
}

/// Parse or read failure, carrying the source label (a file path or the
/// name of a built-in definition).
#[derive(Debug)]
pub struct DefinitionError {
    pub source: String,
    pub message: String,
}

impl DefinitionError {
    /// The text the error is shown with.
    pub open spec fn text(source: Seq<char>, message: Seq<char>) -> Seq<char> {
        "invalid definition in "@ + source + ": "@ + message
    }

    /// The error as the user reads it: "invalid definition in {source}: {message}".
    pub fn to_string(&self) -> (s: String)
        ensures
            s@ == Self::text(self.source@, self.message@),
    {
        let mut s = String::from_str("invalid definition in ");
        s.append(self.source.as_str());
        s.append(": ");
        s.append(self.message.as_str());
        s
    }
}

} // verus!
