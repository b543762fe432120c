//! Config discovery and the trust gate. Two user layers exist: a per-project
//! `.qq.toml` in the target directory and a global
//! `$XDG_CONFIG_HOME/qq/config.toml`. The per-project file is honored only
//! after a one-time `qq allow` approval, recorded as (absolute path, content
//! hash) in the global qq directory; approval goes stale when the file's
//! content changes. The global file is user-owned and implicitly trusted.
//!
//! Reading files, resolving paths and parsing TOML happen at the edge: the
//! functions here take what was read (see `ConfigFile`) and decide.

use crate::definition::{DefinitionError, DefinitionFile};
use crate::resolver::empty_layer;
use crate::table::Table;
use crate::text::str_eq;
use vstd::prelude::*;

verus! {

// ------------------------------------------------------------ content hash

/// The FNV-1a 64 offset basis.
pub const FNV_OFFSET: u64 = 0xcbf2_9ce4_8422_2325;

/// The FNV-1a 64 prime.
pub const FNV_PRIME: u64 = 0x0000_0100_0000_01b3;

/// FNV-1a, 64 bits, over `bytes`: deterministic across builds, which a
/// persisted approval store needs.
pub open spec fn fnv1a(bytes: Seq<u8>) -> u64
    decreases bytes.len(),
{
    if bytes.len() == 0 {
        FNV_OFFSET
    } else {
        let h = fnv1a(bytes.drop_last()) ^ (bytes.last() as u64);
        ((h as nat * FNV_PRIME as nat) % 0x1_0000_0000_0000_0000) as u64
    }
}

/// The lower-case hexadecimal digit for `d` below sixteen.
pub open spec fn hex_char(d: nat) -> char {
    "0123456789abcdef"@[d as int]
}

/// The last `n` hexadecimal digits of `h`, most significant first, in
/// lower case.
pub open spec fn hex_digits(h: nat, n: nat) -> Seq<char>
    decreases n,
{
    if n == 0 {
        Seq::empty()
    } else {
        hex_digits(h / 16, (n - 1) as nat).push(hex_char(h % 16))
    }
}

/// What an approval records for a file's content: the FNV-1a hash of its
/// UTF-8 bytes as sixteen lower-case hex digits.
pub open spec fn content_hash_spec(content: Seq<char>) -> Seq<char> {
    hex_digits(fnv1a(vstd::utf8::encode_utf8(content)) as nat, 16)
}

fn append_hex(out: &mut String, h: u64, n: u32)
    requires
        n <= 16,
    ensures
        final(out)@ == old(out)@ + hex_digits(h as nat, n as nat),
    decreases n,
{
    if n > 0 {
        append_hex(out, h / 16, n - 1);
        let digits = "0123456789abcdef";
        proof {
            reveal_strlit("0123456789abcdef");
        }
        let d = (h % 16) as usize;
        let c = digits.substring_ascii(d, d + 1);
        out.append(c);
        assert(c@ =~= seq![hex_char((h % 16) as nat)]);
        assert(out@ =~= old(out)@ + hex_digits(h as nat, n as nat));
    }
}

/// FNV-1a 64 of the content's bytes, as sixteen lower-case hex digits.
pub fn content_hash(content: &str) -> (s: String)
    ensures
        s@ == content_hash_spec(content@),
{
    let bytes = content.as_bytes();
    let mut hash: u64 = FNV_OFFSET;
    let mut i: usize = 0;
    while i < bytes.len()
        invariant
            0 <= i <= bytes@.len(),
            bytes@ == vstd::utf8::encode_utf8(content@),
            hash == fnv1a(bytes@.take(i as int)),
        decreases bytes@.len() - i,
    {
        proof {
            assert(bytes@.take(i as int + 1).drop_last() =~= bytes@.take(i as int));
        }
        hash = hash ^ (bytes[i] as u64);
        hash = hash.wrapping_mul(FNV_PRIME);
        i = i + 1;
    }
    assert(bytes@.take(i as int) =~= bytes@);
    let mut s = String::new();
    append_hex(&mut s, hash, 16);
    assert(s@ =~= content_hash_spec(content@));
    s
}

// ------------------------------------------------------------ paths

/// The per-project config file's name.
pub const PROJECT_CONFIG_NAME: &'static str = ".qq.toml";

/// `name` under the directory `dir`, with one separator between them.
pub open spec fn join_spec(dir: Seq<char>, name: Seq<char>) -> Seq<char> {
    if dir.len() == 0 || dir.last() == '/' {
        dir + name
    } else {
        dir + "/"@ + name
    }
}

/// Joins a relative `name` onto `dir`, adding a separator unless `dir` is
/// empty or already ends in one.
pub fn join(dir: &str, name: &str) -> (r: String)
    ensures
        r@ == join_spec(dir@, name@),
{
    let mut r = String::from_str(dir);
    let n = dir.unicode_len();
    if n > 0 && dir.get_char(n - 1) != '/' {
        r.append("/");
    }
    r.append(name);
    proof {
        reveal_strlit("/");
    }
    r
}

/// Where the config files and the approval store live.
#[derive(Debug)]
pub struct ConfigPaths {
    pub project_config: String,
    pub global_config: String,
    pub trust_store: String,
}

impl ConfigPaths {
    /// Paths for `target_dir` with the given global qq directory.
    pub fn with_global_dir(target_dir: &str, global_dir: &str) -> (paths: ConfigPaths)
        ensures
            paths.project_config@ == join_spec(target_dir@, ".qq.toml"@),
            paths.global_config@ == join_spec(global_dir@, "config.toml"@),
            paths.trust_store@ == join_spec(global_dir@, "trusted.toml"@),
    {
        ConfigPaths {
            project_config: join(target_dir, PROJECT_CONFIG_NAME),
            global_config: join(global_dir, "config.toml"),
            trust_store: join(global_dir, "trusted.toml"),
        }
    }

    /// Paths for `target_dir`, the global directory taken from the values of
    /// `XDG_CONFIG_HOME` and `HOME`: `$XDG_CONFIG_HOME/qq` when that is set
    /// and not empty, else `$HOME/.config/qq`, else `.config/qq`.
    pub fn discover(target_dir: &str, xdg_config_home: Option<String>, home: Option<String>) -> (paths:
        ConfigPaths)
        ensures
            paths.project_config@ == join_spec(target_dir@, ".qq.toml"@),
            paths.global_config@ == join_spec(
                global_dir_spec(xdg_config_home.deep_view(), home.deep_view()),
                "config.toml"@,
            ),
            paths.trust_store@ == join_spec(
                global_dir_spec(xdg_config_home.deep_view(), home.deep_view()),
                "trusted.toml"@,
            ),
    {
        let base = match xdg_config_home {
            Some(x) if x.unicode_len() > 0 => x,
            _ => match home {
                Some(h) => join(h.as_str(), ".config"),
                None => String::from_str(".config"),
            },
        };
        let global_dir = join(base.as_str(), "qq");
        ConfigPaths::with_global_dir(target_dir, global_dir.as_str())
    }
}

/// The global qq directory for the given `XDG_CONFIG_HOME` and `HOME`.
pub open spec fn global_dir_spec(xdg: Option<Seq<char>>, home: Option<Seq<char>>) -> Seq<char> {
    let base = match xdg {
        Some(x) if x.len() > 0 => x,
        _ => match home {
            Some(h) => join_spec(h, ".config"@),
            None => ".config"@,
        },
    };
    join_spec(base, "qq"@)
}

// ------------------------------------------------------------ loading

/// What reading a config file gave.
#[derive(Debug)]
pub enum ConfigFile {
    /// The file does not exist.
    Missing,
    /// The file exists but could not be read.
    Unreadable { path: String, message: String },
    /// The file's content, and what parsing it as a definition gave.
    Read { path: String, content: String, parsed: Result<DefinitionFile, DefinitionError> },
}

/// A read failure, named by the file it happened on.
pub fn io_error(path: String, message: String) -> (e: DefinitionError)
    ensures
        e == (DefinitionError { source: path, message }),
{
    DefinitionError { source: path, message }
}

/// The approvals: config path to the hash of the content that was approved.
#[derive(Debug)]
pub struct TrustStore {
    pub approvals: Table<String>,
}

impl TrustStore {
    /// The store with no approvals.
    pub fn new() -> (s: TrustStore)
        ensures
            s.approvals@ == Map::<Seq<char>, Seq<char>>::empty(),
    {
        TrustStore { approvals: Table::new() }
    }
}

/// `content` at `key` was approved as it is now.
pub open spec fn approved(approvals: Map<Seq<char>, Seq<char>>, key: Seq<char>, content: Seq<char>) -> bool {
    approvals.contains_key(key) && approvals[key] == content_hash_spec(content)
}

pub fn is_approved(store: &TrustStore, key: &str, content: &str) -> (b: bool)
    ensures
        b == approved(store.approvals@, key@, content@),
{
    match store.approvals.get(key) {
        Some(h) => {
            let expected = content_hash(content);
            str_eq(h.as_str(), expected.as_str())
        },
        None => false,
    }
}

/// Loads the global config; a missing file yields an empty definition.
pub fn load_global(global: ConfigFile) -> (r: Result<DefinitionFile, DefinitionError>)
    ensures
        match global {
            ConfigFile::Missing => r matches Ok(f) && f.layer() == empty_layer(),
            ConfigFile::Unreadable { path, message } => r == Err::<DefinitionFile, DefinitionError>(
                DefinitionError { source: path, message },
            ),
            ConfigFile::Read { parsed, .. } => r == parsed,
        },
{
    match global {
        ConfigFile::Missing => {
            let f = DefinitionFile::empty();
            assert(f.layer() == empty_layer());
            Ok(f)
        },
        ConfigFile::Unreadable { path, message } => Err(io_error(path, message)),
        ConfigFile::Read { parsed, .. } => parsed,
    }
}

/// The per-project config as the trust gate lets it through.
#[derive(Debug)]
pub enum ProjectConfig {
    /// No `.qq.toml` in the target directory; not an error.
    Missing,
    /// Present and well formed, but not (or no longer) approved.
    Untrusted { path: String },
    /// Present, well formed, and approved for its current content.
    Trusted { file: DefinitionFile },
}

/// Loads the per-project config through the trust gate: `key` is the file's
/// approval key and `store` the approvals on record. A malformed or
/// unreadable file is an error whatever its trust state; a well-formed one
/// is trusted exactly when its current content was approved.
pub fn load_project(project: ConfigFile, store: &TrustStore, key: &str) -> (r: Result<
    ProjectConfig,
    DefinitionError,
>)
    ensures
        match project {
            ConfigFile::Missing => r matches Ok(ProjectConfig::Missing),
            ConfigFile::Unreadable { path, message } => r == Err::<ProjectConfig, DefinitionError>(
                DefinitionError { source: path, message },
            ),
            ConfigFile::Read { path, content, parsed } => match parsed {
                Err(e) => r == Err::<ProjectConfig, DefinitionError>(e),
                Ok(file) => if approved(store.approvals@, key@, content@) {
                    r == Ok::<ProjectConfig, DefinitionError>(ProjectConfig::Trusted { file })
                } else {
                    r == Ok::<ProjectConfig, DefinitionError>(ProjectConfig::Untrusted { path })
                },
            },
        },
{
    match project {
        ConfigFile::Missing => Ok(ProjectConfig::Missing),
        ConfigFile::Unreadable { path, message } => Err(io_error(path, message)),
        ConfigFile::Read { path, content, parsed } => match parsed {
            Err(e) => Err(e),
            Ok(file) => {
                if is_approved(store, key, content.as_str()) {
                    Ok(ProjectConfig::Trusted { file })
                } else {
                    Ok(ProjectConfig::Untrusted { path })
                }
            },
        },
    }
}

/// What `qq allow` did.
#[derive(Debug)]
pub enum AllowOutcome {
    /// The file at this path is now approved at its current content.
    Approved(String),
    NothingToApprove,
}

/// `qq allow`: approves the per-project config at its current content by
/// recording its hash under `key` in `store`. A malformed or unreadable file
/// is refused with its error, and the store is left as it was.
pub fn allow_project(project: ConfigFile, key: &str, store: &mut TrustStore) -> (r: Result<
    AllowOutcome,
    DefinitionError,
>)
    ensures
        match project {
            ConfigFile::Missing => {
                &&& r matches Ok(AllowOutcome::NothingToApprove)
                &&& final(store).approvals@ == old(store).approvals@
            },
            ConfigFile::Unreadable { path, message } => {
                &&& r == Err::<AllowOutcome, DefinitionError>(DefinitionError { source: path, message })
                &&& final(store).approvals@ == old(store).approvals@
            },
            ConfigFile::Read { path, content, parsed } => match parsed {
                Err(e) => {
                    &&& r == Err::<AllowOutcome, DefinitionError>(e)
                    &&& final(store).approvals@ == old(store).approvals@
                },
                Ok(_) => {
                    &&& r == Ok::<AllowOutcome, DefinitionError>(AllowOutcome::Approved(path))
                    &&& final(store).approvals@ == old(store).approvals@.insert(
                        key@,
                        content_hash_spec(content@),
                    )
                },
            },
        },
{
    match project {
        ConfigFile::Missing => Ok(AllowOutcome::NothingToApprove),
        ConfigFile::Unreadable { path, message } => Err(io_error(path, message)),
        ConfigFile::Read { path, content, parsed } => match parsed {
            Err(e) => Err(e),
            Ok(_) => {
                let hash = content_hash(content.as_str());
                store.approvals.insert(String::from_str(key), hash);
                Ok(AllowOutcome::Approved(path))
            },
        },
    }
}

/// Approving a file and then loading it, as it was approved, trusts it.
pub proof fn lemma_allow_then_trusted(
    approvals: Map<Seq<char>, Seq<char>>,
    key: Seq<char>,
    content: Seq<char>,
)
    ensures
        approved(approvals.insert(key, content_hash_spec(content)), key, content),
{
}

/// An approval holds for new content exactly when the new content hashes
/// as the approved one did: a change that alters the hash makes it stale.
pub proof fn lemma_approval_stales_on_change(
    approvals: Map<Seq<char>, Seq<char>>,
    key: Seq<char>,
    approved_content: Seq<char>,
    current: Seq<char>,
)
    ensures
        approved(approvals.insert(key, content_hash_spec(approved_content)), key, current)
            <==> content_hash_spec(current) == content_hash_spec(approved_content),
{
}

/// Approving one file leaves the approvals of every other file as they were.
pub proof fn lemma_allow_keeps_other_approvals(
    approvals: Map<Seq<char>, Seq<char>>,
    key: Seq<char>,
    content: Seq<char>,
    other: Seq<char>,
    other_content: Seq<char>,
)
    requires
        other != key,
    ensures
        approved(approvals.insert(key, content_hash_spec(content)), other, other_content)
            == approved(approvals, other, other_content),
{
}

} // verus!
