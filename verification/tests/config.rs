use qq_cli::config::{
    allow_project, content_hash, io_error, is_approved, join, load_global, load_project,
    AllowOutcome, ConfigFile, ConfigPaths, ProjectConfig, TrustStore, PROJECT_CONFIG_NAME,
};
use qq_cli::definition::{Candidate, DefinitionError, DefinitionFile};

fn file_with(command: &str, run: &str) -> DefinitionFile {
    let mut f = DefinitionFile::empty();
    f.commands.insert(
        command.to_string(),
        vec![Candidate { run: run.to_string(), when_path: None, when_bin: None }],
    );
    f
}

fn read(content: &str, file: DefinitionFile) -> ConfigFile {
    ConfigFile::Read {
        path: "/p/.qq.toml".to_string(),
        content: content.to_string(),
        parsed: Ok(file),
    }
}

#[test]
fn content_hash_is_fnv1a_64_in_hex() {
    assert_eq!(content_hash(""), "cbf29ce484222325");
    assert_eq!(content_hash("a"), "af63dc4c8601ec8c");
    assert_eq!(content_hash("foobar"), "85944171f73967e8");
    assert_eq!(content_hash("a").len(), 16);
}

#[test]
fn content_hash_covers_utf8_bytes() {
    // Two-byte character: hashed byte by byte.
    assert_ne!(content_hash("é"), content_hash("e"));
    assert_eq!(content_hash("é").len(), 16);
}

#[test]
fn paths_join_under_their_directories() {
    let paths = ConfigPaths::with_global_dir("/work/app", "/home/me/.config/qq");
    assert_eq!(paths.project_config, "/work/app/.qq.toml");
    assert_eq!(paths.global_config, "/home/me/.config/qq/config.toml");
    assert_eq!(paths.trust_store, "/home/me/.config/qq/trusted.toml");
    assert_eq!(PROJECT_CONFIG_NAME, ".qq.toml");
    assert_eq!(join("/a/", "b"), "/a/b");
    assert_eq!(join("", "b"), "b");
    assert_eq!(join("/a", "b"), "/a/b");
}

#[test]
fn discover_prefers_xdg_then_home() {
    let p = ConfigPaths::discover("/w", Some("/xdg".to_string()), Some("/home/me".to_string()));
    assert_eq!(p.global_config, "/xdg/qq/config.toml");
    let p = ConfigPaths::discover("/w", Some(String::new()), Some("/home/me".to_string()));
    assert_eq!(p.global_config, "/home/me/.config/qq/config.toml");
    let p = ConfigPaths::discover("/w", None, None);
    assert_eq!(p.global_config, ".config/qq/config.toml");
    assert_eq!(p.trust_store, ".config/qq/trusted.toml");
    assert_eq!(p.project_config, "/w/.qq.toml");
}

#[test]
fn load_global_missing_is_empty() {
    let f = load_global(ConfigFile::Missing).unwrap();
    assert!(f.commands.is_empty());
    assert!(f.types.is_empty());
}

#[test]
fn load_global_unreadable_names_the_file() {
    let err = load_global(ConfigFile::Unreadable {
        path: "/g/config.toml".to_string(),
        message: "permission denied".to_string(),
    })
    .unwrap_err();
    assert_eq!(err.source, "/g/config.toml");
    assert_eq!(err.to_string(), "invalid definition in /g/config.toml: permission denied");
}

#[test]
fn load_project_through_the_trust_gate() {
    let mut store = TrustStore::new();
    let key = "/p/.qq.toml";
    let content = "[commands]\ntest = [{ run = \"x\" }]\n";

    match load_project(ConfigFile::Missing, &store, key).unwrap() {
        ProjectConfig::Missing => {}
        _ => panic!("expected Missing"),
    }
    match load_project(read(content, file_with("test", "x")), &store, key).unwrap() {
        ProjectConfig::Untrusted { path } => assert_eq!(path, "/p/.qq.toml"),
        _ => panic!("expected Untrusted"),
    }
    match allow_project(read(content, file_with("test", "x")), key, &mut store).unwrap() {
        AllowOutcome::Approved(path) => assert_eq!(path, "/p/.qq.toml"),
        AllowOutcome::NothingToApprove => panic!("expected Approved"),
    }
    assert!(is_approved(&store, key, content));
    match load_project(read(content, file_with("test", "x")), &store, key).unwrap() {
        ProjectConfig::Trusted { file } => assert!(file.commands.contains_key("test")),
        _ => panic!("expected Trusted"),
    }
    // Changed content: stale.
    assert!(!is_approved(&store, key, "[commands]\n"));
    // Another file: not approved.
    assert!(!is_approved(&store, "/q/.qq.toml", content));
}

#[test]
fn malformed_project_config_errors_even_when_approved() {
    let mut store = TrustStore::new();
    let key = "/p/.qq.toml";
    let content = "broken = [";
    store.approvals.insert(key.to_string(), content_hash(content));
    let broken = ConfigFile::Read {
        path: key.to_string(),
        content: content.to_string(),
        parsed: Err(DefinitionError { source: key.to_string(), message: "unclosed array".to_string() }),
    };
    let err = load_project(broken, &store, key).unwrap_err();
    assert_eq!(err.message, "unclosed array");
}

#[test]
fn allow_keeps_the_store_on_refusal() {
    let mut store = TrustStore::new();
    let broken = ConfigFile::Read {
        path: "/p/.qq.toml".to_string(),
        content: "broken = [".to_string(),
        parsed: Err(DefinitionError { source: "/p/.qq.toml".to_string(), message: "bad".to_string() }),
    };
    assert!(allow_project(broken, "/p/.qq.toml", &mut store).is_err());
    assert!(store.approvals.is_empty());
    let unreadable = ConfigFile::Unreadable { path: "/p/.qq.toml".to_string(), message: "denied".to_string() };
    let err = allow_project(unreadable, "/p/.qq.toml", &mut store).unwrap_err();
    assert_eq!(err.to_string(), "invalid definition in /p/.qq.toml: denied");
    assert!(store.approvals.is_empty());
    assert!(matches!(
        allow_project(ConfigFile::Missing, "/p/.qq.toml", &mut store).unwrap(),
        AllowOutcome::NothingToApprove
    ));
}

#[test]
fn approval_records_the_content_hash() {
    let mut store = TrustStore::new();
    allow_project(read("abc", DefinitionFile::empty()), "/p/.qq.toml", &mut store).unwrap();
    assert_eq!(store.approvals.get("/p/.qq.toml").map(|s| s.as_str()), Some(content_hash("abc").as_str()));
    assert_eq!(store.approvals.len(), 1);
}

#[test]
fn io_error_carries_path_and_message() {
    let e = io_error("/x".to_string(), "boom".to_string());
    assert_eq!(e.source, "/x");
    assert_eq!(e.message, "boom");
}
