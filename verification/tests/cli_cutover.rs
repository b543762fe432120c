use qq_cli::cli::{
    about_for, alias_for, allow_message, canonical_command_list, command_list, complete,
    detected_line, dispatch, git_shortcut, git_shortcut_list, help_lines, is_reserved,
    menu_choice, menu_suggestions, not_supported_message, unsupported_message, untrusted_notice,
    Dispatch, MenuChoice,
};
use qq_cli::config::{allow_project, AllowOutcome, ConfigFile, TrustStore};
use qq_cli::definition::{Candidate, DefinitionError, DefinitionFile};
use qq_cli::resolver::{resolve, Probe, Resolution, ResolveOutcome};

const KEY: &str = "/work/app/.qq.toml";

fn probe(paths: &[&str]) -> Probe {
    Probe::new(paths.iter().map(|p| p.to_string()).collect(), Vec::new())
}

fn typeless(entries: &[(&str, &str)]) -> DefinitionFile {
    let mut f = DefinitionFile::empty();
    for (name, run) in entries {
        f.commands.insert(
            name.to_string(),
            vec![Candidate { run: run.to_string(), when_path: None, when_bin: None }],
        );
    }
    f
}

fn project(content: &str, entries: &[(&str, &str)]) -> ConfigFile {
    ConfigFile::Read { path: KEY.to_string(), content: content.to_string(), parsed: Ok(typeless(entries)) }
}

fn outcome(p: &Probe, project_file: ConfigFile, store: &TrustStore) -> ResolveOutcome {
    resolve(p, ConfigFile::Missing, project_file, store, KEY).unwrap()
}

fn approve(content: &str, entries: &[(&str, &str)]) -> TrustStore {
    let mut store = TrustStore::new();
    match allow_project(project(content, entries), KEY, &mut store).unwrap() {
        AllowOutcome::Approved(_) => {}
        AllowOutcome::NothingToApprove => panic!("expected approval"),
    }
    store
}

fn rust_resolution() -> (Probe, Resolution) {
    let p = probe(&["Cargo.toml"]);
    let r = outcome(&p, ConfigFile::Missing, &TrustStore::new()).resolution.unwrap();
    (p, r)
}

#[test]
fn ae5_end_to_end_allow_then_override_applies() {
    let content = "[commands]\ntest = [{ run = \"echo trusted-ok\" }]\n";
    let entries = [("test", "echo trusted-ok")];
    let p = probe(&["Gemfile"]);

    let before = outcome(&p, project(content, &entries), &TrustStore::new());
    let path = before.untrusted_project_config.clone().expect("notice expected");
    assert!(untrusted_notice(&path).contains("Ignoring unapproved config"));
    let resolution = before.resolution.unwrap();
    assert!(matches!(dispatch("test", &resolution, &p), Dispatch::NotSupported));
    assert!(not_supported_message("test").contains("'test' command not supported"));

    let mut store = TrustStore::new();
    let allowed = allow_project(project(content, &entries), KEY, &mut store).unwrap();
    assert!(allow_message(&allowed).contains("Approved"));

    let after = outcome(&p, project(content, &entries), &store).resolution.unwrap();
    match dispatch("test", &after, &p) {
        Dispatch::Run(cmd) => assert!(cmd.contains("trusted-ok")),
        _ => panic!("override should run"),
    }
}

#[test]
fn unapproved_config_command_still_surfaces_the_notice() {
    let content = "[commands]\nhello = [{ run = \"echo hi\" }]\n";
    let p = probe(&["Cargo.toml"]);
    let out = outcome(&p, project(content, &[("hello", "echo hi")]), &TrustStore::new());
    let notice = untrusted_notice(out.untrusted_project_config.as_deref().unwrap());
    assert!(notice.contains("Ignoring unapproved config"));
    let resolution = out.resolution.unwrap();
    assert!(matches!(dispatch("hello", &resolution, &p), Dispatch::NotRecognized));
}

#[test]
fn ae4_config_added_command_runs_as_direct_subcommand() {
    let content = "[commands]\nlint = [{ run = \"echo lint-ran\" }]\n";
    let entries = [("lint", "echo lint-ran")];
    let store = approve(content, &entries);
    let p = probe(&["Cargo.toml"]);
    let resolution = outcome(&p, project(content, &entries), &store).resolution.unwrap();
    assert!(command_list(&resolution).contains(&"lint".to_string()));
    match dispatch("lint", &resolution, &p) {
        Dispatch::Run(cmd) => assert!(cmd.contains("lint-ran")),
        _ => panic!("config command must dispatch"),
    }
}

#[test]
fn reserved_g_cannot_be_overridden_by_config() {
    let content = "[commands]\ng = [{ run = \"echo HACKED\" }]\n";
    let entries = [("g", "echo HACKED")];
    let store = approve(content, &entries);
    let p = probe(&["Cargo.toml"]);
    let resolution = outcome(&p, project(content, &entries), &store).resolution.unwrap();
    match dispatch("g", &resolution, &p) {
        Dispatch::Run(cmd) => {
            assert!(!cmd.contains("HACKED"));
            assert_eq!(cmd, "git status");
        }
        _ => panic!("git shortcut must run"),
    }
    assert!(!command_list(&resolution).contains(&"g".to_string()));
}

#[test]
fn unrecognized_dir_without_config_fails_with_current_message() {
    let p = probe(&[]);
    let out = outcome(&p, ConfigFile::Missing, &TrustStore::new());
    assert!(out.resolution.is_none());
    assert_eq!(unsupported_message(), "Project type found in current directory is not supported.");
}

#[test]
fn malformed_config_errors_and_names_the_file() {
    let p = probe(&["Cargo.toml"]);
    let broken = ConfigFile::Read {
        path: KEY.to_string(),
        content: "not [valid toml".to_string(),
        parsed: Err(DefinitionError { source: KEY.to_string(), message: "expected `.`, `=`".to_string() }),
    };
    let err = resolve(&p, ConfigFile::Missing, broken, &TrustStore::new(), KEY).unwrap_err();
    assert!(err.to_string().contains(".qq.toml"));
}

#[test]
fn allow_without_config_reports_and_succeeds() {
    let mut store = TrustStore::new();
    let outcome = allow_project(ConfigFile::Missing, KEY, &mut store).unwrap();
    assert!(allow_message(&outcome).contains("No .qq.toml found"));
}

#[test]
fn detected_line_prints_for_builtin_types() {
    let (p, resolution) = rust_resolution();
    let name = resolution.display_name.clone().unwrap();
    assert!(detected_line(&name).contains("Detected: Rust"));
    assert!(matches!(dispatch("migrate", &resolution, &p), Dispatch::NotSupported));
    assert!(not_supported_message("migrate").contains("'migrate' command not supported"));
}

#[test]
fn command_list_puts_standard_commands_first() {
    let content = "[commands]\nzap = [{ run = \"z\" }]\nallow = [{ run = \"x\" }]\naaa = [{ run = \"a\" }]\n";
    let entries = [("zap", "z"), ("allow", "x"), ("aaa", "a")];
    let store = approve(content, &entries);
    let p = probe(&["Gemfile"]);
    let resolution = outcome(&p, project(content, &entries), &store).resolution.unwrap();
    assert_eq!(
        command_list(&resolution),
        vec!["install", "migrate", "console", "start", "test", "routes", "deploy", "aaa", "zap"]
    );
}

#[test]
fn dispatch_outcomes() {
    let (p, resolution) = rust_resolution();
    match dispatch("install", &resolution, &p) {
        Dispatch::Run(cmd) => assert_eq!(cmd, "cargo build"),
        _ => panic!("install runs"),
    }
    match dispatch("gM", &resolution, &p) {
        Dispatch::Run(cmd) => assert_eq!(cmd, "git merge -"),
        _ => panic!("shortcut runs"),
    }
    assert!(matches!(dispatch("deploy", &resolution, &p), Dispatch::NotSupported));
    assert!(matches!(dispatch("nonsense", &resolution, &p), Dispatch::NotRecognized));
}

#[test]
fn help_lines_pad_names_to_seven() {
    let (_, resolution) = rust_resolution();
    let lines = help_lines(&resolution);
    assert_eq!(lines[0], "Available commands:");
    assert_eq!(lines[1], "  install - Installs dependencies for the project");
    assert_eq!(lines[2], "  start   - Starts the project");
    assert_eq!(lines[3], "  test    - Run tests");
    assert_eq!(lines[4], "  deploy  - Deploy with Kamal");
    assert_eq!(lines[5], "  g       - Run git status");
    assert_eq!(lines[11], "  gM      - Merge previous branch");
    assert_eq!(lines[12], "  allow   - Trust this directory's .qq.toml config");
    assert_eq!(lines[13], "  exit    - Exit the program");
    assert_eq!(lines[14], "  help    - Show this help message");
    assert_eq!(lines.len(), 15);
}

#[test]
fn menu_suggests_and_completes() {
    let (_, resolution) = rust_resolution();
    let suggestions = menu_suggestions(&resolution);
    assert_eq!(
        suggestions,
        vec![
            "install", "start", "test", "deploy", "g", "gl", "gp", "gP", "gm", "ga", "gM", "allow",
            "help", "exit"
        ]
    );
    assert_eq!(complete(&suggestions, "g"), vec!["g", "gl", "gp", "gP", "gm", "ga", "gM"]);
    assert_eq!(complete(&suggestions, "te"), vec!["test"]);
    assert_eq!(complete(&suggestions, ""), suggestions);
    assert!(complete(&suggestions, "zz").is_empty());
}

#[test]
fn menu_choice_reads_the_verbs() {
    assert!(matches!(menu_choice("exit".to_string()), MenuChoice::Exit));
    assert!(matches!(menu_choice("help".to_string()), MenuChoice::Help));
    assert!(matches!(menu_choice("allow".to_string()), MenuChoice::Allow));
    match menu_choice("start".to_string()) {
        MenuChoice::Execute(cmd) => assert_eq!(cmd, "start"),
        _ => panic!("start executes"),
    }
}

#[test]
fn names_abouts_and_aliases() {
    let canon = canonical_command_list();
    assert_eq!(canon, vec!["install", "migrate", "console", "start", "test", "routes", "deploy"]);
    assert_eq!(about_for("routes"), "Show Routes");
    assert_eq!(about_for("lint"), "Run a project command");
    assert_eq!(alias_for("install"), Some("i"));
    assert_eq!(alias_for("deploy"), Some("d"));
    assert_eq!(alias_for("lint"), None);
    assert_eq!(git_shortcut("gl"), Some("git log"));
    assert_eq!(git_shortcut("gx"), None);
    assert_eq!(git_shortcut_list().len(), 7);
    assert!(is_reserved("help") && is_reserved("gP") && !is_reserved("install"));
}

#[test]
fn messages_read_as_before() {
    assert_eq!(
        untrusted_notice("/a/.qq.toml"),
        "Ignoring unapproved config /a/.qq.toml \u{2014} run 'qq allow' to trust it."
    );
    assert_eq!(detected_line("Rails"), "Detected: Rails");
    assert_eq!(not_supported_message("test"), "'test' command not supported for this project type.");
    assert_eq!(allow_message(&AllowOutcome::Approved("/a/.qq.toml".to_string())), "Approved /a/.qq.toml");
    assert_eq!(allow_message(&AllowOutcome::NothingToApprove), "No .qq.toml found in this directory.");
}
