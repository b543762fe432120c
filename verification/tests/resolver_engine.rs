use qq_cli::config::{allow_project, AllowOutcome, ConfigFile, ConfigPaths, TrustStore};
use qq_cli::definition::{Candidate, DefinitionError, DefinitionFile, TypeDef};
use qq_cli::resolver::{resolve, Probe, ResolveOutcome};
use qq_cli::table::Table;
use qq_cli::{detect_project, project_command};

/// A config file as the reader would find it.
enum Source {
    Missing,
    Unreadable(String),
    Parsed(String, Box<dyn Fn() -> DefinitionFile>),
    Malformed(String, String),
}

fn plain(run: &str) -> Vec<Candidate> {
    vec![Candidate { run: run.to_string(), when_path: None, when_bin: None }]
}

/// `[commands]` with one plain candidate per command.
fn typeless(entries: &[(&str, &str)]) -> DefinitionFile {
    let mut f = DefinitionFile::empty();
    for (name, run) in entries {
        f.commands.insert(name.to_string(), plain(run));
    }
    f
}

/// One `[types.<key>]` with an optional name, no markers, and commands.
fn one_type(key: &str, name: Option<&str>, commands: &[(&str, &str)]) -> DefinitionFile {
    let mut cmds = Table::new();
    for (n, run) in commands {
        cmds.insert(n.to_string(), plain(run));
    }
    let t = TypeDef {
        name: name.map(|s| s.to_string()),
        priority: 0,
        detect: Vec::new(),
        detect_any: Vec::new(),
        commands: cmds,
    };
    let mut f = DefinitionFile::empty();
    f.types.insert(key.to_string(), t);
    f
}

/// A project dir plus an isolated global config dir.
struct Fixture {
    existing: Vec<String>,
    paths: ConfigPaths,
    project: Source,
    global: Source,
    store: TrustStore,
}

impl Fixture {
    fn new() -> Fixture {
        Fixture {
            existing: Vec::new(),
            paths: ConfigPaths::with_global_dir("/work/app", "/home/me/.config/qq"),
            project: Source::Missing,
            global: Source::Missing,
            store: TrustStore::new(),
        }
    }

    fn touch(&mut self, name: &str) -> &mut Self {
        self.existing.push(name.to_string());
        self
    }

    fn mkdir(&mut self, name: &str) -> &mut Self {
        self.existing.push(name.to_string());
        self
    }

    fn probe(&self) -> Probe {
        Probe::new(self.existing.clone(), Vec::new())
    }

    fn project_config(&mut self, content: &str, file: impl Fn() -> DefinitionFile + 'static) -> &mut Self {
        self.project = Source::Parsed(content.to_string(), Box::new(file));
        self
    }

    fn malformed_project_config(&mut self, content: &str, message: &str) -> &mut Self {
        self.project = Source::Malformed(content.to_string(), message.to_string());
        self
    }

    fn approved_project_config(
        &mut self,
        content: &str,
        file: impl Fn() -> DefinitionFile + 'static,
    ) -> &mut Self {
        self.project_config(content, file);
        match self.allow().unwrap() {
            AllowOutcome::Approved(_) => {}
            AllowOutcome::NothingToApprove => panic!("expected a config to approve"),
        }
        self
    }

    fn global_config(&mut self, content: &str, file: impl Fn() -> DefinitionFile + 'static) -> &mut Self {
        self.global = Source::Parsed(content.to_string(), Box::new(file));
        self
    }

    fn malformed_global_config(&mut self, content: &str, message: &str) -> &mut Self {
        self.global = Source::Malformed(content.to_string(), message.to_string());
        self
    }

    fn read(path: &str, source: &Source) -> ConfigFile {
        match source {
            Source::Missing => ConfigFile::Missing,
            Source::Unreadable(message) => ConfigFile::Unreadable {
                path: path.to_string(),
                message: message.clone(),
            },
            Source::Parsed(content, file) => ConfigFile::Read {
                path: path.to_string(),
                content: content.clone(),
                parsed: Ok(file()),
            },
            Source::Malformed(content, message) => ConfigFile::Read {
                path: path.to_string(),
                content: content.clone(),
                parsed: Err(DefinitionError { source: path.to_string(), message: message.clone() }),
            },
        }
    }

    fn allow(&mut self) -> Result<AllowOutcome, DefinitionError> {
        let project = Fixture::read(&self.paths.project_config, &self.project);
        let key = self.paths.project_config.clone();
        allow_project(project, &key, &mut self.store)
    }

    fn try_resolve(&self) -> Result<ResolveOutcome, DefinitionError> {
        resolve(
            &self.probe(),
            Fixture::read(&self.paths.global_config, &self.global),
            Fixture::read(&self.paths.project_config, &self.project),
            &self.store,
            &self.paths.project_config,
        )
    }

    fn resolve(&self) -> ResolveOutcome {
        self.try_resolve().unwrap()
    }

    fn command(&self, name: &str) -> Option<String> {
        self.resolve().resolution.expect("expected a resolution").command(name, &self.probe())
    }
}

#[test]
fn ae1_partial_override_keeps_builtin_fallback() {
    let mut fx = Fixture::new();
    fx.touch("Gemfile").approved_project_config(
        "[commands]\ntest = [{ run = \"bin/rails test:system\" }]\n",
        || typeless(&[("test", "bin/rails test:system")]),
    );

    assert_eq!(fx.command("test").as_deref(), Some("bin/rails test:system"));
    assert_eq!(fx.command("start").as_deref(), Some("bin/rails s"));

    fx.mkdir("bin");
    fx.touch("bin/dev");
    assert_eq!(fx.command("start").as_deref(), Some("bin/dev"));
}

#[test]
fn ae2_declared_type_beats_detection_with_builtin_fallback() {
    let mut fx = Fixture::new();
    fx.touch("Cargo.toml").approved_project_config(
        "[types.mytool]\nname = \"MyTool\"\n\n[types.mytool.commands]\nstart = [{ run = \"make serve\" }]\n",
        || one_type("mytool", Some("MyTool"), &[("start", "make serve")]),
    );

    let outcome = fx.resolve();
    let resolution = outcome.resolution.unwrap();
    assert_eq!(resolution.display_name.as_deref(), Some("MyTool"));
    assert_eq!(resolution.command("start", &fx.probe()).as_deref(), Some("make serve"));
    assert_eq!(resolution.command("install", &fx.probe()).as_deref(), Some("cargo build"));
}

#[test]
fn ae3_fallback_list_resolves_rails_start_without_bin_dev() {
    let mut fx = Fixture::new();
    fx.touch("Gemfile");
    assert_eq!(fx.command("start").as_deref(), Some("bin/rails s"));
}

#[test]
fn ae5_trust_gate_blocks_until_allowed_and_stales_on_change() {
    let mut fx = Fixture::new();
    fx.touch("Gemfile").project_config("[commands]\ntest = [{ run = \"evil test\" }]\n", || {
        typeless(&[("test", "evil test")])
    });

    let outcome = fx.resolve();
    assert!(outcome.untrusted_project_config.is_some());
    let resolution = outcome.resolution.unwrap();
    assert_eq!(resolution.display_name.as_deref(), Some("Rails"));
    assert_eq!(resolution.command("test", &fx.probe()), None);

    fx.allow().unwrap();
    let outcome = fx.resolve();
    assert!(outcome.untrusted_project_config.is_none());
    assert_eq!(fx.command("test").as_deref(), Some("evil test"));

    fx.project_config("[commands]\ntest = [{ run = \"even more evil\" }]\n", || {
        typeless(&[("test", "even more evil")])
    });
    let outcome = fx.resolve();
    assert!(outcome.untrusted_project_config.is_some());
    assert_eq!(fx.command("test"), None);
}

#[test]
fn per_project_beats_global_beats_nothing() {
    let mut fx = Fixture::new();
    fx.touch("Cargo.toml").global_config("[commands]\nlint = [{ run = \"cargo clippy\" }]\n", || {
        typeless(&[("lint", "cargo clippy")])
    });
    assert_eq!(fx.command("lint").as_deref(), Some("cargo clippy"));

    fx.approved_project_config("[commands]\nlint = [{ run = \"cargo clippy --all\" }]\n", || {
        typeless(&[("lint", "cargo clippy --all")])
    });
    assert_eq!(fx.command("lint").as_deref(), Some("cargo clippy --all"));
}

#[test]
fn global_type_shadowing_merges_per_command() {
    let mut fx = Fixture::new();
    fx.touch("Gemfile").global_config(
        "[types.rails.commands]\ntest = [{ run = \"bin/custom-test\" }]\n",
        || one_type("rails", None, &[("test", "bin/custom-test")]),
    );

    assert_eq!(fx.command("test").as_deref(), Some("bin/custom-test"));
    assert_eq!(fx.command("install").as_deref(), Some("bundle install"));
    assert_eq!(fx.command("start").as_deref(), Some("bin/rails s"));
}

#[test]
fn typeless_commands_work_in_unrecognized_directory() {
    let mut fx = Fixture::new();
    fx.approved_project_config("[commands]\nbuild = [{ run = \"make\" }]\n", || {
        typeless(&[("build", "make")])
    });

    let resolution = fx.resolve().resolution.unwrap();
    assert_eq!(resolution.display_name, None);
    assert_eq!(resolution.command("build", &fx.probe()).as_deref(), Some("make"));
}

#[test]
fn unrecognized_directory_without_config_resolves_nothing() {
    let fx = Fixture::new();
    assert!(fx.resolve().resolution.is_none());
}

#[test]
fn malformed_project_config_errors_naming_the_file() {
    let mut fx = Fixture::new();
    fx.touch("Gemfile").malformed_project_config("not [valid toml", "expected `.`, `=`");
    let err = fx.try_resolve().unwrap_err();
    assert!(err.to_string().contains(".qq.toml"));
}

#[test]
fn malformed_global_config_errors_naming_the_file() {
    let mut fx = Fixture::new();
    fx.touch("Gemfile").malformed_global_config("[commands\nbroken", "invalid table header");
    let err = fx.try_resolve().unwrap_err();
    assert!(err.to_string().contains("config.toml"));
}

#[test]
fn unreadable_present_project_config_errors_not_skips() {
    let mut fx = Fixture::new();
    fx.touch("Gemfile").mkdir(".qq.toml");
    fx.project = Source::Unreadable("Is a directory (os error 21)".to_string());
    let err = fx.try_resolve().unwrap_err();
    assert!(err.to_string().contains(".qq.toml"));
}

#[test]
fn allow_refuses_malformed_config() {
    let mut fx = Fixture::new();
    fx.malformed_project_config("broken = [", "unclosed array");
    assert!(fx.allow().is_err());
}

#[test]
fn allow_without_config_reports_nothing_to_approve() {
    let mut fx = Fixture::new();
    assert!(matches!(fx.allow().unwrap(), AllowOutcome::NothingToApprove));
}

#[test]
fn detection_order_matches_legacy_chain() {
    let cases: Vec<(Vec<&str>, &str)> = vec![
        (vec!["Gemfile", "source"], "Middleman"),
        (vec!["Anchor.toml", "Cargo.toml"], "Anchor"),
        (vec!["package.json", "next.config.js"], "NextJS"),
        (vec!["package.json", "next.config.ts"], "NextJS"),
        (vec!["package.json"], "Nodejs"),
    ];
    for (markers, expected) in cases {
        let mut fx = Fixture::new();
        for m in markers {
            fx.touch(m);
        }
        let resolution = fx.resolve().resolution.unwrap();
        assert_eq!(resolution.display_name.as_deref(), Some(expected));
    }
}

#[test]
fn differential_parity_legacy_vs_resolver() {
    const COMMANDS: [&str; 7] = ["install", "migrate", "console", "start", "test", "routes", "deploy"];

    let fixtures: Vec<(&str, Vec<&str>)> = vec![
        ("middleman", vec!["Gemfile", "source"]),
        ("rails-bare", vec!["Gemfile"]),
        ("rails-full", vec!["Gemfile", "spec", "test", "bin", ".kamal", "bin/dev"]),
        ("rails-testdir", vec!["Gemfile", "test"]),
        ("anchor", vec!["Anchor.toml"]),
        ("anchor-kamal", vec!["Anchor.toml", ".kamal"]),
        ("rust", vec!["Cargo.toml"]),
        ("rust-kamal", vec!["Cargo.toml", ".kamal"]),
        ("nextjs", vec!["package.json", "next.config.js"]),
        ("nodejs", vec!["package.json", ".kamal"]),
    ];

    for (label, markers) in &fixtures {
        let mut fx = Fixture::new();
        for m in markers {
            fx.touch(m);
        }
        let probe = fx.probe();
        let legacy_project = detect_project(&probe).expect(label);
        let resolution = fx.resolve().resolution.expect(label);

        assert_eq!(
            resolution.display_name.as_deref(),
            Some(legacy_project.name()),
            "{label}: detected type"
        );

        for command in COMMANDS {
            let legacy = project_command(&*legacy_project, command, &probe);
            let new = resolution.command(command, &probe);
            assert_eq!(new, legacy, "{label}: `{command}` must match legacy");
        }
    }
}

#[test]
fn untrusted_layer_is_ignored_but_reported_by_path() {
    let mut fx = Fixture::new();
    fx.touch("Cargo.toml").project_config("[commands]\nhello = [{ run = \"echo hi\" }]\n", || {
        typeless(&[("hello", "echo hi")])
    });
    let outcome = fx.resolve();
    assert_eq!(outcome.untrusted_project_config.as_deref(), Some("/work/app/.qq.toml"));
    let resolution = outcome.resolution.unwrap();
    assert_eq!(resolution.command("hello", &fx.probe()), None);
    assert!(!resolution.command_names().contains(&"hello".to_string()));
}

#[test]
fn broken_global_config_is_reported_before_broken_project_config() {
    let mut fx = Fixture::new();
    fx.malformed_global_config("[commands\nbroken", "invalid table header")
        .malformed_project_config("not [valid toml", "expected `.`, `=`");
    let err = fx.try_resolve().unwrap_err();
    assert_eq!(err.source, "/home/me/.config/qq/config.toml");
    assert_eq!(
        err.to_string(),
        "invalid definition in /home/me/.config/qq/config.toml: invalid table header"
    );
}

#[test]
fn global_config_beats_builtin_command() {
    let mut fx = Fixture::new();
    fx.touch("Cargo.toml").global_config(
        "[commands]\ntest = [{ run = \"make test\" }]\nfmt = [{ run = \"cargo fmt\" }]\n",
        || typeless(&[("test", "make test"), ("fmt", "cargo fmt")]),
    );
    // The global config wins over the detected type's built-in `test`.
    assert_eq!(fx.command("test").as_deref(), Some("make test"));
    assert_eq!(fx.command("fmt").as_deref(), Some("cargo fmt"));
    // Commands it leaves alone keep their built-in behavior.
    assert_eq!(fx.command("install").as_deref(), Some("cargo build"));
}

#[test]
fn global_test_override_wins_in_a_rails_directory() {
    let mut fx = Fixture::new();
    fx.touch("Gemfile").global_config("[commands]\ntest = [{ run = \"make check\" }]\n", || {
        typeless(&[("test", "make check")])
    });
    assert_eq!(fx.command("test").as_deref(), Some("make check"));
    // The per-project config still wins over the global one.
    fx.approved_project_config("[commands]\ntest = [{ run = \"bin/rails test\" }]\n", || {
        typeless(&[("test", "bin/rails test")])
    });
    assert_eq!(fx.command("test").as_deref(), Some("bin/rails test"));
}

#[test]
fn typed_commands_beat_the_typeless_block_within_the_global_config() {
    let mut fx = Fixture::new();
    fx.touch("Gemfile").global_config("[commands] and [types.rails.commands]", || {
        let mut f = one_type("rails", None, &[("test", "typed test"), ("console", "typed console")]);
        f.commands.insert("test".to_string(), plain("typeless test"));
        f.commands.insert("lint".to_string(), plain("typeless lint"));
        f
    });
    assert_eq!(fx.command("test").as_deref(), Some("typed test"));
    assert_eq!(fx.command("console").as_deref(), Some("typed console"));
    assert_eq!(fx.command("lint").as_deref(), Some("typeless lint"));
}

#[test]
fn command_names_are_in_key_order() {
    let mut fx = Fixture::new();
    fx.touch("Anchor.toml");
    let names = fx.resolve().resolution.unwrap().command_names();
    assert_eq!(names, vec!["deploy", "install", "start", "test"]);
}

fn marked_type(key: &str, name: &str, priority: i64, marker: &str, start: &str) -> (String, TypeDef) {
    let mut cmds = Table::new();
    cmds.insert("start".to_string(), plain(start));
    (
        key.to_string(),
        TypeDef {
            name: Some(name.to_string()),
            priority,
            detect: vec![marker.to_string()],
            detect_any: Vec::new(),
            commands: cmds,
        },
    )
}

#[test]
fn lower_priority_runs_first_within_a_layer() {
    let mut fx = Fixture::new();
    fx.touch("Makefile").touch("justfile").global_config("[types.*]", || {
        let mut f = DefinitionFile::empty();
        let (k1, t1) = marked_type("aaa-make", "Make", 50, "Makefile", "make run");
        let (k2, t2) = marked_type("zzz-just", "Just", 5, "justfile", "just run");
        f.types.insert(k1, t1);
        f.types.insert(k2, t2);
        f
    });
    let resolution = fx.resolve().resolution.unwrap();
    assert_eq!(resolution.display_name.as_deref(), Some("Just"));
    assert_eq!(resolution.command("start", &fx.probe()).as_deref(), Some("just run"));
}

#[test]
fn per_project_type_beats_global_type_beats_builtin() {
    let mut fx = Fixture::new();
    fx.touch("Gemfile").touch("Makefile").touch("justfile");
    fx.global_config("[types.make]", || {
        let mut f = DefinitionFile::empty();
        let (k, t) = marked_type("make", "Make", 0, "Makefile", "make run");
        f.types.insert(k, t);
        f
    });
    assert_eq!(fx.resolve().resolution.unwrap().display_name.as_deref(), Some("Make"));
    fx.approved_project_config("[types.just]", || {
        let mut f = DefinitionFile::empty();
        let (k, t) = marked_type("just", "Just", 100, "justfile", "just run");
        f.types.insert(k, t);
        f
    });
    assert_eq!(fx.resolve().resolution.unwrap().display_name.as_deref(), Some("Just"));
}

#[test]
fn markerless_project_type_matches_its_own_directory() {
    let mut fx = Fixture::new();
    fx.approved_project_config("[types.local]", || one_type("local", None, &[("start", "./run")]));
    let resolution = fx.resolve().resolution.unwrap();
    assert_eq!(resolution.display_name.as_deref(), Some("local"));
    assert_eq!(resolution.command("start", &fx.probe()).as_deref(), Some("./run"));

    let mut global_only = Fixture::new();
    global_only.global_config("[types.local]", || one_type("local", None, &[("start", "./run")]));
    assert!(global_only.resolve().resolution.is_none());
}

#[test]
fn command_bins_name_the_binaries_a_command_gates_on() {
    let mut fx = Fixture::new();
    fx.touch("Gemfile");
    let resolution = fx.resolve().resolution.unwrap();
    assert_eq!(resolution.command_bins("routes"), vec!["fzf".to_string()]);
    assert!(resolution.command_bins("start").is_empty());
    assert!(resolution.command_bins("nonsense").is_empty());
    assert_eq!(resolution.detected_name().as_deref(), Some("Rails"));
}
