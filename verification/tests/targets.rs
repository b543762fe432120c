use qq_cli::definition::{Candidate, DefinitionFile};
use qq_cli::definitions::builtin_types;
use qq_cli::targets::probe_targets;

#[test]
fn builtin_targets_cover_markers_and_gates() {
    let builtins = builtin_types().unwrap();
    let empty = DefinitionFile::empty();
    let (paths, bins) = probe_targets(&empty, &empty, &builtins);
    for p in [
        "Gemfile",
        "source",
        "Anchor.toml",
        "Cargo.toml",
        "package.json",
        "next.config.js",
        "next.config.mjs",
        "next.config.ts",
        "bin/dev",
        "spec",
        "test",
        ".kamal",
    ] {
        assert!(paths.contains(&p.to_string()), "{p} must be probed");
    }
    assert!(bins.contains(&"fzf".to_string()));
    assert!(!paths.contains(&"fzf".to_string()));
    assert!(bins.iter().all(|b| b == "fzf"));
}

#[test]
fn config_gates_are_targets_too() {
    let mut project = DefinitionFile::empty();
    project.commands.insert(
        "lint".to_string(),
        vec![
            Candidate { run: "x".to_string(), when_path: Some("Makefile".to_string()), when_bin: None },
            Candidate { run: "y".to_string(), when_path: None, when_bin: Some("just".to_string()) },
        ],
    );
    let global = DefinitionFile::empty();
    let (paths, bins) = probe_targets(&project, &global, &Vec::new());
    assert_eq!(paths, vec!["Makefile".to_string()]);
    assert_eq!(bins, vec!["just".to_string()]);
}
