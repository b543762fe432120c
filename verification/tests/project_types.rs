use qq_cli::command_mapping::{determine_rails_test_command, CommandMapping};
use qq_cli::project_type::ProjectType;
use qq_cli::project_types::anchor::Anchor;
use qq_cli::project_types::middleman::Middleman;
use qq_cli::project_types::nextjs::NextJs;
use qq_cli::project_types::nodejs::Nodejs;
use qq_cli::project_types::rails::Rails;
use qq_cli::project_types::rust::Rust;
use qq_cli::resolver::Probe;
use qq_cli::utils::suggester;
use qq_cli::{detect_project, project_command};

fn dir(paths: &[&str]) -> Probe {
    Probe::new(paths.iter().map(|p| p.to_string()).collect(), Vec::new())
}

fn dir_with_bins(paths: &[&str], bins: &[&str]) -> Probe {
    Probe::new(
        paths.iter().map(|p| p.to_string()).collect(),
        bins.iter().map(|b| b.to_string()).collect(),
    )
}

#[test]
fn test_detect_anchor_project() {
    let project_type = Anchor::detect(&dir(&["Anchor.toml"]));
    assert!(project_type.is_some() && project_type.unwrap().name() == "Anchor");
}

#[test]
fn test_anchor_not_detected_without_toml() {
    let project_type = Anchor::detect(&dir(&[]));
    assert!(project_type.is_none());
}

#[test]
fn test_detect_middleman_project() {
    let project_type = Middleman::detect(&dir(&["Gemfile", "source"]));
    assert!(project_type.is_some() && project_type.unwrap().name() == "Middleman");
}

#[test]
fn test_middleman_not_detected_without_source_dir() {
    let project_type = Middleman::detect(&dir(&["Gemfile"]));
    assert!(project_type.is_none());
}

#[test]
fn test_detect_nextjs_project() {
    let project_type = NextJs::detect(&dir(&["package.json", "next.config.js"]));
    assert!(project_type.is_some() && project_type.unwrap().name() == "NextJS");
}

#[test]
fn test_detect_nextjs_with_mjs_config() {
    let project_type = NextJs::detect(&dir(&["package.json", "next.config.mjs"]));
    assert!(project_type.is_some() && project_type.unwrap().name() == "NextJS");
}

#[test]
fn test_no_detect_without_next_config() {
    let project_type = NextJs::detect(&dir(&["package.json"]));
    assert!(project_type.is_none());
}

#[test]
fn nodejs_test_detect_nodejs_project() {
    let project_type = Nodejs::detect(&dir(&["package.json"]));
    assert!(project_type.is_some() && project_type.unwrap().name() == "Nodejs");
}

#[test]
fn rails_test_detect_rails_project() {
    let project_type = Rails::detect(&dir(&["Gemfile"]));
    assert!(project_type.is_some() && project_type.unwrap().name() == "Rails");
}

#[test]
fn rust_test_detect_rust_project() {
    let project_type = Rust::detect(&dir(&["Cargo.lock"]));
    assert!(project_type.is_some() && project_type.unwrap().name() == "Rust");
}

#[test]
fn project_type_test_detect_rails_project() {
    assert_eq!(ProjectType::detect(&dir(&["Gemfile"])), ProjectType::Rails);
}

#[test]
fn project_type_test_detect_nodejs_project() {
    assert_eq!(ProjectType::detect(&dir(&["package.json"])), ProjectType::NodeJs);
}

#[test]
fn project_type_test_detect_rust_project() {
    assert_eq!(ProjectType::detect(&dir(&["Cargo.lock"])), ProjectType::Rust);
}

#[test]
fn test_detect_unknown_project() {
    assert_eq!(ProjectType::detect(&dir(&[])), ProjectType::Unknown);
}

#[test]
fn project_type_names_and_messages() {
    assert_eq!(ProjectType::NodeJs.to_string(), "Node.js");
    assert_eq!(ProjectType::Rails.to_string(), "Rails");
    assert_eq!(ProjectType::Rust.to_string(), "Rust");
    assert_eq!(ProjectType::Unknown.to_string(), "Unknown");
    assert_eq!(ProjectType::Rails.detected_message(), "\nRails project detected!\n");
    assert_eq!(ProjectType::Unknown.detected_message(), "\nNo project detected :(\n");
    // Gemfile wins over package.json
    assert_eq!(ProjectType::detect(&dir(&["package.json", "Gemfile"])), ProjectType::Rails);
}

#[test]
fn command_mapping_for_each_project_type() {
    let rails = CommandMapping::for_project_type(&ProjectType::Rails, &dir(&["spec"])).unwrap();
    assert_eq!(rails.install, "bundle install");
    assert_eq!(rails.migrate.as_deref(), Some("bin/rails db:migrate"));
    assert_eq!(rails.start.as_deref(), Some("bin/dev"));
    assert_eq!(rails.test.as_deref(), Some("bin/rspec"));
    let node = CommandMapping::for_project_type(&ProjectType::NodeJs, &dir(&[])).unwrap();
    assert_eq!(node.install, "npm install");
    assert_eq!(node.migrate, None);
    assert_eq!(node.start.as_deref(), Some("npm start"));
    assert_eq!(node.test, None);
    assert!(CommandMapping::for_project_type(&ProjectType::Unknown, &dir(&[])).is_none());
    assert!(CommandMapping::for_project_type(&ProjectType::Rust, &dir(&[])).is_none());
}

#[test]
fn rails_test_command_prefers_test_dir() {
    assert_eq!(determine_rails_test_command(&dir(&["test", "spec"])).as_deref(), Some("bin/rails t"));
    assert_eq!(determine_rails_test_command(&dir(&["spec"])).as_deref(), Some("bin/rspec"));
    assert_eq!(determine_rails_test_command(&dir(&[])), None);
}

#[test]
fn chain_detects_most_specific_first() {
    let cases: Vec<(Vec<&str>, &str)> = vec![
        (vec!["Gemfile", "source"], "Middleman"),
        (vec!["Gemfile"], "Rails"),
        (vec!["Anchor.toml", "Cargo.toml"], "Anchor"),
        (vec!["Cargo.toml"], "Rust"),
        (vec!["package.json", "next.config.ts"], "NextJS"),
        (vec!["package.json"], "Nodejs"),
    ];
    for (paths, expected) in cases {
        let t = detect_project(&dir(&paths)).expect(expected);
        assert_eq!(t.name(), expected);
    }
    assert!(detect_project(&dir(&["README.md"])).is_none());
}

#[test]
fn chain_commands_follow_the_directory() {
    let probe = dir_with_bins(&["Gemfile", "bin/dev", "test", ".kamal"], &["fzf"]);
    let rails = detect_project(&probe).unwrap();
    assert_eq!(project_command(&*rails, "install", &probe).as_deref(), Some("bundle install"));
    assert_eq!(project_command(&*rails, "start", &probe).as_deref(), Some("bin/dev"));
    assert_eq!(project_command(&*rails, "test", &probe).as_deref(), Some("bin/rails test"));
    assert_eq!(
        project_command(&*rails, "routes", &probe).as_deref(),
        Some("bin/rails routes | fzf -e")
    );
    assert_eq!(project_command(&*rails, "deploy", &probe).as_deref(), Some("kamal deploy"));
    assert_eq!(project_command(&*rails, "lint", &probe), None);

    let bare = dir(&["Gemfile"]);
    assert_eq!(project_command(&*rails, "start", &bare).as_deref(), Some("bin/rails s"));
    assert_eq!(project_command(&*rails, "test", &bare), None);
    assert_eq!(project_command(&*rails, "routes", &bare).as_deref(), Some("bin/rails routes"));
    assert_eq!(project_command(&*rails, "deploy", &bare), None);

    let anchor_dir = dir(&["Anchor.toml"]);
    let anchor = detect_project(&anchor_dir).unwrap();
    assert_eq!(project_command(&*anchor, "deploy", &anchor_dir).as_deref(), Some("anchor deploy"));
    assert_eq!(project_command(&*anchor, "migrate", &anchor_dir), None);

    let node_dir = dir(&["package.json"]);
    let node = detect_project(&node_dir).unwrap();
    assert_eq!(project_command(&*node, "test", &node_dir).as_deref(), Some("npm test"));
    assert_eq!(project_command(&*node, "console", &node_dir), None);
}

#[test]
fn suggester_filters_by_prefix() {
    assert_eq!(suggester("s"), vec!["start".to_string()]);
    assert_eq!(suggester("")[0], "install");
    assert_eq!(suggester("").len(), 6);
    assert_eq!(suggester("xyz"), Vec::<String>::new());
    assert_eq!(suggester("co"), vec!["console".to_string()]);
}
