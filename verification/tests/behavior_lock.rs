use qq_cli::config::{ConfigFile, TrustStore};
use qq_cli::resolver::{resolve, Probe};

fn probe(paths: &[&str], bins: &[&str]) -> Probe {
    Probe::new(
        paths.iter().map(|p| p.to_string()).collect(),
        bins.iter().map(|b| b.to_string()).collect(),
    )
}

fn resolved_with(paths: &[&str], bins: &[&str], command: &str) -> Option<String> {
    let p = probe(paths, bins);
    resolve(&p, ConfigFile::Missing, ConfigFile::Missing, &TrustStore::new(), "/work/.qq.toml")
        .unwrap()
        .resolution
        .expect("fixture should detect a project type")
        .command(command, &p)
}

fn resolved(paths: &[&str], command: &str) -> Option<String> {
    resolved_with(paths, &[], command)
}

fn detected_name(paths: &[&str]) -> Option<String> {
    let p = probe(paths, &[]);
    resolve(&p, ConfigFile::Missing, ConfigFile::Missing, &TrustStore::new(), "/work/.qq.toml")
        .unwrap()
        .resolution
        .and_then(|r| r.display_name)
}

const RAILS: &[&str] = &["Gemfile"];
const MIDDLEMAN: &[&str] = &["Gemfile", "source"];
const ANCHOR: &[&str] = &["Anchor.toml"];
const RUST: &[&str] = &["Cargo.toml"];
const NEXTJS: &[&str] = &["package.json", "next.config.js"];
const NODEJS: &[&str] = &["package.json"];

#[test]
fn rails_unconditional_commands() {
    assert_eq!(resolved(RAILS, "install").as_deref(), Some("bundle install"));
    assert_eq!(resolved(RAILS, "migrate").as_deref(), Some("bin/rails db:migrate"));
    assert_eq!(resolved(RAILS, "console").as_deref(), Some("bin/rails c"));
}

#[test]
fn middleman_commands() {
    assert_eq!(resolved(MIDDLEMAN, "install").as_deref(), Some("bundle install"));
    assert_eq!(resolved(MIDDLEMAN, "start").as_deref(), Some("bundle exec middleman serve"));
    assert_eq!(resolved(MIDDLEMAN, "migrate"), None);
    assert_eq!(resolved(MIDDLEMAN, "console"), None);
    assert_eq!(resolved(MIDDLEMAN, "test"), None);
    assert_eq!(resolved(MIDDLEMAN, "routes"), None);
}

#[test]
fn anchor_commands() {
    assert_eq!(resolved(ANCHOR, "install").as_deref(), Some("anchor build"));
    assert_eq!(resolved(ANCHOR, "start").as_deref(), Some("anchor localnet"));
    assert_eq!(resolved(ANCHOR, "test").as_deref(), Some("anchor test"));
    assert_eq!(resolved(ANCHOR, "migrate"), None);
    assert_eq!(resolved(ANCHOR, "console"), None);
    assert_eq!(resolved(ANCHOR, "routes"), None);
}

#[test]
fn rust_commands() {
    assert_eq!(resolved(RUST, "install").as_deref(), Some("cargo build"));
    assert_eq!(resolved(RUST, "start").as_deref(), Some("cargo run"));
    assert_eq!(resolved(RUST, "test").as_deref(), Some("cargo test"));
    assert_eq!(resolved(RUST, "migrate"), None);
    assert_eq!(resolved(RUST, "console"), None);
    assert_eq!(resolved(RUST, "routes"), None);
}

#[test]
fn nextjs_commands() {
    assert_eq!(resolved(NEXTJS, "install").as_deref(), Some("npm install"));
    assert_eq!(resolved(NEXTJS, "start").as_deref(), Some("npm run dev"));
    assert_eq!(resolved(NEXTJS, "test").as_deref(), Some("npm test"));
}

#[test]
fn nodejs_commands() {
    assert_eq!(resolved(NODEJS, "install").as_deref(), Some("npm install"));
    assert_eq!(resolved(NODEJS, "start").as_deref(), Some("npm start"));
    assert_eq!(resolved(NODEJS, "test").as_deref(), Some("npm test"));
}

#[test]
fn rails_start_prefers_bin_dev_when_present() {
    let cmd = resolved(&["Gemfile", "bin", "bin/dev"], "start");
    assert_eq!(cmd.as_deref(), Some("bin/dev"));
}

#[test]
fn rails_start_falls_back_to_rails_s() {
    let cmd = resolved(RAILS, "start");
    assert_eq!(cmd.as_deref(), Some("bin/rails s"));
}

#[test]
fn rails_test_prefers_rspec_with_spec_dir() {
    let cmd = resolved(&["Gemfile", "spec", "test"], "test");
    assert_eq!(cmd.as_deref(), Some("bin/rspec spec/"));
}

#[test]
fn rails_test_uses_rails_test_with_test_dir_only() {
    let cmd = resolved(&["Gemfile", "test"], "test");
    assert_eq!(cmd.as_deref(), Some("bin/rails test"));
}

#[test]
fn rails_test_unsupported_without_spec_or_test() {
    let cmd = resolved(RAILS, "test");
    assert_eq!(cmd, None);
}

#[test]
fn rails_routes_follows_fzf_availability() {
    for fzf_available in [true, false] {
        let bins: &[&str] = if fzf_available { &["fzf"] } else { &[] };
        let expected = if fzf_available {
            "bin/rails routes | fzf -e"
        } else {
            "bin/rails routes"
        };
        assert_eq!(resolved_with(RAILS, bins, "routes").as_deref(), Some(expected));
    }
}

#[test]
fn deploy_is_kamal_gated_for_every_defaulting_type() {
    let fixtures: Vec<(&str, &[&str])> = vec![
        ("Rails", RAILS),
        ("Middleman", MIDDLEMAN),
        ("Rust", RUST),
        ("NextJS", NEXTJS),
        ("Nodejs", NODEJS),
    ];
    for (name, paths) in &fixtures {
        let without = resolved(paths, "deploy");
        assert_eq!(without, None, "{name}: deploy without .kamal");

        let mut with_kamal: Vec<&str> = paths.to_vec();
        with_kamal.push(".kamal");
        let with = resolved(&with_kamal, "deploy");
        assert_eq!(with.as_deref(), Some("kamal deploy"), "{name}: deploy with .kamal");
    }
}

#[test]
fn anchor_deploy_ignores_kamal_gate() {
    let without = resolved(ANCHOR, "deploy");
    assert_eq!(without.as_deref(), Some("anchor deploy"));

    let with = resolved(&["Anchor.toml", ".kamal"], "deploy");
    assert_eq!(with.as_deref(), Some("anchor deploy"));
}

#[test]
fn gemfile_with_source_dir_is_middleman_not_rails() {
    assert_eq!(detected_name(MIDDLEMAN).as_deref(), Some("Middleman"));
}

#[test]
fn anchor_toml_with_cargo_toml_is_anchor_not_rust() {
    assert_eq!(detected_name(&["Anchor.toml", "Cargo.toml"]).as_deref(), Some("Anchor"));
}

#[test]
fn package_json_with_next_config_is_nextjs_not_nodejs() {
    assert_eq!(detected_name(NEXTJS).as_deref(), Some("NextJS"));
}

#[test]
fn unrecognized_directory_detects_nothing() {
    assert_eq!(detected_name(&[]), None);
}
