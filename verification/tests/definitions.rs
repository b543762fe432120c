use qq_cli::definitions::builtin_types;
use std::collections::HashSet;

#[test]
fn all_embedded_definitions_parse_and_all_six_types_load() {
    let types = builtin_types().expect("every embedded definition must parse");
    let keys: Vec<&str> = types.iter().map(|(k, _)| k.as_str()).collect();
    assert_eq!(
        keys,
        vec!["middleman", "rails", "anchor", "rust", "nextjs", "nodejs"],
        "priority order must reproduce the legacy detection chain"
    );
}

#[test]
fn priorities_are_unique() {
    let types = builtin_types().unwrap();
    let priorities: HashSet<i64> = types.iter().map(|(_, t)| t.priority).collect();
    assert_eq!(priorities.len(), types.len());
}

#[test]
fn every_type_has_a_display_name_and_install() {
    for (key, t) in builtin_types().unwrap() {
        assert!(t.name.is_some(), "{key}: display name required");
        assert!(t.commands.contains_key("install"), "{key}: install required");
    }
}

#[test]
fn non_anchor_definitions_carry_kamal_gated_deploy() {
    for (key, t) in builtin_types().unwrap() {
        let deploy = t.commands.get("deploy").unwrap_or_else(|| panic!("{key}: deploy missing"));
        if key == "anchor" {
            assert_eq!(deploy.len(), 1);
            assert_eq!(deploy[0].run, "anchor deploy");
            assert!(deploy[0].when_path.is_none(), "anchor deploy is unconditional");
        } else {
            assert_eq!(deploy.len(), 1, "{key}: single gated deploy candidate");
            assert_eq!(deploy[0].run, "kamal deploy", "{key}");
            assert_eq!(deploy[0].when_path.as_deref(), Some(".kamal"), "{key}");
        }
    }
}

#[test]
fn builtin_priorities_increase_in_detection_order() {
    let types = builtin_types().unwrap();
    let priorities: Vec<i64> = types.iter().map(|(_, t)| t.priority).collect();
    assert_eq!(priorities, vec![10, 20, 30, 40, 50, 60]);
}

#[test]
fn builtin_display_names_and_markers() {
    let types = builtin_types().unwrap();
    let names: Vec<&str> = types.iter().map(|(_, t)| t.name.as_deref().unwrap()).collect();
    assert_eq!(names, vec!["Middleman", "Rails", "Anchor", "Rust", "NextJS", "Nodejs"]);
    let (_, middleman) = &types[0];
    assert_eq!(middleman.detect, vec!["Gemfile".to_string(), "source".to_string()]);
    let (_, nextjs) = &types[4];
    assert_eq!(nextjs.detect, vec!["package.json".to_string()]);
    assert_eq!(
        nextjs.detect_any,
        vec![
            "next.config.js".to_string(),
            "next.config.mjs".to_string(),
            "next.config.ts".to_string()
        ]
    );
    for (_, t) in &types {
        assert_eq!(t.commands.len() >= 3, true);
    }
}

#[test]
fn rails_candidates_are_ordered_fallbacks() {
    let types = builtin_types().unwrap();
    let (key, rails) = &types[1];
    assert_eq!(key, "rails");
    let start = rails.commands.get("start").unwrap();
    assert_eq!(start.len(), 2);
    assert_eq!(start[0].run, "bin/dev");
    assert_eq!(start[0].when_path.as_deref(), Some("bin/dev"));
    assert_eq!(start[1].run, "bin/rails s");
    assert!(start[1].when_path.is_none() && start[1].when_bin.is_none());
    let routes = rails.commands.get("routes").unwrap();
    assert_eq!(routes[0].when_bin.as_deref(), Some("fzf"));
    assert_eq!(routes[1].run, "bin/rails routes");
    let test = rails.commands.get("test").unwrap();
    assert_eq!(test[0].run, "bin/rspec spec/");
    assert_eq!(test[0].when_path.as_deref(), Some("spec"));
    assert_eq!(test[1].run, "bin/rails test");
    assert_eq!(test[1].when_path.as_deref(), Some("test"));
}
