use lunchbox::config::{append_layer_text, expand_tilde, merge, remove_layer_text, Config, Layer, List, MountMode};

#[test]
fn defaults_when_both_layers_absent() {
    let config = merge(Layer::default(), Layer::default());
    assert_eq!(config, Config::default());
    assert_eq!(config.default_adapter, "pi");
    assert_eq!(config.max_menu_tokens, 2000);
    assert_eq!(config.runs_dir, "~/.lunchbox/runs");
}

fn strings(items: &[&str]) -> Vec<String> {
    items.iter().map(|s| s.to_string()).collect()
}

#[test]
fn project_scalar_wins_over_global() {
    let global = Layer { default_adapter: Some("none".to_string()), ..Layer::default() };
    let project = Layer { default_adapter: Some("pi".to_string()), ..Layer::default() };
    assert_eq!(merge(global, project).default_adapter, "pi");
}

#[test]
fn global_scalar_used_when_project_silent() {
    let global = Layer { max_menu_tokens: Some(500), ..Layer::default() };
    assert_eq!(merge(global, Layer::default()).max_menu_tokens, 500);
}

#[test]
fn deny_unions_across_layers_deduped() {
    let global = Layer { deny: Some(strings(&["a", "b"])), ..Layer::default() };
    let project = Layer { deny: Some(strings(&["b", "c"])), ..Layer::default() };
    assert_eq!(merge(global, project).deny, vec!["a", "b", "c"]);
}

#[test]
fn allow_intersects_in_global_order() {
    let global = Layer { allow: Some(strings(&["a", "b", "c"])), ..Layer::default() };
    let project = Layer { allow: Some(strings(&["c", "a", "zzz"])), ..Layer::default() };
    assert_eq!(merge(global, project).allow, vec!["a", "c"]);
}

#[test]
fn allow_single_side_passes_through() {
    let global = Layer { allow: Some(strings(&["a"])), ..Layer::default() };
    assert_eq!(merge(global.clone(), Layer::default()).allow, vec!["a"]);
    assert_eq!(
        merge(Layer::default(), Layer { allow: Some(strings(&["b"])), ..Layer::default() }).allow,
        vec!["b"]
    );
}

#[test]
fn allow_both_empty_means_allow_any() {
    assert!(merge(Layer::default(), Layer::default()).allow.is_empty());
}

#[test]
fn library_paths_project_prepended_to_global() {
    let global = Layer { library_paths: Some(strings(&["/g1", "/g2"])), ..Layer::default() };
    let project = Layer { library_paths: Some(strings(&["/p1"])), ..Layer::default() };
    assert_eq!(merge(global, project).library_paths, vec!["/p1", "/g1", "/g2"]);
}

#[test]
fn mount_mode_parses_lowercase() {
    let layer = Layer { mount_mode: Some(MountMode::Copy), ..Layer::default() };
    assert_eq!(merge(Layer::default(), layer).mount_mode, MountMode::Copy);
    assert_eq!(MountMode::Copy.as_str(), "copy");
}

#[test]
fn tilde_expansion() {
    let home = "/home/maya";
    assert_eq!(expand_tilde("~", home), "/home/maya");
    assert_eq!(expand_tilde("~/.agents/skills", home), "/home/maya/.agents/skills");
    assert_eq!(expand_tilde("/abs/path", home), "/abs/path");
}

const GLOBAL_TOML: &str = "# global layer\n# managed by hand\nmax_menu_tokens = 4000\n\ndeny = [\"old-thing\"]\n";
const PROJECT_TOML: &str = "# project layer\nmount_mode = \"copy\"\n\n# policy below\nallow = [\"demo-review\"]\n";

#[test]
fn delete_removes_focused_entry_and_preserves_comments() {
    let text = remove_layer_text("lunchbox.toml", Some(PROJECT_TOML), List::Allow, "demo-review")
        .unwrap()
        .unwrap();
    assert!(text.contains("# project layer"), "{text}");
    assert!(text.contains("mount_mode = \"copy\""), "{text}");
    assert!(!text.contains("demo-review"), "{text}");
}

#[test]
fn add_deny_on_project_layer_preserves_format() {
    let after = append_layer_text("lunchbox.toml", Some(PROJECT_TOML), List::Deny, "demo-scan")
        .unwrap()
        .unwrap();
    assert!(after.contains("# project layer"), "comments must survive: {after}");
    assert!(after.contains("mount_mode = \"copy\""), "unrelated keys must survive: {after}");
    assert!(after.contains("# policy below"), "inline comments must survive: {after}");
    assert!(after.contains("deny = [\"demo-scan\"]"), "new deny entry must land: {after}");
}

#[test]
fn duplicate_entry_is_a_no_op() {
    let r = append_layer_text("config.toml", Some(GLOBAL_TOML), List::Deny, "old-thing").unwrap();
    assert_eq!(r, None, "already-present entry must not duplicate");
}

#[test]
fn append_to_existing_list_keeps_earlier_entries() {
    let after = append_layer_text("config.toml", Some(GLOBAL_TOML), List::Deny, "new-thing")
        .unwrap()
        .unwrap();
    assert!(after.contains("\"old-thing\""), "{after}");
    assert!(after.contains("\"new-thing\""), "{after}");
    assert!(after.contains("max_menu_tokens = 4000"), "{after}");
}

#[test]
fn append_to_missing_file_creates_the_list() {
    let after = append_layer_text("lunchbox.toml", None, List::Allow, "demo-scan").unwrap().unwrap();
    assert!(after.contains("allow = [\"demo-scan\"]"), "{after}");
}

#[test]
fn append_refuses_a_key_that_is_not_a_list() {
    let err = append_layer_text("lunchbox.toml", Some("allow = \"x\"\n"), List::Allow, "y").unwrap_err();
    assert_eq!(err, "'allow' in lunchbox.toml is not a list");
}

#[test]
fn unparseable_layer_text_is_refused() {
    let err = append_layer_text("lunchbox.toml", Some("allow = [\n"), List::Allow, "y").unwrap_err();
    assert!(err.starts_with("failed to parse config at lunchbox.toml: "), "{err}");
    let err = remove_layer_text("lunchbox.toml", Some("allow = [\n"), List::Allow, "y").unwrap_err();
    assert!(err.starts_with("failed to parse config at lunchbox.toml: "), "{err}");
}

#[test]
fn remove_from_missing_file_writes_nothing() {
    assert_eq!(remove_layer_text("lunchbox.toml", None, List::Deny, "x").unwrap(), None);
}
