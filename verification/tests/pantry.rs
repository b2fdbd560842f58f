use lunchbox::pantry::{
    detect_pantry_root, is_plain_component, name_from_url, pantry_dirs, select_pantries, validate_subdir, RepoEntry,
};

#[test]
fn names_derive_from_urls() {
    assert_eq!(name_from_url("https://github.com/nathanpt/agent-skills").unwrap(), "agent-skills");
    assert_eq!(name_from_url("https://github.com/nathanpt/agent-skills.git").unwrap(), "agent-skills");
    assert_eq!(name_from_url("https://github.com/nathanpt/agent-skills/").unwrap(), "agent-skills");
    assert_eq!(name_from_url("git@host:skills").unwrap(), "skills");
}

#[test]
fn names_reject_non_plain_components() {
    for url in ["https://host/..", "https://host/.", "https://host/.hidden", "https://host/.hidden.git"] {
        assert!(name_from_url(url).is_err(), "{url}");
    }
}

fn entry(name: &str, has_skills: bool) -> RepoEntry {
    RepoEntry { name: name.to_string(), is_dir: true, has_skills }
}

#[test]
fn detect_prefers_root_shaped_repos() {
    assert_eq!(detect_pantry_root("r", "/repo", None, false, true, &vec![]).unwrap(), "/repo");
}

#[test]
fn detect_finds_single_subdir() {
    assert_eq!(
        detect_pantry_root("r", "/repo", None, false, false, &vec![entry("skills", true), entry("docs", false)]).unwrap(),
        "/repo/skills"
    );
}

#[test]
fn detect_ignores_dot_dirs() {
    assert_eq!(
        detect_pantry_root("r", "/repo", None, false, false, &vec![entry("skills", true), entry(".git", true)]).unwrap(),
        "/repo/skills"
    );
}

#[test]
fn detect_rejects_ambiguity_and_emptiness() {
    let err = detect_pantry_root("r", "/repo", None, false, true, &vec![entry("skills", true)]).unwrap_err();
    assert!(err.contains("multiple candidate skill roots"), "{err}");
    assert!(err.contains("skills"), "{err}");
    let err = detect_pantry_root("r", "/repo", None, false, false, &vec![]).unwrap_err();
    assert!(err.contains("no Skill packages found"), "{err}");
}

#[test]
fn path_override_wins_and_is_validated() {
    assert_eq!(detect_pantry_root("r", "/repo", Some("skills"), true, true, &vec![]).unwrap(), "/repo/skills");
    let err = detect_pantry_root("r", "/repo", Some("missing"), false, true, &vec![]).unwrap_err();
    assert!(err.contains("no Skill packages under 'missing'"), "{err}");
    for bad in ["..", "/abs", "a/../b", ""] {
        assert!(detect_pantry_root("r", "/repo", Some(bad), true, true, &vec![]).is_err(), "{bad}");
    }
}

#[test]
fn subdirs_follow_path_component_rules() {
    assert!(validate_subdir("skills").is_ok());
    assert!(validate_subdir("a/./b").is_ok());
    assert!(validate_subdir("./a").is_err());
    assert!(validate_subdir("a/..").is_err());
    assert!(is_plain_component("agent-skills"));
    assert!(!is_plain_component(".hidden"));
    assert!(!is_plain_component("/root"));
}

#[test]
fn pantry_dirs_are_visible_directories_sorted() {
    let entries = vec![
        ("zeta".to_string(), true),
        (".cache".to_string(), true),
        ("alpha".to_string(), true),
        ("notes.path".to_string(), false),
    ];
    assert_eq!(pantry_dirs(&entries), vec!["alpha", "zeta"]);
}

#[test]
fn update_selects_by_name_or_all() {
    let names = vec!["a".to_string(), "b".to_string()];
    assert_eq!(select_pantries(&names, Some("b")), Ok(vec![1]));
    assert_eq!(select_pantries(&names, None), Ok(vec![0, 1]));
    assert_eq!(select_pantries(&names, Some("c")), Err("no managed pantry named 'c'".to_string()));
}

fn probe(name: &str, repo_has_skills: bool, entries: Vec<RepoEntry>) -> lunchbox::pantry::PantryProbe {
    lunchbox::pantry::PantryProbe {
        name: name.to_string(),
        path_override: None,
        override_has_skills: false,
        repo_has_skills,
        entries,
    }
}

#[test]
fn managed_pantries_find_each_root_in_order() {
    let probes = vec![probe("alpha", true, vec![]), probe("beta", false, vec![entry("skills", true)])];
    let managed = lunchbox::pantry::managed_pantries("/p", &probes).unwrap();
    assert_eq!(managed.len(), 2);
    assert_eq!(managed[0].repo, "/p/alpha");
    assert_eq!(managed[0].root, "/p/alpha");
    assert_eq!(managed[1].root, "/p/beta/skills");
    assert_eq!(lunchbox::pantry::resolve_roots("/p", &probes).unwrap(), vec!["/p/alpha", "/p/beta/skills"]);
}

#[test]
fn broken_pantry_fails_roots_but_reports_status() {
    let probes = vec![probe("alpha", true, vec![]), probe("empty", false, vec![])];
    let err = lunchbox::pantry::resolve_roots("/p", &probes).unwrap_err();
    assert!(err.starts_with("managed pantry 'empty': no Skill packages found in /p/empty"), "{err}");
    let statuses = lunchbox::pantry::pantry_statuses("/p", &probes, &vec![3, 9]);
    assert_eq!(statuses[0].root.as_deref(), Some("/p/alpha"));
    assert_eq!(statuses[0].skills, 3);
    assert_eq!(statuses[1].root, None);
    assert_eq!(statuses[1].skills, 0);
    assert_eq!(statuses[1].error.as_deref(), Some(err.as_str()));
}

#[test]
fn recorded_path_override_selects_the_root() {
    let mut p = probe("gamma", true, vec![entry("skills", true)]);
    p.path_override = Some("skills".to_string());
    p.override_has_skills = true;
    assert_eq!(lunchbox::pantry::resolve_roots("/p", &vec![p]).unwrap(), vec!["/p/gamma/skills"]);
}
