use lunchbox::manifests::{resolve_from, Listing};

fn listings(home: &str, project: Option<Vec<(&str, bool)>>, global: Option<Vec<(&str, bool)>>) -> Vec<Listing> {
    let conv = |e: Option<Vec<(&str, bool)>>| e.map(|v| v.into_iter().map(|(n, f)| (n.to_string(), f)).collect());
    vec![
        Listing { dir: "lunchbox/manifests".to_string(), entries: conv(project) },
        Listing { dir: format!("{home}/.lunchbox/manifests"), entries: conv(global) },
    ]
}

#[test]
fn resolve_from_prefers_existing_paths_unchanged() {
    let l = listings("/h", None, None);
    assert_eq!(resolve_from("./team.toml", true, Some("/h"), &l).unwrap(), "./team.toml");
}

#[test]
fn resolve_from_project_dir_wins_over_home() {
    let l = listings("/h", Some(vec![("review.toml", true)]), Some(vec![("review.toml", true)]));
    assert_eq!(resolve_from("review", false, Some("/h"), &l).unwrap(), "lunchbox/manifests/review.toml");
    let l = listings("/h", Some(vec![]), Some(vec![("review.toml", true)]));
    assert_eq!(resolve_from("review", false, Some("/h"), &l).unwrap(), "/h/.lunchbox/manifests/review.toml");
}

#[test]
fn resolve_from_needs_home() {
    let err = resolve_from("review", true, None, &vec![]).unwrap_err();
    assert_eq!(err, "HOME is not set; cannot locate the lunchbox directory");
}

#[test]
fn resolve_from_miss_lists_searched_dirs_and_candidates() {
    let l = listings("/h", Some(vec![("e2e.toml", true), ("notes.txt", true)]), None);
    let err = resolve_from("missing", false, Some("/h"), &l).unwrap_err();
    assert_eq!(
        err,
        "manifest 'missing' not found in any discovery dir (searched: lunchbox/manifests, /h/.lunchbox/manifests); available: e2e"
    );
    let l = listings("/h", None, None);
    let err = resolve_from("missing", false, Some("/h"), &l).unwrap_err();
    assert!(err.ends_with("available: none"), "{err}");
}
