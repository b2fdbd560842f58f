use lunchbox::library::{parse_frontmatter, scan_root, FoundSkill};

#[test]
fn frontmatter_name_and_description() {
    let meta = parse_frontmatter("---\nname: my-skill\ndescription: Does things.\n---\n\nbody\n", "dirname");
    assert_eq!(meta.name, "my-skill");
    assert_eq!(meta.description, "Does things.");
}

#[test]
fn quoted_scalars_are_stripped() {
    let meta = parse_frontmatter("---\nname: \"quoted\"\ndescription: 'single'\n---\n", "dirname");
    assert_eq!(meta.name, "quoted");
    assert_eq!(meta.description, "single");
}

#[test]
fn indented_keys_are_ignored() {
    let meta = parse_frontmatter("---\nname: real\nnested:\n  name: ignored\n---\n", "dirname");
    assert_eq!(meta.name, "real");
}

#[test]
fn missing_name_falls_back_to_dir_name() {
    let meta = parse_frontmatter("---\ndescription: only description\n---\n", "dir-name");
    assert_eq!(meta.name, "dir-name");
    assert_eq!(meta.description, "only description");
}

#[test]
fn no_frontmatter_uses_dir_name_and_empty_description() {
    let meta = parse_frontmatter("just a body\n", "dir-name");
    assert_eq!(meta.name, "dir-name");
    assert_eq!(meta.description, "");
}

fn found(name: &str) -> FoundSkill {
    FoundSkill { name: name.to_string(), description: "d".to_string(), source: format!("/lib/{name}") }
}

#[test]
fn scan_root_sorts_by_name_and_refuses_duplicates() {
    let skills = scan_root("/lib", true, vec![found("beta"), found("alpha")]).unwrap();
    assert_eq!(skills.iter().map(|s| s.name.as_str()).collect::<Vec<_>>(), vec!["alpha", "beta"]);
    assert!(scan_root("/lib", true, vec![found("a"), found("a")]).is_err());
    assert!(scan_root("/missing", false, Vec::new()).unwrap().is_empty());
}

#[test]
fn scan_root_lists_valid_packages_sorted() {
    let found = scan_root("/lib", true, vec![found("zeta"), found("alpha")]).unwrap();
    let names: Vec<&str> = found.iter().map(|f| f.name.as_str()).collect();
    assert_eq!(names, vec!["alpha", "zeta"]);
}

#[test]
fn scan_root_rejects_duplicate_names_in_one_root() {
    let err = scan_root("/lib", true, vec![found("dup"), found("dup")]).unwrap_err();
    assert_eq!(err, "two packages with the name 'dup' in library root /lib; pin by hash to disambiguate");
}

#[test]
fn find_in_root_reports_missing_skill_md() {
    let err = lunchbox::library::find_in_root("/lib", true, vec![found("other")], "ghost", true).unwrap_err();
    assert!(err.contains("missing SKILL.md"), "{err}");
    assert_eq!(err, "skill 'ghost' at /lib/ghost is missing SKILL.md");
    let matches = lunchbox::library::find_in_root("/lib", true, vec![found("ghost"), found("x")], "ghost", false).unwrap();
    assert_eq!(matches.len(), 1);
}

#[test]
fn listed_skills_carry_their_listing_tokens() {
    let skills = vec![
        FoundSkill { name: "demo-review".to_string(), description: "Review staged changes for defects and risks.".to_string(), source: "/s/r".to_string() },
        FoundSkill { name: "demo-scan".to_string(), description: "Scan for leaked secrets in the worktree.".to_string(), source: "/s/s".to_string() },
    ];
    let listed = lunchbox::library::listed_skills(&skills);
    assert_eq!(listed[0].tokens, 65);
    assert_eq!(listed[1].tokens, 64);
    assert_eq!(listed[1].source, "/s/s");
}
