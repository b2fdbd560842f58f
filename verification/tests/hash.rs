use lunchbox::hash::{hash_files, hash_tree_files, is_skipped, path_kept, TreeFile};

fn file(relative: &str, bytes: &str) -> TreeFile {
    TreeFile { relative: relative.to_string(), bytes: bytes.as_bytes().to_vec() }
}

fn golden() -> Vec<TreeFile> {
    vec![file("SKILL.md", "hello golden\n"), file("refs/a.txt", "abc")]
}

#[test]
fn golden_fixture_hash_is_stable() {
    assert_eq!(
        hash_files(golden()),
        "sha256:6cffec6f66e39626ec7618746bc538791aa2f3e38e0df079b0f825d1f3c15b0c"
    );
}

#[test]
fn listing_order_does_not_change_the_hash() {
    let reversed = vec![file("refs/a.txt", "abc"), file("SKILL.md", "hello golden\n")];
    assert_eq!(hash_files(golden()), hash_files(reversed));
}

#[test]
fn same_content_different_layout_differs() {
    let flat = vec![file("SKILL.md", "hello golden\n"), file("a.txt", "abc")];
    assert_ne!(hash_files(golden()), hash_files(flat));
}

#[test]
fn content_change_changes_hash() {
    let changed = vec![file("SKILL.md", "hello golden\n"), file("refs/a.txt", "abd")];
    assert_ne!(hash_files(golden()), hash_files(changed));
}

#[test]
fn empty_tree_hashes_to_stable_value() {
    assert_eq!(
        hash_files(Vec::new()),
        "sha256:e3b0c44298fc1c149afbf4c8996fb92427ae41e4649b934ca495991b7852b855"
    );
}

#[test]
fn skip_rules_name_bookkeeping_entries() {
    for name in [".git", "__pycache__", ".DS_Store", ".skill_metadata.json", "m.pyc"] {
        assert!(is_skipped(name), "{name}");
    }
    for name in ["SKILL.md", "refs", "git", "a.py"] {
        assert!(!is_skipped(name), "{name}");
    }
}

#[test]
fn skip_rules_exclude_bookkeeping() {
    let mut noisy = golden();
    noisy.push(file(".git/index", "git-bytes"));
    noisy.push(file("__pycache__/m.pyc", "compiled"));
    noisy.push(file(".DS_Store", "junk"));
    noisy.push(file(".skill_metadata.json", "{\"manager\":\"bookkeeping\"}"));
    assert_eq!(hash_tree_files(golden()), hash_tree_files(noisy));
}

#[test]
fn tree_hash_of_kept_files_is_the_file_hash() {
    assert_eq!(
        hash_tree_files(golden()),
        "sha256:6cffec6f66e39626ec7618746bc538791aa2f3e38e0df079b0f825d1f3c15b0c"
    );
}

#[test]
fn changing_bookkeeping_bytes_keeps_the_hash() {
    let mut a = golden();
    a.push(file(".git/HEAD", "ref: main"));
    let mut b = golden();
    b.push(file(".git/HEAD", "ref: other"));
    assert_eq!(hash_tree_files(a), hash_tree_files(b));
}

#[test]
fn path_kept_checks_every_component() {
    assert!(path_kept("SKILL.md"));
    assert!(path_kept("refs/a.txt"));
    assert!(path_kept("git/x"));
    assert!(!path_kept(".git/index"));
    assert!(!path_kept("refs/__pycache__/m.py"));
    assert!(!path_kept("refs/m.pyc"));
    assert!(!path_kept(".DS_Store"));
}
