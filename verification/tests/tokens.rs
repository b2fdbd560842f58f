use lunchbox::tokens::{estimate, with_preamble, SKILL_LISTING_OVERHEAD_CHARS};

#[test]
fn demo_fixture_constants() {
    assert_eq!(estimate("demo-review", "Review staged changes for defects and risks."), 65);
    assert_eq!(estimate("demo-scan", "Scan for leaked secrets in the worktree."), 64);
}

#[test]
fn overhead_is_added_after_the_description_chars() {
    let base = SKILL_LISTING_OVERHEAD_CHARS as u64;
    assert_eq!(estimate("", ""), (base + 1).div_ceil(4));
    assert_eq!(estimate("abcd", ""), (base + 1 + 4).div_ceil(4));
    assert_eq!(estimate("abcde", ""), (base + 1 + 5).div_ceil(4));
}

#[test]
fn counts_unicode_scalars_not_bytes() {
    let base = SKILL_LISTING_OVERHEAD_CHARS as u64;
    assert_eq!(estimate("éééé", ""), (base + 1 + 4).div_ceil(4));
}

#[test]
fn preamble_applies_once_and_only_to_nonempty_menus() {
    assert_eq!(with_preamble(0), 0);
    assert_eq!(with_preamble(129), 203);
}
