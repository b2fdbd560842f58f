use lunchbox::library::ListedSkill;
use lunchbox::resolve::Locked;
use lunchbox::run::{ManifestInput, Worker};
use lunchbox::tui::preview::PreviewState;

fn listed(name: &str, tokens: u64) -> ListedSkill {
    ListedSkill { name: name.to_string(), source: "/home/w/.agents/skills".to_string(), tokens }
}

#[test]
fn preselect_marks_only_pinned_skills() {
    let mut state = PreviewState::new(vec![listed("demo-review", 14), listed("demo-scan", 13)], 27, 2000);
    state.preselect(&["demo-review".to_string()]);
    assert_eq!(state.selected, vec![true, false]);
    assert_eq!(state.selected_tokens(), 14);
}

#[test]
fn budget_flips_to_over() {
    let state = PreviewState::new(vec![listed("demo-review", 14)], 0, 10);
    assert!(!state.over_budget());
    let mut state = state;
    state.selected[0] = true;
    assert!(state.over_budget());
}

fn plan(label: &str, root: &str, error: Option<&str>) -> lunchbox::tui::menu::pantry::SectionPlan {
    lunchbox::tui::menu::pantry::SectionPlan {
        label: label.to_string(),
        root: root.to_string(),
        error: error.map(str::to_string),
    }
}

#[test]
fn build_sections_pairs_each_plan_with_its_reading() {
    let skill = ListedSkill { name: "demo-review".to_string(), source: "/lib/demo-review".to_string(), tokens: 12 };
    let plans = vec![
        plan("--library", "/lib", None),
        plan("pantry:broken", "/p/broken", Some("no Skill packages")),
        plan("default", "/gone", None),
        plan("library_paths", "/bad", None),
    ];
    let scans = vec![Some(Ok(vec![skill.clone()])), None, Some(Ok(vec![])), Some(Err("cannot list".to_string()))];
    let sections = lunchbox::tui::menu::pantry::build_sections(plans, scans);
    assert_eq!(sections.len(), 4);
    assert_eq!(sections[0].label, "--library");
    assert_eq!(sections[0].skills, vec![skill]);
    assert_eq!(sections[1].error.as_deref(), Some("no Skill packages"));
    assert!(sections[1].skills.is_empty());
    assert!(sections[2].error.is_none() && sections[2].skills.is_empty());
    assert_eq!(sections[3].error.as_deref(), Some("cannot list"));
}

#[test]
fn pin_hashes_writes_hash_pins() {
    let locked = vec![Locked {
        name: "demo-review".to_string(),
        source: "/lib/demo-review".to_string(),
        hash: "sha256:abc".to_string(),
        scan: "none".to_string(),
        description_tokens: 5,
    }];
    let input = ManifestInput {
        schema: 1,
        task: "review".to_string(),
        adapter: "none".to_string(),
        run_id: None,
        created_at: None,
        harness_argv: None,
        budget: None,
        workers: vec![Worker {
            name: "main".to_string(),
            pack: vec!["demo-review".to_string(), "demo-review@sha256:old".to_string(), "other".to_string()],
            description: None,
            tools: Some(vec!["read".to_string()]),
        }],
    };
    let pinned = lunchbox::tui::menu::editor::hash_pins(input, &locked);
    assert_eq!(pinned.task, "review");
    assert_eq!(pinned.workers[0].name, "main");
    assert_eq!(pinned.workers[0].tools, Some(vec!["read".to_string()]));
    assert_eq!(pinned.workers[0].pack, vec!["demo-review@sha256:abc", "demo-review@sha256:abc", "other@"]);
}

#[test]
fn listing_tokens_fit_guards_the_preview() {
    assert!(lunchbox::tui::preview::listing_tokens_fit(&vec![listed("a", 14), listed("b", 13)]));
    assert!(!lunchbox::tui::preview::listing_tokens_fit(&vec![listed("a", u64::MAX), listed("b", 1)]));
}
