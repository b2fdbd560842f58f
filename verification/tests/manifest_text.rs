use lunchbox::manifest_text::save_text;
use lunchbox::run::{Budget, ManifestInput, Worker};

fn input(task: &str, workers: Vec<(&str, Vec<&str>, Option<Vec<&str>>)>, budget: Option<u64>) -> ManifestInput {
    ManifestInput {
        schema: 1,
        task: task.to_string(),
        adapter: "none".to_string(),
        run_id: None,
        created_at: None,
        harness_argv: None,
        budget: budget.map(|max_menu_tokens| Budget { max_menu_tokens }),
        workers: workers
            .into_iter()
            .map(|(name, pack, tools)| Worker {
                name: name.to_string(),
                pack: pack.into_iter().map(str::to_string).collect(),
                description: None,
                tools: tools.map(|t| t.into_iter().map(str::to_string).collect()),
            })
            .collect(),
    }
}

#[test]
fn save_round_trips_comments_and_unknown_keys() {
    let existing = "# my note\nschema = 1\ntask = \"old\"\nadapter = \"none\"\nrun_id = \"x\"\n\
                    [[workers]]\nname = \"w\"\npack = [\"demo-review\"]\n";
    let text = save_text(Some(existing), &input("new task", vec![("w", vec!["demo-review"], None)], None)).unwrap();
    assert!(text.contains("# my note"), "{text}");
    assert!(text.contains("run_id = \"x\""), "{text}");
    assert!(text.contains("task = \"new task\""), "{text}");
    assert!(text.contains("schema = 1"), "{text}");
    assert!(text.contains("pack = ["), "{text}");
    assert!(text.contains("\"demo-review\""), "{text}");
    assert!(!text.contains("old"), "{text}");
}

#[test]
fn save_writes_tools_budget_and_every_worker() {
    let text = save_text(
        None,
        &input("t", vec![("a", vec!["x"], Some(vec!["read", "bash"])), ("b", vec!["y"], Some(vec![]))], Some(1500)),
    )
    .unwrap();
    assert!(text.contains("max_menu_tokens = 1500"), "{text}");
    assert!(text.contains("tools = [\"read\", \"bash\"]"), "{text}");
    assert_eq!(text.matches("[[workers]]").count(), 2, "{text}");
    assert_eq!(text.matches("tools").count(), 1, "an empty tools list is not written: {text}");
    let again = save_text(Some(&text), &input("t", vec![("a", vec!["x"], None)], None)).unwrap();
    assert!(!again.contains("budget"), "{again}");
    assert_eq!(again.matches("[[workers]]").count(), 1, "workers are written afresh: {again}");
}

#[test]
fn save_refuses_text_that_does_not_parse() {
    assert!(save_text(Some("schema = = 1"), &input("t", vec![("a", vec!["x"], None)], None)).is_err());
    let err = save_text(Some("budget = 3\n"), &input("t", vec![("a", vec!["x"], None)], Some(1))).unwrap_err();
    assert_eq!(err, "'budget' in the manifest is not a table");
}
