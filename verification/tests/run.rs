use lunchbox::clock::{new_run_id, now_iso};
use lunchbox::resolve::Locked;
use lunchbox::run::{launch, spawns, wait_step, Launch, WaitAction, WaitEvent};
use lunchbox::run::{
    build_lock, build_manifest, exit_status, pinned_names, harness_command, plan_start, start_refusal, gc_removes, shell_quote, signal_exit_code, waits, latest_run, normalize_packs, resolve_run_arg, run_status, teardown_result,
    Budget, ManifestInput, Outcome, RunStatus, Worker,
};

fn worker(name: &str, pack: &[&str]) -> Worker {
    Worker { name: name.to_string(), pack: pack.iter().map(|s| s.to_string()).collect(), description: None, tools: None }
}

fn locked_pair() -> Vec<Locked> {
    let mk = |name: &str, tokens: u64| Locked {
        name: name.to_string(),
        source: format!("/lib/{name}"),
        hash: format!("sha256:{name}"),
        scan: "pass".to_string(),
        description_tokens: tokens,
    };
    vec![mk("alpha", 14), mk("beta", 13)]
}

#[test]
fn run_id_shape() {
    let id = new_run_id([0x3a, 0x0f]);
    assert!(id.starts_with("lbx_"), "{id}");
    let parts: Vec<&str> = id.split('_').collect();
    assert_eq!(parts.len(), 4, "{id}");
    assert_eq!(parts[1].len(), 8, "{id}");
    assert_eq!(parts[2].len(), 6, "{id}");
    assert_eq!(parts[3].len(), 4, "{id}");
    assert!(parts[3].bytes().all(|b| b.is_ascii_digit() || (b'a'..=b'f').contains(&b)), "{id}");
    assert_eq!(parts[3], "3a0f");
}

#[test]
fn iso_timestamp_shape() {
    let ts = now_iso();
    assert_eq!(ts.len(), 20, "{ts}");
    assert!(ts.ends_with('Z'), "{ts}");
    assert_eq!(&ts[4..5], "-");
    assert_eq!(&ts[10..11], "T");
}

fn input(schema: u32, workers: Vec<Worker>) -> ManifestInput {
    ManifestInput {
        schema,
        task: "t".to_string(),
        adapter: "none".to_string(),
        run_id: None,
        created_at: None,
        harness_argv: None,
        budget: None,
        workers,
    }
}

#[test]
fn manifest_input_schema_mismatch() {
    let m = input(2, vec![worker("w", &["a"])]);
    assert_eq!(m.validate().unwrap_err(), "manifest schema 2 not supported (expected 1)");
}

#[test]
fn manifest_input_no_workers() {
    assert_eq!(input(1, vec![]).validate().unwrap_err(), "manifest has no workers");
}

#[test]
fn manifest_input_duplicate_worker_name() {
    let m = input(1, vec![worker("w", &["a"]), worker("w", &["b"])]);
    assert_eq!(m.validate().unwrap_err(), "duplicate worker name 'w' in manifest");
}

#[test]
fn manifest_input_empty_pack() {
    let m = input(1, vec![worker("w", &[])]);
    assert_eq!(m.validate().unwrap_err(), "worker 'w' has an empty pack");
}

#[test]
fn manifest_input_accepted_fields_are_ignored_not_required() {
    let mut m = input(1, vec![worker("w", &["a"])]);
    m.run_id = Some("lbx_old".to_string());
    m.created_at = Some("1999-01-01T00:00:00Z".to_string());
    m.harness_argv = Some(vec!["pi".to_string()]);
    assert!(m.validate().is_ok());
}

#[test]
fn build_lock_maps_shared_skills_to_every_worker_in_manifest_order() {
    let workers = vec![worker("parent", &["alpha", "beta"]), worker("checker", &["beta"])];
    let lock = build_lock("lbx_x", "symlink", "/w", &locked_pair(), &workers);
    let by_name = |name: &str| lock.skills.iter().find(|s| s.name == name).unwrap().workers.clone();
    assert_eq!(by_name("alpha"), vec!["parent".to_string()]);
    assert_eq!(by_name("beta"), vec!["parent".to_string(), "checker".to_string()]);
    assert_eq!(lock.schema, 1);
    assert_eq!(lock.workdir, "/w");
    assert_eq!(lock.skills[0].scan, "pass");
}

#[test]
fn manifest_roundtrip_and_schema() {
    let manifest = build_manifest(
        "lbx_x",
        "task text",
        "none",
        &["pi".to_string(), "-p".to_string()],
        2000,
        vec![worker("default", &["alpha", "beta"])],
    );
    assert_eq!(manifest.schema, 1);
    assert_eq!(manifest.run_id, "lbx_x");
    assert_eq!(manifest.budget, Budget { max_menu_tokens: 2000 });
    assert_eq!(manifest.harness_argv, vec!["pi", "-p"]);
    assert_eq!(manifest.workers[0].pack, vec!["alpha", "beta"]);
    assert_eq!(manifest.created_at.len(), 20);
}

#[test]
fn teardown_removes_workdir_writes_result_and_is_idempotent() {
    let manifest = build_manifest("lbx_x", "task", "none", &[], 2000, vec![worker("default", &["alpha"])]);
    let lock = build_lock("lbx_x", "symlink", "/run/workdir", &locked_pair(), &[worker("default", &["alpha"])]);
    let result = teardown_result(Outcome::Completed, Some(&manifest), Some(&lock), Some("lbx_x"), 0);
    assert_eq!(result.outcome, "ok");
    assert_eq!(result.menu_tokens, 27);
    assert!(result.unmounted);
    assert_eq!(result.skills.len(), 2);
    assert_eq!(result.skills[0].hash, "sha256:alpha");
    let again = teardown_result(Outcome::Completed, Some(&manifest), Some(&lock), Some("lbx_x"), 0);
    assert_eq!(again, result);
}

#[test]
fn teardown_abort_outcome_recorded() {
    let result = teardown_result(Outcome::Aborted, None, None, Some("run"), 50);
    assert_eq!(result.outcome, "aborted");
    assert_eq!(result.run_id, "run");
    assert_eq!(result.without_menu_tokens, 0);
    assert_eq!(result.menu_tokens, 0);
}

#[test]
fn status_transitions() {
    assert_eq!(run_status(None, None, true), RunStatus::Mounted);
    assert_eq!(run_status(None, Some(true), true), RunStatus::Running);
    assert_eq!(run_status(None, Some(false), true), RunStatus::Leaked);
    assert_eq!(run_status(None, None, false), RunStatus::Leaked);
    assert_eq!(run_status(Some("ok"), None, false), RunStatus::Finished);
    assert_eq!(run_status(Some("aborted"), Some(true), true), RunStatus::Aborted);
}

#[test]
fn gc_removes_stale_and_leaked_keeps_running() {
    assert!(gc_removes(RunStatus::Mounted, true));
    assert!(gc_removes(RunStatus::Leaked, false));
    assert!(!gc_removes(RunStatus::Running, true));
    assert!(!gc_removes(RunStatus::Finished, false));
}

#[test]
fn latest_run_is_lexicographically_greatest() {
    let entries = vec![
        ("lbx_20260101_000000_aa".to_string(), true),
        ("lbx_20260102_000000_bb".to_string(), true),
        ("lbx_20270101_000000_cc".to_string(), false),
        ("notes".to_string(), true),
    ];
    assert_eq!(latest_run("/runs", entries.clone()).unwrap(), "/runs/lbx_20260102_000000_bb");
    assert!(resolve_run_arg("/runs", None, false, entries.clone()).is_ok());
    assert_eq!(
        resolve_run_arg("/runs", Some("lbx_missing"), false, entries).unwrap_err(),
        "run 'lbx_missing' not found under /runs"
    );
    assert_eq!(resolve_run_arg("/runs", None, false, vec![]).unwrap_err(), "no runs found under /runs");
}

#[test]
fn normalize_packs_strips_pins_and_dedups() {
    let workers = vec![worker("w", &["alpha@sha256:alpha", "alpha", "beta"])];
    let packs = normalize_packs(workers, &locked_pair()).unwrap();
    assert_eq!(packs[0].pack, vec!["alpha", "beta"]);
    let err = normalize_packs(vec![worker("w", &["gamma"])], &locked_pair()).unwrap_err();
    assert_eq!(err, "worker 'w': skill 'gamma' did not resolve");
}

#[test]
fn why_reports_five_line_recap() {
    let manifest = build_manifest(
        "lbx_x",
        "review the diff",
        "none",
        &[],
        2000,
        vec![worker("parent", &["alpha", "beta"]), worker("checker", &["beta"])],
    );
    let lock = build_lock("lbx_x", "symlink", "/run/workdir", &locked_pair(), &manifest.workers);
    let live = lunchbox::run::recap(&manifest, &lock, None, true, 500);
    assert_eq!(live.run_id, "lbx_x");
    assert_eq!(live.packs, vec!["parent: alpha, beta", "checker: beta"]);
    assert_eq!(live.menu_tokens, 27 + lunchbox::tokens::MENU_PREAMBLE_TOKENS);
    assert_eq!(live.delta, 500 - 101);
    assert!(!live.unmounted);
    assert_eq!(live.outcome, "in flight");
    let done = lunchbox::run::recap(&manifest, &lock, Some("ok"), false, 0);
    assert!(done.unmounted);
    assert_eq!(done.outcome, "ok");
    assert_eq!(done.delta, -101);
    let lines = done.lines();
    assert_eq!(lines.len(), 6);
    assert_eq!(lines[0], "run       lbx_x  task \"review the diff\"");
    assert_eq!(lines[1], "packs     worker parent: alpha, beta");
    assert_eq!(lines[2], "packs     worker checker: beta");
    assert_eq!(lines[3], "tokens    this run 101 vs without ~0 (delta -101)");
    assert_eq!(lines[4], "unmounted yes");
    assert_eq!(lines[5], "outcome   ok");
    assert_eq!(live.lines()[3], "tokens    this run 101 vs without ~500 (delta 399)");
    assert_eq!(live.lines()[4], "unmounted no");
}

#[test]
fn start_waits_and_exit_codes() {
    assert!(waits(true, false, false));
    assert!(waits(false, false, true));
    assert!(!waits(false, true, true));
    assert!(!waits(false, false, false));
    assert_eq!(signal_exit_code(true), 130);
    assert_eq!(signal_exit_code(false), 143);
    assert_eq!(exit_status(Some(3)), 3);
    assert_eq!(exit_status(Some(300)), 255);
    assert_eq!(exit_status(Some(-2)), 0);
    assert_eq!(exit_status(None), 1);
}

#[test]
fn dry_run_quotes_tokens_like_a_shell() {
    assert_eq!(shell_quote("pi"), "pi");
    assert_eq!(shell_quote("--skill=/w/a.b"), "--skill=/w/a.b");
    assert_eq!(shell_quote("review the staged diff"), "'review the staged diff'");
    assert_eq!(shell_quote("it's"), "'it'\\''s'");
    assert_eq!(shell_quote(""), "''");
}

#[test]
fn feature_016_pinless_start_fails_closed() {
    let refusal = start_refusal(false, false, false).unwrap();
    assert!(refusal.contains("no skills pinned"), "{refusal}");
    assert!(start_refusal(false, true, false).unwrap().contains("no skills pinned"));
    assert_eq!(
        start_refusal(false, true, true).unwrap(),
        "cannot combine --tool with --from (set tools per worker in the manifest)"
    );
    assert_eq!(
        start_refusal(true, false, true).unwrap(),
        "--skill and --from are mutually exclusive; put pins in the manifest workers"
    );
    assert_eq!(start_refusal(true, true, false), None);
    assert_eq!(start_refusal(false, false, true), None);
}

#[test]
fn harness_command_drops_one_separator() {
    let argv = |v: &[&str]| v.iter().map(|s| s.to_string()).collect::<Vec<_>>();
    assert_eq!(harness_command(argv(&["--", "pi", "-p", "x"])), argv(&["pi", "-p", "x"]));
    assert_eq!(harness_command(argv(&["pi", "--"])), argv(&["pi", "--"]));
    assert_eq!(harness_command(argv(&["--", "--"])), argv(&["--"]));
    assert!(harness_command(vec![]).is_empty());
}

#[test]
fn start_plans_follow_the_manifest_or_the_config() {
    let cfg = lunchbox::config::Config::default();
    let flat = plan_start(vec!["demo-review".to_string()], vec!["read".to_string()], None, None, None, &cfg).unwrap();
    assert_eq!(flat.adapter, "pi");
    assert_eq!(flat.task, "");
    assert_eq!(flat.max_menu_tokens, 2000);
    assert_eq!(flat.workers[0].name, "default");
    assert_eq!(flat.workers[0].tools, Some(vec!["read".to_string()]));
    assert!(!flat.use_packs);
    let mut m = input(1, vec![worker("parent", &["alpha"])]);
    m.adapter = "none".to_string();
    m.budget = Some(Budget { max_menu_tokens: 300 });
    let packed = plan_start(vec![], vec![], None, Some("override".to_string()), Some(m.clone()), &cfg).unwrap();
    assert_eq!(packed.adapter, "none");
    assert_eq!(packed.task, "override");
    assert_eq!(packed.max_menu_tokens, 300);
    assert_eq!(packed.workers[0].name, "parent");
    assert!(packed.use_packs);
    let err = plan_start(vec![], vec![], None, None, Some(input(2, vec![worker("w", &["a"])])), &cfg).unwrap_err();
    assert_eq!(err, "manifest schema 2 not supported (expected 1)");
}

#[test]
fn pinned_names_reduce_hash_pins_and_keep_first_order() {
    let workers = vec![worker("a", &["beta@sha256:x", "alpha"]), worker("b", &["beta", "alpha@sha256:y", "gamma"])];
    assert_eq!(pinned_names(&workers), vec!["beta", "alpha", "gamma"]);
}

#[test]
fn start_report_lists_the_run_and_its_tools() {
    let prepared = lunchbox::run::PreparedRun {
        run_id: "lbx_1".to_string(),
        run_dir: "/runs/lbx_1".to_string(),
        workdir: "/runs/lbx_1/workdir".to_string(),
        locked: locked_pair(),
        mount_mode: lunchbox::config::MountMode::Symlink,
        menu_tokens: 101,
        without_tokens: 120,
        without_skills: 2,
        workers: vec![],
        worker_tokens: vec![],
        packs_layout: false,
        parent_pack: "/runs/lbx_1/workdir".to_string(),
    };
    let tools = vec!["read".to_string(), "x".to_string()];
    assert_eq!(
        lunchbox::run::start_report(&prepared, "pi", &tools, Some((164, 1))),
        vec![
            "run            lbx_1",
            "workdir        /runs/lbx_1/workdir",
            "skills         alpha@sha256:alpha  beta@sha256:beta",
            "menu_tokens    this run: 101",
            "tools          read, x (2)",
            "tool_tokens    this run: 164 (+1 unestimated)",
            "without        ~120  (2 skills on pi global+project)",
            "isolation      path A flags applied: --no-skills --skill <workdir>",
            "unmount        run lunchbox finish lbx_1   (auto on --wait exit)",
        ]
    );
    let bare = lunchbox::run::PreparedRun { without_skills: 0, without_tokens: 0, ..prepared };
    let lines = lunchbox::run::start_report(&bare, "none", &vec![], None);
    assert_eq!(lines.len(), 7);
    assert_eq!(lines[4], "without        0  (no skills found in none skill dirs)");
    assert_eq!(lines[5], "isolation      none — mounted, not spawned");
    let all_known = lunchbox::run::start_report(&bare, "pi", &vec!["read".to_string()], Some((164, 0)));
    assert_eq!(all_known[5], "tool_tokens    this run: 164");
}

#[test]
fn manifest_input_worker_name_must_be_one_component() {
    for name in ["../../../.pi/agent/agents/backdoor", "a/b", ".", "..", ""] {
        let m = input(1, vec![worker(name, &["a"])]);
        assert_eq!(m.validate().unwrap_err(), format!("worker name '{name}' must be a single path component"));
    }
    assert!(input(1, vec![worker("a.b", &["a"])]).validate().is_ok());
}

#[test]
fn wait_steps_decide_teardown_and_exit_code() {
    assert_eq!(wait_step(false, WaitEvent::StillRunning), WaitAction::Poll);
    assert_eq!(
        wait_step(false, WaitEvent::Signal { interrupt: true }),
        WaitAction::Stop { teardown: Some(Outcome::Aborted), terminate_child: true, exit_code: 130 }
    );
    assert_eq!(
        wait_step(true, WaitEvent::Signal { interrupt: false }),
        WaitAction::Stop { teardown: None, terminate_child: true, exit_code: 143 }
    );
    assert_eq!(
        wait_step(false, WaitEvent::Exited { code: Some(3) }),
        WaitAction::Stop { teardown: Some(Outcome::Completed), terminate_child: false, exit_code: 3 }
    );
    assert_eq!(
        wait_step(true, WaitEvent::Exited { code: None }),
        WaitAction::Stop { teardown: None, terminate_child: false, exit_code: 1 }
    );
}

#[test]
fn launch_refuses_empty_commands_and_prints_dry_runs() {
    assert!(!spawns("none"));
    assert!(spawns("pi"));
    assert_eq!(launch("pi", &vec![], "lbx_1", false, false, false, false), Launch::Refuse("adapter pi gave no command to run".to_string()));
    let argv = vec!["pi".to_string(), "--skill".to_string(), "/w/a b".to_string()];
    assert_eq!(
        launch("pi", &argv, "lbx_1", true, false, false, false),
        Launch::DryRun(vec!["pi".to_string(), "--skill".to_string(), shell_quote("/w/a b"), "run lunchbox finish lbx_1".to_string()])
    );
    assert_eq!(launch("pi", &argv, "lbx_1", false, false, false, true), Launch::Spawn { wait: true });
    assert_eq!(launch("pi", &argv, "lbx_1", false, false, true, true), Launch::Spawn { wait: false });
}
