use lunchbox::adapter::tools::{estimate, table};
use lunchbox::adapter::{
    available_adapters, harness_binary, isolation_flags,
    detect_version_from, duplicates, extract_semver, help_flag_selftest, resolve_adapter, union_from, Adapter, DirReport,
    FoundDirSkill, Host, NoneAdapter, OmpAdapter, PiAdapter, SelftestOutcome,
};
use lunchbox::config::Config;

#[test]
fn semver_extraction_from_version_output() {
    assert_eq!(extract_semver("pi 0.84.4"), Some("0.84.4".to_string()));
    assert_eq!(extract_semver("pi 1.2.3-beta.1"), Some("1.2.3".to_string()));
    assert_eq!(extract_semver("no version here"), None);
    assert_eq!(extract_semver("v2.0.0"), Some("2.0.0".to_string()));
    assert_eq!(extract_semver("pi 0.84"), None);
}

#[test]
fn adapter_resolution() {
    assert_eq!(resolve_adapter("none").unwrap().name(), "none");
    assert_eq!(resolve_adapter("pi").unwrap().name(), "pi");
    let omp = resolve_adapter("omp").err().unwrap();
    assert_eq!(omp, "omp adapter arrives after Phase 1");
    assert!(resolve_adapter("zzz").is_err());
}

#[test]
fn none_adapter_never_spawns() {
    let err = NoneAdapter.isolation_argv("/w", &["a".to_string()], &[]).unwrap_err();
    assert!(err.contains("adapter none never spawns"), "{err}");
}

#[test]
fn pi_isolation_argv_is_exact() {
    let argv = PiAdapter
        .isolation_argv(
            "/runs/lbx_x/workdir",
            &["demo-review".to_string(), "demo-scan".to_string()],
            &["pi".to_string(), "-p".to_string(), "hello".to_string()],
        )
        .unwrap();
    assert_eq!(
        argv,
        vec![
            "pi".to_string(),
            "--no-skills".to_string(),
            "--skill".to_string(),
            "/runs/lbx_x/workdir/demo-review".to_string(),
            "--skill".to_string(),
            "/runs/lbx_x/workdir/demo-scan".to_string(),
            "pi".to_string(),
            "-p".to_string(),
            "hello".to_string(),
        ]
    );
}

#[test]
fn path_b_is_refused() {
    let err = PiAdapter.write_run_agents("/tmp/x").unwrap_err();
    assert_eq!(err, "Path B not implemented in this build");
    assert!(NoneAdapter.write_run_agents("/tmp/x").is_err());
}

#[test]
fn estimate_sums_known_and_counts_unknown() {
    let (tokens, unknown) = estimate("pi", &["read".to_string(), "bash".to_string(), "nope".to_string()]);
    assert_eq!(tokens, 128 + 164);
    assert_eq!(unknown, 1);
}

#[test]
fn adapter_without_table_counts_everything_unestimated() {
    assert_eq!(estimate("none", &["read".to_string()]), (0, 1));
}

#[test]
fn empty_selection_estimates_zero() {
    assert_eq!(estimate("omp", &[]), (0, 0));
}

#[test]
fn table_names_are_unique_and_tokens_positive() {
    for adapter in ["pi", "omp"] {
        let table = table(adapter).unwrap();
        assert!(!table.is_empty(), "{adapter}");
        let mut names: Vec<&str> = table.iter().map(|entry| entry.name).collect();
        names.sort_unstable();
        let count = names.len();
        names.dedup();
        assert_eq!(names.len(), count, "{adapter} duplicate tool name");
        for entry in &table {
            assert!(entry.tokens > 0, "{adapter}/{}", entry.name);
        }
    }
}

#[test]
fn unknown_adapter_has_no_table() {
    assert!(table("none").is_none());
    assert!(table("zzz").is_none());
}

fn host(home: Option<&str>, existing: &[&str]) -> Host {
    Host {
        home: home.map(|h| h.to_string()),
        cwd: Some("/work".to_string()),
        existing_dirs: existing.iter().map(|d| d.to_string()).collect(),
    }
}

#[test]
fn pi_skill_dirs_include_existing_pi_dir_only() {
    let cfg = Config::default();
    let dirs = PiAdapter.skill_dirs(&cfg, &host(Some("/home/w"), &[]));
    assert!(dirs.contains(&"/home/w/.agents/skills".to_string()));
    assert!(!dirs.contains(&"/home/w/.pi/agent/skills".to_string()));
    let dirs = PiAdapter.skill_dirs(&cfg, &host(Some("/home/w"), &["/home/w/.pi/agent/skills"]));
    assert!(dirs.contains(&"/home/w/.pi/agent/skills".to_string()));
    assert_eq!(dirs[0], "/work/.agents/skills");
}

#[test]
fn omp_skill_dirs_and_spawn_argv() {
    let cfg = Config::default();
    let dirs = OmpAdapter.skill_dirs(
        &cfg,
        &host(Some("/h"), &["/h/.omp/agent/managed-skills", "/h/.omp/agent/skills"]),
    );
    assert_eq!(
        dirs,
        vec![
            "/work/.agents/skills".to_string(),
            "/h/.agents/skills".to_string(),
            "/h/.omp/agent/skills".to_string(),
            "/h/.omp/agent/managed-skills".to_string(),
        ]
    );
    let argv = OmpAdapter::spawn_argv("/runs/r", &["omp".to_string(), "-p".to_string()]);
    assert_eq!(argv, vec!["omp", "--config", "/runs/r/omp-config.yml", "omp", "-p"]);
}

#[test]
fn none_skill_dirs_are_the_library_paths() {
    let mut cfg = Config::default();
    cfg.library_paths = vec!["/a".to_string(), "/b".to_string()];
    assert_eq!(NoneAdapter.skill_dirs(&cfg, &host(None, &[])), vec!["/a", "/b"]);
    assert_eq!(PiAdapter.agent_dir_hint(Some("/h")), Some("/h/.pi/agent".to_string()));
    assert_eq!(NoneAdapter.agent_dir_hint(Some("/h")), None);
}

#[test]
fn unknown_adapter_message_lists_available() {
    assert_eq!(resolve_adapter("zzz").err().unwrap(), "unknown adapter 'zzz' (available: none, pi)");
}

fn found(name: &str, dir: &str, tokens: u64) -> FoundDirSkill {
    FoundDirSkill { name: name.to_string(), dir: dir.to_string(), tokens }
}

#[test]
fn union_menu_dedupes_across_dirs_and_sums_tokens() {
    let reports = vec![
        DirReport { dir: "/g".to_string(), exists: true, skills: vec![found("shared", "/g", 60)] },
        DirReport {
            dir: "/p".to_string(),
            exists: true,
            skills: vec![found("shared", "/p", 99), found("extra", "/p", 57)],
        },
    ];
    let (total, skills) = union_from(&reports);
    let names: Vec<&str> = skills.iter().map(|s| s.name.as_str()).collect();
    assert_eq!(names, vec!["extra", "shared"]);
    assert_eq!(total, 60 + 57);
    assert_eq!(skills[1].dir, "/g", "the first directory wins");
}

#[test]
fn duplicates_group_repeated_names_in_name_order() {
    let skills = vec![found("b", "/1", 1), found("a", "/1", 2), found("b", "/2", 3), found("c", "/1", 4), found("a", "/3", 5)];
    let groups = duplicates(&skills);
    assert_eq!(groups.len(), 2);
    assert_eq!(groups[0].iter().map(|s| s.dir.as_str()).collect::<Vec<_>>(), vec!["/1", "/3"]);
    assert_eq!(groups[1].iter().map(|s| s.dir.as_str()).collect::<Vec<_>>(), vec!["/1", "/2"]);
    assert!(duplicates(&[found("x", "/1", 1)].to_vec()).is_empty());
}

#[test]
fn version_detection_reads_first_semver_line() {
    assert_eq!(detect_version_from("pi", true, "exit status: 0", "pi\nversion 0.84.4\n"), Ok("0.84.4".to_string()));
    assert_eq!(
        detect_version_from("pi", true, "exit status: 0", "nothing\n"),
        Err("could not parse a semver from 'pi --version'".to_string())
    );
    assert_eq!(
        detect_version_from("pi", false, "exit status: 2", ""),
        Err("'pi --version' exited with exit status: 2".to_string())
    );
}

#[test]
fn help_selftest_reports_drift() {
    let flags = vec!["--config".to_string()];
    assert_eq!(help_flag_selftest("omp", None, "", &flags), SelftestOutcome::Skipped);
    assert_eq!(help_flag_selftest("omp", Some("18.1.14"), "  --config <file>", &flags), SelftestOutcome::Passed);
    assert_eq!(
        help_flag_selftest("omp", Some("18.1.14"), "usage", &flags),
        SelftestOutcome::Failed("omp isolation flags drifted (omp 18.1.14: --config=false)".to_string())
    );
}

fn package(name: &str, description: &str, source: &str) -> lunchbox::library::FoundSkill {
    lunchbox::library::FoundSkill {
        name: name.to_string(),
        description: description.to_string(),
        source: source.to_string(),
    }
}

fn none_host() -> Host {
    Host { home: None, cwd: None, existing_dirs: vec![] }
}

fn two_dir_config() -> Config {
    Config { library_paths: vec!["/a".to_string(), "/b".to_string()], ..Config::default() }
}

fn two_dir_scans() -> Vec<lunchbox::adapter::DirScan> {
    vec![
        lunchbox::adapter::DirScan { exists: true, found: Some(vec![package("x", "first", "/a/x")]) },
        lunchbox::adapter::DirScan {
            exists: true,
            found: Some(vec![package("x", "second copy", "/b/x"), package("y", "why", "/b/y")]),
        },
    ]
}

#[test]
fn scan_dirs_reports_each_dir_with_tokens() {
    let reports = lunchbox::adapter::scan_dirs(&NoneAdapter, &two_dir_config(), &none_host(), &two_dir_scans());
    assert_eq!(reports.len(), 2);
    assert_eq!(reports[0].dir, "/a");
    assert_eq!(reports[1].skills.len(), 2);
    assert_eq!(reports[1].skills[1].tokens, lunchbox::tokens::estimate("y", "why"));
    assert_eq!(reports[1].skills[1].dir, "/b");
}

#[test]
fn union_menu_keeps_the_first_dir_of_each_name() {
    let (total, union) = lunchbox::adapter::union_menu(&NoneAdapter, &two_dir_config(), &none_host(), &two_dir_scans());
    assert_eq!(union.len(), 2);
    assert_eq!(union[0].name, "x");
    assert_eq!(union[0].dir, "/a");
    assert_eq!(total, lunchbox::tokens::estimate("x", "first") + lunchbox::tokens::estimate("y", "why"));
}

#[test]
fn without_estimate_follows_the_named_adapter() {
    let (total, _) = lunchbox::adapter::union_menu(&NoneAdapter, &two_dir_config(), &none_host(), &two_dir_scans());
    let none = lunchbox::adapter::without_estimate("none", &two_dir_config(), &none_host(), &two_dir_scans());
    assert_eq!(none, total);
    assert_eq!(lunchbox::adapter::without_estimate("bogus", &two_dir_config(), &none_host(), &vec![]), 0);
    assert_eq!(lunchbox::adapter::without_estimate("omp", &two_dir_config(), &none_host(), &vec![]), 0);
}

#[test]
fn failed_scan_reports_no_skills() {
    let scans = vec![
        lunchbox::adapter::DirScan { exists: true, found: None },
        lunchbox::adapter::DirScan { exists: false, found: Some(vec![]) },
    ];
    let reports = lunchbox::adapter::scan_dirs(&NoneAdapter, &two_dir_config(), &none_host(), &scans);
    assert!(reports[0].exists && reports[0].skills.is_empty());
    assert!(!reports[1].exists);
}

#[test]
fn fattest_lists_the_costliest_first_with_ties_in_order() {
    let union = vec![
        found("a", "/d", 10),
        found("b", "/d", 30),
        found("c", "/d", 20),
        found("d", "/d", 30),
        found("e", "/d", 5),
        found("f", "/d", 1),
        found("g", "/d", 25),
    ];
    let names: Vec<String> = lunchbox::adapter::fattest(&union).into_iter().map(|s| s.name).collect();
    assert_eq!(names, vec!["b", "d", "g", "c", "a"]);
    let two = vec![found("demo-review", "/d", 14), found("demo-scan", "/d", 13)];
    let top = lunchbox::adapter::fattest(&two);
    assert_eq!(top[0].name, "demo-review");
    assert_eq!(top[1].tokens, 13);
    assert!(lunchbox::adapter::fattest(&vec![]).is_empty());
}

#[test]
fn adapters_list_binaries_and_isolation_flags() {
    assert_eq!(available_adapters(), vec!["none", "pi"]);
    assert_eq!(harness_binary("none"), None);
    assert_eq!(harness_binary("pi"), Some("pi"));
    assert_eq!(harness_binary("omp"), Some("omp"));
    assert_eq!(isolation_flags("pi"), vec!["--no-skills", "--skill"]);
    assert_eq!(isolation_flags("omp"), vec!["--config"]);
    assert!(isolation_flags("none").is_empty());
}

#[test]
fn pantry_base_dirs_are_project_then_home() {
    let host = Host { home: Some("/h".to_string()), cwd: Some("/w".to_string()), existing_dirs: vec![] };
    assert_eq!(lunchbox::adapter::pantry_base_dirs(&host), vec!["/w/.agents/skills", "/h/.agents/skills"]);
    assert_eq!(lunchbox::adapter::pantry_base_dirs(&none_host()), vec![".agents/skills"]);
}

#[test]
fn unestimated_tools_are_named_for_warnings() {
    let selected = vec!["read".to_string(), "nope".to_string(), "web_search".to_string()];
    assert_eq!(lunchbox::adapter::tools::unestimated_tools("pi", &selected), vec!["nope", "web_search"]);
    assert_eq!(lunchbox::adapter::tools::unestimated_tools("omp", &selected), vec!["nope"]);
    assert!(lunchbox::adapter::tools::unestimated_tools("none", &selected).is_empty());
}

#[test]
fn adapter_lines_pad_name_and_version() {
    assert_eq!(lunchbox::adapter::adapter_line("none", "builtin", &lunchbox::adapter::SelftestOutcome::Passed), format!("{:<8} {:<12} selftest: ok", "none", "builtin"));
    assert_eq!(
        lunchbox::adapter::adapter_line("pi", "not found", &lunchbox::adapter::SelftestOutcome::Skipped),
        format!("{:<8} {:<12} pi not found; selftest skipped", "pi", "not found")
    );
    assert_eq!(
        lunchbox::adapter::adapter_line("pi", "0.84.4", &lunchbox::adapter::SelftestOutcome::Failed("flag --no-skills missing".to_string())),
        format!("{:<8} {:<12} selftest: FAILED — flag --no-skills missing", "pi", "0.84.4")
    );
}
