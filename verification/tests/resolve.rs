use lunchbox::config::{Config, MountMode};
use lunchbox::hash::{hash_files, TreeFile};
use lunchbox::library::FoundSkill;
use lunchbox::resolve::{
    enforce_worker_budget, parse_pin, Candidate, Locked, ResolveAction, ResolveEvent, Resolver, ScanExit,
};
use lunchbox::run::Worker;
use lunchbox::tokens::estimate;

#[test]
fn tag_pin_errors() {
    let err = parse_pin("demo-review@v1.2.0").unwrap_err().to_string();
    assert_eq!(err, "tag pins are not supported yet; pin by hash (got 'demo-review@v1.2.0')");
}

#[test]
fn malformed_hash_pin_is_rejected() {
    assert!(parse_pin("x@sha256:abc").is_err());
    assert!(parse_pin("x@sha256:ABCDEF").is_err());
    assert!(parse_pin("x").is_ok());
}

/// A package in a library root, hashed from its `SKILL.md`.
fn package(root: &str, dir: &str, name: &str, description: &str) -> (String, Candidate) {
    let text = format!("---\nname: {name}\ndescription: {description}\n---\nbody\n");
    let hash = hash_files(vec![TreeFile { relative: "SKILL.md".to_string(), bytes: text.into_bytes() }]);
    let skill = FoundSkill {
        name: name.to_string(),
        description: description.to_string(),
        source: format!("{root}/{dir}"),
    };
    (root.to_string(), Candidate { skill, hash })
}

fn pantry() -> Vec<(String, Candidate)> {
    vec![package("/lib", "demo-review", "demo-review", "Review staged changes for defects and risks.")]
}

fn duplicate_pantry() -> (Vec<(String, Candidate)>, String, String) {
    let a = package("/lib", "copy-a", "demo-review", "copy-a copy");
    let b = package("/lib", "copy-b", "demo-review", "copy-b copy");
    let (hash_a, hash_b) = (a.1.hash.clone(), b.1.hash.clone());
    assert_ne!(hash_a, hash_b);
    (vec![a, b], hash_a, hash_b)
}

fn config_with_root(root: &str) -> Config {
    Config { library_paths: vec![root.to_string()], ..Config::default() }
}

fn pins(list: &[&str]) -> Vec<String> {
    list.iter().map(|s| s.to_string()).collect()
}

/// Runs resolution against the packages of `table`, answering each scan with `scan`.
fn resolve(
    pins: &[String],
    roots: Vec<String>,
    table: &[(String, Candidate)],
    cfg: &Config,
    override_scan: bool,
    scan: Option<ScanExit>,
) -> Result<Vec<Locked>, String> {
    let mut resolver = Resolver::new(pins.to_vec(), roots, cfg, override_scan);
    let mut event = ResolveEvent::Continue;
    loop {
        assert!(resolver.accepts(&event));
        match resolver.step(event) {
            ResolveAction::Find { root, name } => {
                let listed = table
                    .iter()
                    .filter(|(r, c)| r == &root && c.skill.name == name)
                    .map(|(_, c)| c.clone())
                    .collect();
                event = ResolveEvent::Listed(listed);
            }
            ResolveAction::Scan { .. } => {
                event = match &scan {
                    Some(exit) => ResolveEvent::Scanned(exit.clone()),
                    None => ResolveEvent::ScanNotRun,
                };
            }
            ResolveAction::Warn(_) => event = ResolveEvent::Continue,
            ResolveAction::Done(locked) => return Ok(locked),
            ResolveAction::Fail(message) => return Err(message),
        }
    }
}

fn resolve_in(pins: &[String], table: &[(String, Candidate)], cfg: &Config) -> Result<Vec<Locked>, String> {
    resolve(pins, cfg.library_paths.clone(), table, cfg, false, None)
}

#[test]
fn duplicate_names_in_one_root_resolve_via_hash_pin() {
    let (table, hash_a, _hash_b) = duplicate_pantry();
    let cfg = config_with_root("/lib");
    let locked = resolve_in(&[format!("demo-review@{hash_a}")], &table, &cfg).unwrap();
    assert_eq!(locked.len(), 1);
    assert_eq!(locked[0].hash, hash_a);
    assert_eq!(locked[0].source, "/lib/copy-a");
    assert_eq!(locked[0].description_tokens, estimate("demo-review", "copy-a copy"));
}

#[test]
fn duplicate_names_with_plain_pin_error() {
    let (table, _hash_a, _hash_b) = duplicate_pantry();
    let err = resolve_in(&pins(&["demo-review"]), &table, &config_with_root("/lib")).unwrap_err();
    assert!(err.contains("two packages with the name 'demo-review'"), "{err}");
    assert!(err.contains("pin by hash"), "{err}");
}

#[test]
fn duplicate_names_hash_pin_with_no_match_errors() {
    let (table, _hash_a, _hash_b) = duplicate_pantry();
    let bogus = format!("demo-review@sha256:{}", "0".repeat(64));
    let err = resolve_in(&[bogus], &table, &config_with_root("/lib")).unwrap_err();
    assert!(err.contains("no package matching"), "{err}");
}

#[test]
fn resolves_plain_pin_with_hash() {
    let locked = resolve_in(&pins(&["demo-review"]), &pantry(), &config_with_root("/lib")).unwrap();
    assert_eq!(locked.len(), 1);
    assert_eq!(locked[0].name, "demo-review");
    assert!(locked[0].hash.starts_with("sha256:"));
    assert_eq!(locked[0].description_tokens, 65);
}

#[test]
fn resolves_hash_pin_with_matching_hash() {
    let table = pantry();
    let hash = table[0].1.hash.clone();
    let locked = resolve_in(&[format!("demo-review@{hash}")], &table, &config_with_root("/lib")).unwrap();
    assert_eq!(locked[0].hash, hash);
}

#[test]
fn hash_mismatch_fails() {
    let bogus = "sha256:".to_string() + &"0".repeat(64);
    let err = resolve_in(&[format!("demo-review@{bogus}")], &pantry(), &config_with_root("/lib")).unwrap_err();
    assert!(err.contains("hash mismatch"), "{err}");
}

#[test]
fn missing_name_lists_every_root() {
    let err = resolve_in(&pins(&["nope"]), &pantry(), &config_with_root("/lib")).unwrap_err();
    assert!(err.contains("not found"), "{err}");
    assert!(err.contains("/lib"), "{err}");
}

#[test]
fn deny_gate_names_the_skill() {
    let mut cfg = config_with_root("/lib");
    cfg.deny = pins(&["demo-review"]);
    let err = resolve_in(&pins(&["demo-review"]), &pantry(), &cfg).unwrap_err();
    assert!(err.contains("denied"), "{err}");
    assert!(err.contains("demo-review"), "{err}");
}

#[test]
fn allow_gate_rejects_unlisted() {
    let mut cfg = config_with_root("/lib");
    cfg.allow = pins(&["something-else"]);
    let err = resolve_in(&pins(&["demo-review"]), &pantry(), &cfg).unwrap_err();
    assert!(err.contains("allow"), "{err}");
}

#[test]
fn allow_gate_passes_listed() {
    let mut cfg = config_with_root("/lib");
    cfg.allow = pins(&["demo-review"]);
    assert!(resolve_in(&pins(&["demo-review"]), &pantry(), &cfg).is_ok());
}

fn scan_config(command: &str) -> Config {
    let mut cfg = config_with_root("/lib");
    cfg.scan_command = command.to_string();
    cfg
}

fn exit(success: bool, code: Option<i32>, stderr: &str) -> Option<ScanExit> {
    Some(ScanExit { success, code, stderr: stderr.to_string() })
}

#[test]
fn scan_pass_records_pass() {
    let cfg = scan_config("true");
    let locked = resolve(&pins(&["demo-review"]), cfg.library_paths.clone(), &pantry(), &cfg, false, exit(true, Some(0), ""))
        .unwrap();
    assert_eq!(locked[0].scan, "pass");
}

#[test]
fn scan_absent_records_none() {
    let locked = resolve_in(&pins(&["demo-review"]), &pantry(), &config_with_root("/lib")).unwrap();
    assert_eq!(locked[0].scan, "none");
}

#[test]
fn scan_failure_without_override_names_skill_command_and_exit() {
    let cfg = scan_config("echo findings >&2; exit 3");
    let err = resolve(
        &pins(&["demo-review"]),
        cfg.library_paths.clone(),
        &pantry(),
        &cfg,
        false,
        exit(false, Some(3), "findings\n"),
    )
    .unwrap_err();
    assert!(err.contains("demo-review"), "{err}");
    assert!(err.contains("scan_command 'echo findings >&2; exit 3'"), "{err}");
    assert!(err.contains("exit 3"), "{err}");
    assert!(err.contains("findings"), "{err}");
}

#[test]
fn scan_excerpt_stays_single_line_with_carriage_returns() {
    let cfg = scan_config("printf 'find\\rings\\nsecond\\r\\nline\\n' >&2; exit 3");
    let err = resolve(
        &pins(&["demo-review"]),
        cfg.library_paths.clone(),
        &pantry(),
        &cfg,
        false,
        exit(false, Some(3), "find\rings\nsecond\r\nline\n"),
    )
    .unwrap_err();
    assert!(err.contains("findings"), "{err}");
    assert!(err.contains("second; line"), "{err}");
    assert!(!err.contains('\r'), "{err}");
}

#[test]
fn scan_failure_with_override_records_overridden() {
    let cfg = scan_config("exit 1");
    let locked = resolve(&pins(&["demo-review"]), cfg.library_paths.clone(), &pantry(), &cfg, true, exit(false, Some(1), ""))
        .unwrap();
    assert_eq!(locked[0].scan, "overridden");
}

#[test]
fn scan_spawn_failure_bails() {
    let cfg = scan_config("definitely-not-a-command");
    let err = resolve(&pins(&["demo-review"]), cfg.library_paths.clone(), &pantry(), &cfg, false, None).unwrap_err();
    assert!(err.contains("failed to run scan_command"), "{err}");
}

#[test]
fn duplicate_pins_dedupe_same_hash() {
    let locked = resolve_in(&pins(&["demo-review", "demo-review"]), &pantry(), &config_with_root("/lib")).unwrap();
    assert_eq!(locked.len(), 1);
}

fn default_worker(pack: &[&str]) -> Worker {
    Worker { name: "default".to_string(), pack: pins(pack), description: None, tools: None }
}

#[test]
fn budget_hard_fail_names_the_worker() {
    let locked = resolve_in(&pins(&["demo-review"]), &pantry(), &config_with_root("/lib")).unwrap();
    let workers = vec![default_worker(&["demo-review"])];
    let err = enforce_worker_budget(&workers, &locked, 10, true).unwrap_err();
    assert_eq!(err, "worker 'default': menu_tokens 65 exceeds max_menu_tokens 10 (fail_on_budget = true)");
}

#[test]
fn budget_soft_warn_per_worker_still_passes() {
    let locked = resolve_in(&pins(&["demo-review"]), &pantry(), &config_with_root("/lib")).unwrap();
    let workers = vec![default_worker(&["demo-review"])];
    assert!(enforce_worker_budget(&workers, &locked, 10, false).is_ok());
}

#[test]
fn budget_checks_each_worker_pack_not_the_union() {
    let table = vec![package("/lib", "alpha", "alpha", "d"), package("/lib", "beta", "beta", "d")];
    let locked = resolve_in(&pins(&["alpha", "beta"]), &table, &config_with_root("/lib")).unwrap();
    let cap = locked.iter().map(|l| l.description_tokens).max().unwrap();
    let workers = vec![
        Worker { name: "a".to_string(), pack: pins(&["alpha"]), description: None, tools: None },
        Worker { name: "b".to_string(), pack: pins(&["beta"]), description: None, tools: None },
    ];
    assert!(enforce_worker_budget(&workers, &locked, cap, true).is_ok());
    let union_only = vec![Worker { name: "u".to_string(), pack: pins(&["alpha", "beta"]), description: None, tools: None }];
    assert!(enforce_worker_budget(&union_only, &locked, cap, true).is_err());
}

#[test]
fn extra_roots_are_searched_first() {
    let mut table = pantry();
    table.push(package("/other", "demo-review", "demo-review", "Other copy."));
    let cfg = Config { library_paths: vec!["/lib".to_string()], mount_mode: MountMode::Symlink, ..Config::default() };
    let roots = cfg.search_roots(&vec!["/other".to_string()], None, None, vec![]);
    assert_eq!(&roots[..2], &["/other".to_string(), "/lib".to_string()]);
    let locked = resolve(&pins(&["demo-review"]), roots, &table, &cfg, false, None).unwrap();
    assert_eq!(locked[0].description_tokens, estimate("demo-review", "Other copy."));
}
