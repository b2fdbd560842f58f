use lunchbox::adapter::{DirReport, FoundDirSkill};
use lunchbox::library::ListedSkill;
use lunchbox::run::{ManifestInput, Worker};
use lunchbox::tui::doctor::{self, DoctorReport, DoctorState};
use lunchbox::tui::menu::confirm::{self, ConfirmState, Source};
use lunchbox::tui::menu::editor::{self, EditorState, Field, Focus, SaveTarget};
use lunchbox::tui::menu::home::{self, HomeState, Route};
use lunchbox::tui::menu::editor_view;
use lunchbox::tui::menu::Action;
use lunchbox::tui::view::screen_text;
use lunchbox::tui::{Key, KeyPress};

fn press(key: Key) -> KeyPress {
    KeyPress::plain(key)
}

fn skill(name: &str, tokens: u64) -> FoundDirSkill {
    FoundDirSkill { name: name.to_string(), dir: "/home/w/.agents/skills".to_string(), tokens }
}

fn two_skill_report() -> DoctorReport {
    let skills = vec![skill("demo-review", 14), skill("demo-scan", 13)];
    DoctorReport {
        adapter: "pi".to_string(),
        adapter_version: Some("0.84.4".to_string()),
        git_version: Some("2.99.0".to_string()),
        dirs: vec![DirReport { dir: "/home/w/.agents/skills".to_string(), exists: true, skills: skills.clone() }],
        pantries: Vec::new(),
        menu_tokens: 27,
        union: skills,
    }
}

#[test]
fn scroll_clamps_at_union_window() {
    let mut state = DoctorState::new(two_skill_report());
    for _ in 0..5 {
        doctor::handle_key(&mut state, &press(Key::Down));
    }
    assert_eq!(state.scroll, 0, "2 skills fit one window; scroll must clamp");
    doctor::handle_key(&mut state, &press(Key::End));
    assert_eq!(state.scroll, 0);
}

#[test]
fn quit_keys_quit_and_others_continue() {
    let mut state = DoctorState::new(two_skill_report());
    assert_eq!(doctor::handle_key(&mut state, &press(Key::Char('q'))), doctor::Action::Quit);
    assert_eq!(doctor::handle_key(&mut state, &press(Key::Esc)), doctor::Action::Quit);
    assert_eq!(doctor::handle_key(&mut state, &press(Key::Tab)), doctor::Action::Continue);
}

#[test]
fn cursor_moves_and_opens_routes() {
    let mut state = HomeState { cursor: 0 };
    assert_eq!(home::handle_key(&mut state, &press(Key::Enter)), Action::Open(Route::Pantry));
    home::handle_key(&mut state, &press(Key::Down));
    assert_eq!(home::handle_key(&mut state, &press(Key::Enter)), Action::Open(Route::Manifests));
    home::handle_key(&mut state, &press(Key::Down));
    assert_eq!(home::handle_key(&mut state, &press(Key::Enter)), Action::Open(Route::Doctor));
    home::handle_key(&mut state, &press(Key::Down));
    assert_eq!(home::handle_key(&mut state, &press(Key::Enter)), Action::Open(Route::Policy));
    for _ in 0..8 {
        home::handle_key(&mut state, &press(Key::Down));
    }
    assert_eq!(home::handle_key(&mut state, &press(Key::Up)), Action::Continue);
    assert_eq!(home::handle_key(&mut state, &press(Key::Esc)), Action::Quit);
}

#[test]
fn home_screen_rows() {
    let labels: Vec<&str> = (0..home::ROW_COUNT).map(|i| home::row(i).label()).collect();
    assert_eq!(labels.len(), 4);
    assert_eq!(home::row(0), Route::Pantry);
    assert_eq!(home::row(3), Route::Policy);
}

#[test]
fn enter_emits_mount_and_esc_pops() {
    let state = ConfirmState::new(Source::Flat(vec!["demo-review".to_string()]), Ok(vec![]));
    assert!(matches!(confirm::handle_key(&state, &press(Key::Enter)), Action::Mount { .. }));
    assert_eq!(confirm::handle_key(&state, &press(Key::Esc)), Action::Pop);
}

#[test]
fn confirm_reports_resolve_errors_instead_of_mounting_blindly() {
    let error = lunchbox::resolve::not_found_error("no-such-skill", &vec!["/home/w/.agents/skills".to_string()]);
    let state = ConfirmState::new(Source::Flat(vec!["no-such-skill".to_string()]), Err(error));
    let Err(error) = &state.resolved else {
        panic!("expected resolve failure");
    };
    assert!(error.contains("no-such-skill"), "{error}");
    assert_eq!(state.task, "menu run");
    assert!(confirm::fits(&state));
    let rendered = screen_text(&confirm::render(&state));
    assert!(rendered.contains("resolve error:"), "{rendered}");
}

fn demo_skills() -> Vec<ListedSkill> {
    vec![
        ListedSkill { name: "demo-review".to_string(), source: "/s/demo-review".to_string(), tokens: 65 },
        ListedSkill { name: "demo-scan".to_string(), source: "/s/demo-scan".to_string(), tokens: 64 },
    ]
}

fn type_input(state: &mut EditorState, text: &str) {
    for ch in text.chars() {
        editor::handle_key(state, &press(Key::Char(ch)));
    }
    editor::handle_key(state, &press(Key::Enter));
}

fn named_draft(name: &str) -> EditorState {
    let mut state = EditorState::new_draft(demo_skills());
    assert_eq!(state.input_mode, Some(Field::ManifestName));
    type_input(&mut state, name);
    assert_eq!(state.name, name);
    state
}

#[test]
fn empty_pack_and_missing_name_block_save() {
    let mut state = EditorState::new_draft(demo_skills());
    editor::handle_key(&mut state, &press(Key::Char('s')));
    assert_eq!(state.input_mode, Some(Field::ManifestName), "save without a name must ask for one");
    type_input(&mut state, "e2e");
    assert_eq!(editor::handle_key(&mut state, &press(Key::Char('s'))), Action::Continue);
    assert_eq!(state.status, "fix validation errors first");
    editor::handle_key(&mut state, &press(Key::Char(' ')));
    editor::handle_key(&mut state, &press(Key::Down));
    editor::handle_key(&mut state, &press(Key::Char(' ')));
    assert_eq!(state.status, "ok — s save · S save+start");
    assert_eq!(editor::handle_key(&mut state, &press(Key::Char('s'))), Action::EditorSave);
}

#[test]
fn live_tokens_and_pack_costs_track_selections() {
    let mut state = named_draft("e2e");
    assert_eq!(state.live_tokens(), 0);
    editor::handle_key(&mut state, &press(Key::Char(' ')));
    assert_eq!(state.live_tokens(), 139, "union updates on first toggle");
    editor::handle_key(&mut state, &press(Key::Down));
    editor::handle_key(&mut state, &press(Key::Char(' ')));
    assert_eq!(state.live_tokens(), 203);
    editor::handle_key(&mut state, &press(Key::Char(' ')));
    assert_eq!(state.live_tokens(), 139, "toggling off removes the cost again");
    editor::handle_key(&mut state, &press(Key::Char(' ')));
    assert!(editor_view::fits(&state));
    let rendered = screen_text(&editor_view::render(&state));
    assert!(rendered.contains("this run: 203"), "{rendered}");
    assert!(rendered.contains("demo-review (65)"), "{rendered}");
    assert!(rendered.contains("demo-scan (64)"), "{rendered}");
}

#[test]
fn render_shows_tools_pane() {
    let mut state = named_draft("e2e");
    editor::handle_key(&mut state, &press(Key::Char('c')));
    editor::handle_key(&mut state, &press(Key::Tab));
    for _ in 0..6 {
        editor::handle_key(&mut state, &press(Key::Down));
    }
    editor::handle_key(&mut state, &press(Key::Char(' ')));
    let rendered = screen_text(&editor_view::render(&state));
    assert!(rendered.contains("tools"), "{rendered}");
    assert!(rendered.contains("[x] read"), "{rendered}");
    assert!(rendered.contains("164"), "{rendered}");
    assert!(rendered.contains("tools: read"), "{rendered}");

    let state = named_draft("plain");
    let rendered = screen_text(&editor_view::render(&state));
    assert!(rendered.contains("(no tool table for adapter none — c to cycle adapter)"), "{rendered}");
    assert!(rendered.contains("(no tools selected)"), "{rendered}");
}

#[test]
fn duplicate_worker_names_are_flagged_live() {
    let mut state = named_draft("e2e");
    editor::handle_key(&mut state, &press(Key::Char(' ')));
    editor::handle_key(&mut state, &press(Key::Char('w')));
    type_input(&mut state, "main");
    assert_eq!(state.workers.len(), 2);
    assert!(state.status.contains("duplicate worker name 'main'"), "{}", state.status);
}

#[test]
fn rename_add_delete_workers() {
    let mut state = named_draft("e2e");
    editor::handle_key(&mut state, &press(Key::Char('w')));
    type_input(&mut state, "second");
    assert_eq!(state.workers.iter().map(|w| w.name.as_str()).collect::<Vec<_>>(), vec!["main", "second"]);
    assert_eq!(state.worker_cursor, 1, "new worker gains the cursor");
    editor::handle_key(&mut state, &press(Key::Char('r')));
    for _ in 0.."second".len() {
        editor::handle_key(&mut state, &press(Key::Backspace));
    }
    type_input(&mut state, "renamed");
    assert_eq!(state.workers[1].name, "renamed");
    editor::handle_key(&mut state, &press(Key::Char('d')));
    assert_eq!(state.workers.len(), 1);
    assert_eq!(state.workers[0].name, "main");
}

#[test]
fn budget_and_adapter_edits() {
    let mut state = named_draft("e2e");
    editor::handle_key(&mut state, &press(Key::Char('b')));
    type_input(&mut state, "not-a-number");
    assert_eq!(state.status, "budget must be a whole number");
    editor::handle_key(&mut state, &press(Key::Esc));
    editor::handle_key(&mut state, &press(Key::Char('b')));
    type_input(&mut state, "1500");
    assert_eq!(state.budget, Some(1500));
    editor::handle_key(&mut state, &press(Key::Char('b')));
    for _ in 0.."1500".len() {
        editor::handle_key(&mut state, &press(Key::Backspace));
    }
    editor::handle_key(&mut state, &press(Key::Enter));
    assert_eq!(state.budget, None, "empty budget commit clears it");
    editor::handle_key(&mut state, &press(Key::Char('c')));
    assert_eq!(state.adapter, "pi");
    editor::handle_key(&mut state, &press(Key::Char('c')));
    assert_eq!(state.adapter, "omp");
    editor::handle_key(&mut state, &press(Key::Char('c')));
    assert_eq!(state.adapter, "none");
}

#[test]
fn tools_pane_toggles_and_saves() {
    let mut state = named_draft("e2e");
    editor::handle_key(&mut state, &press(Key::Char('c')));
    assert_eq!(state.adapter, "pi");
    editor::handle_key(&mut state, &press(Key::Tab));
    assert_eq!(state.focus, Focus::Tools);
    for _ in 0..6 {
        editor::handle_key(&mut state, &press(Key::Down));
    }
    assert_eq!(state.tools_list()[state.tool_cursor].0, "read");
    editor::handle_key(&mut state, &press(Key::Char(' ')));
    assert_eq!(state.workers[0].tools, vec!["read".to_string()]);
    assert_eq!(state.build_input().workers[0].tools, Some(vec!["read".to_string()]));
    editor::handle_key(&mut state, &press(Key::Char(' ')));
    assert!(state.workers[0].tools.is_empty());
    assert_eq!(state.build_input().workers[0].tools, None);
}

#[test]
fn custom_tool_add_csv() {
    let mut state = named_draft("e2e");
    editor::handle_key(&mut state, &press(Key::Char('a')));
    assert_eq!(state.input_mode, Some(Field::AddTool));
    type_input(&mut state, "web_search, mcp_foo");
    assert_eq!(state.workers[0].tools, vec!["web_search".to_string(), "mcp_foo".to_string()]);
    editor::handle_key(&mut state, &press(Key::Char('a')));
    type_input(&mut state, "x, ,");
    assert_eq!(state.status, "tool name must not be empty");
    assert_eq!(state.input_mode, Some(Field::AddTool));
    assert_eq!(state.workers[0].tools.len(), 2, "rejected input changes nothing");
    editor::handle_key(&mut state, &press(Key::Esc));
    editor::handle_key(&mut state, &press(Key::Char('a')));
    editor::handle_key(&mut state, &press(Key::Enter));
    assert!(state.input_mode.is_none());
    assert_eq!(state.workers[0].tools.len(), 2, "empty commit changes nothing");
    editor::handle_key(&mut state, &press(Key::Char('a')));
    type_input(&mut state, "web_search, dup");
    assert_eq!(
        state.workers[0].tools,
        vec!["web_search".to_string(), "mcp_foo".to_string(), "dup".to_string()]
    );
}

#[test]
fn tools_load_round_trip() {
    let input = ManifestInput {
        schema: 1,
        task: "t".to_string(),
        adapter: "pi".to_string(),
        run_id: None,
        created_at: None,
        harness_argv: None,
        budget: None,
        workers: vec![Worker {
            name: "w".to_string(),
            pack: vec!["demo-review".to_string()],
            description: None,
            tools: Some(vec!["read".to_string(), "grep".to_string()]),
        }],
    };
    let mut state = EditorState::from_input("/m/tools.toml".to_string(), "tools".to_string(), &input, demo_skills());
    assert_eq!(state.workers[0].tools, vec!["read".to_string(), "grep".to_string()]);
    assert_eq!(state.build_input().workers[0].tools, Some(vec!["read".to_string(), "grep".to_string()]));
    editor::handle_key(&mut state, &press(Key::Tab));
    assert_eq!(state.focus, Focus::Tools);
    for _ in 0..3 {
        editor::handle_key(&mut state, &press(Key::Down));
    }
    assert_eq!(state.tools_list()[state.tool_cursor].0, "grep");
    editor::handle_key(&mut state, &press(Key::Char(' ')));
    for _ in 0..3 {
        editor::handle_key(&mut state, &press(Key::Down));
    }
    assert_eq!(state.tools_list()[state.tool_cursor].0, "read");
    editor::handle_key(&mut state, &press(Key::Char(' ')));
    assert!(state.workers[0].tools.is_empty());
    assert_eq!(state.build_input().workers[0].tools, None);
}

#[test]
fn tab_cycles_and_space_dispatches() {
    let mut state = named_draft("e2e");
    editor::handle_key(&mut state, &press(Key::Char('c')));
    assert_eq!(state.focus, Focus::Skills);
    editor::handle_key(&mut state, &press(Key::Tab));
    assert_eq!(state.focus, Focus::Tools);
    editor::handle_key(&mut state, &press(Key::Tab));
    assert_eq!(state.focus, Focus::Workers);
    editor::handle_key(&mut state, &press(Key::Tab));
    assert_eq!(state.focus, Focus::Skills);
    editor::handle_key(&mut state, &press(Key::Tab));
    assert_eq!(state.focus, Focus::Tools);
    editor::handle_key(&mut state, &press(Key::Tab));
    assert_eq!(state.focus, Focus::Workers, "full cycle returns to workers");
    editor::handle_key(&mut state, &press(Key::Char(' ')));
    assert_eq!(state.workers[0].pack, vec!["demo-review".to_string()]);
    assert!(state.workers[0].tools.is_empty(), "workers-space must not touch tools");
    editor::handle_key(&mut state, &press(Key::Tab));
    editor::handle_key(&mut state, &press(Key::Tab));
    assert_eq!(state.focus, Focus::Tools);
    editor::handle_key(&mut state, &press(Key::Char(' ')));
    assert_eq!(state.workers[0].tools, vec!["bash".to_string()]);
    assert_eq!(state.workers[0].pack, vec!["demo-review".to_string()], "tools-space must not touch pack");
}

use lunchbox::config::{Config, LayerReport, MountMode};
use lunchbox::run::PreparedRun;
use lunchbox::tui::menu::manifests::{self as manifest_screen, DiscoveredManifest, ManifestDetailState, ManifestFile, ManifestState};
use lunchbox::tui::menu::pantry::{self as pantry_screen, PantryState, RootSection};
use lunchbox::tui::menu::{Layer, MenuState, Step};
use lunchbox::tui::picker::{self, PickerState, Request};
use lunchbox::tui::policy::{self, PolicyState};
use lunchbox::tui::preview::{self, PreviewState};

fn map_skills() -> Vec<ListedSkill> {
    vec![
        ListedSkill { name: "demo-review".to_string(), source: "/s/demo-review".to_string(), tokens: 20 },
        ListedSkill { name: "demo-scan".to_string(), source: "/s/demo-scan".to_string(), tokens: 7 },
    ]
}

fn manifest_input(task: &str, workers: Vec<(&str, Vec<&str>)>) -> ManifestInput {
    ManifestInput {
        schema: 1,
        task: task.to_string(),
        adapter: "none".to_string(),
        run_id: None,
        created_at: None,
        harness_argv: None,
        budget: None,
        workers: workers
            .into_iter()
            .map(|(name, pack)| Worker {
                name: name.to_string(),
                pack: pack.into_iter().map(str::to_string).collect(),
                description: None,
                tools: None,
            })
            .collect(),
    }
}

fn manifest_file(name: &str, path: &str, parsed: Result<ManifestInput, String>) -> ManifestFile {
    ManifestFile { name: name.to_string(), path: path.to_string(), parsed }
}

#[test]
fn missing_dirs_yield_no_manifests() {
    assert!(manifest_screen::discover(vec![vec![]], &map_skills()).is_empty());
}

#[test]
fn broken_toml_is_reported_not_fatal() {
    let files = vec![manifest_file("broken", "/m/broken.toml", Err("invalid type: integer `1`, expected a string".to_string()))];
    let found = manifest_screen::discover(vec![files], &map_skills());
    assert_eq!(found.len(), 1);
    assert_eq!(found[0].name, "broken");
    assert!(matches!(&found[0].state, ManifestState::Broken(error) if !error.is_empty()));
}

#[test]
fn project_dir_wins_on_stem_collision() {
    let project = vec![manifest_file("run", "/p/run.toml", Ok(manifest_input("project", vec![("w", vec!["demo-review"])])))];
    let home = vec![manifest_file("run", "/h/run.toml", Ok(manifest_input("home", vec![("w", vec!["demo-scan"])])))];
    let found = manifest_screen::discover(vec![project, home], &map_skills());
    assert_eq!(found.len(), 1, "collision must not list both: {found:?}");
    assert_eq!(found[0].name, "run");
    assert_eq!(found[0].path, "/p/run.toml");
    let ManifestState::Valid { task, workers, tokens } = &found[0].state else {
        panic!("expected a valid state");
    };
    assert_eq!(task, "project");
    assert_eq!(workers, &vec![("w".to_string(), vec!["demo-review".to_string()], None)]);
    assert_eq!(*tokens, 20);
}

#[test]
fn tokens_union_pins_strip_hashes_and_skip_unknown_skills() {
    let input = manifest_input(
        "t",
        vec![("a", vec!["demo-review", "demo-review@sha256:aaaa", "unknown"]), ("b", vec!["demo-scan"])],
    );
    let found = manifest_screen::discover(vec![vec![manifest_file("multi", "/m/multi.toml", Ok(input))]], &map_skills());
    let ManifestState::Valid { tokens, .. } = &found[0].state else {
        panic!("expected a valid state");
    };
    assert_eq!(*tokens, 27, "union by name: 20 + 7, unknown contributes 0");
}

#[test]
fn detail_lists_per_pin_tokens() {
    let manifest = DiscoveredManifest {
        name: "rt".to_string(),
        path: "lunchbox/manifests/rt.toml".to_string(),
        state: ManifestState::Valid {
            task: "t".to_string(),
            workers: vec![(
                "w".to_string(),
                vec!["demo-review".to_string()],
                Some(vec!["read".to_string(), "bash".to_string()]),
            )],
            tokens: 20,
        },
    };
    let state = ManifestDetailState::new(manifest, map_skills());
    assert_eq!(manifest_screen::pin_tokens(&state, &"demo-review".to_string()), Some(20));
    assert_eq!(manifest_screen::pin_tokens(&state, &"demo-review@sha256:aaaa".to_string()), Some(20));
    assert_eq!(manifest_screen::pin_tokens(&state, &"nope".to_string()), None);
    let rendered = screen_text(&manifest_screen::render_detail(&state));
    assert!(rendered.contains("demo-review  20"), "{rendered}");
}

#[test]
fn detail_lists_worker_tools_when_set() {
    let manifest = DiscoveredManifest {
        name: "rt".to_string(),
        path: "lunchbox/manifests/rt.toml".to_string(),
        state: ManifestState::Valid {
            task: "t".to_string(),
            workers: vec![(
                "w".to_string(),
                vec!["demo-review".to_string()],
                Some(vec!["read".to_string(), "bash".to_string()]),
            )],
            tokens: 20,
        },
    };
    let state = ManifestDetailState::new(manifest, map_skills());
    let rendered = screen_text(&manifest_screen::render_detail(&state));
    assert!(rendered.contains("tools read, bash"), "{rendered}");
}

fn section(label: &str, root: &str, skills: Vec<ListedSkill>) -> RootSection {
    RootSection { label: label.to_string(), root: root.to_string(), skills, error: None }
}

fn demo_sections() -> Vec<RootSection> {
    vec![
        section("--library", "/home/w/.agents/skills", demo_skills()),
        section("default", "/work/.agents/skills", vec![]),
        section("default", "/home/w/.agents/skills", demo_skills()),
    ]
}

#[test]
fn pantry_opens_on_first_section_with_skills() {
    let mut sections = demo_sections();
    sections.insert(0, section("library_paths", "/empty", vec![]));
    let state = PantryState::build(sections);
    let focused = &state.sections[state.section];
    assert!(!focused.skills.is_empty(), "focused section must show skills");
    assert!(focused.skills.iter().any(|s| s.name == "demo-review"));
}

#[test]
fn toggle_selects_by_name_and_cycles_sections() {
    let mut state = PantryState::build(demo_sections());
    pantry_screen::handle_key(&mut state, &press(Key::Char(' ')));
    pantry_screen::handle_key(&mut state, &press(Key::Down));
    pantry_screen::handle_key(&mut state, &press(Key::Char(' ')));
    assert_eq!(state.selected, vec!["demo-review", "demo-scan"]);
    pantry_screen::handle_key(&mut state, &press(Key::Char(' ')));
    assert_eq!(state.selected, vec!["demo-review"], "second toggle removes");
    let before = state.section;
    pantry_screen::handle_key(&mut state, &press(Key::Right));
    assert_ne!(state.section, before, "Right must move to another section");
    assert_eq!(state.cursor, 0, "cursor resets on section change");
    pantry_screen::handle_key(&mut state, &press(Key::Left));
    assert_eq!(state.section, before);
    assert_eq!(
        pantry_screen::handle_key(&mut state, &press(Key::Char('s'))),
        Action::ConfirmFlat(vec!["demo-review".to_string()])
    );
}

#[test]
fn start_without_selection_reports_status() {
    let mut state = PantryState::build(demo_sections());
    assert_eq!(pantry_screen::handle_key(&mut state, &press(Key::Char('s'))), Action::Continue);
    assert_eq!(state.status, "select at least one skill first");
}

fn fake_run(run_id: &str) -> PreparedRun {
    PreparedRun {
        run_id: run_id.to_string(),
        run_dir: format!("/runs/{run_id}"),
        workdir: format!("/runs/{run_id}/workdir"),
        locked: vec![],
        mount_mode: MountMode::Symlink,
        menu_tokens: 27,
        without_tokens: 0,
        without_skills: 0,
        workers: vec![],
        worker_tokens: vec![],
        packs_layout: false,
        parent_pack: format!("/runs/{run_id}/workdir"),
    }
}

fn menu_with_run() -> MenuState {
    let mut menu = MenuState::new(Config::default(), vec![]);
    assert_eq!(menu.dispatch(&press(Key::Enter)), Step::Open(Route::Pantry));
    menu.push(Layer::Pantry(PantryState::build(demo_sections())));
    menu.dispatch(&press(Key::Char(' ')));
    menu.dispatch(&press(Key::Down));
    menu.dispatch(&press(Key::Char(' ')));
    let step = menu.dispatch(&press(Key::Char('s')));
    let Step::Confirm(source) = step else {
        panic!("s must ask to confirm the pack");
    };
    menu.push(Layer::Confirm(ConfirmState::new(source, Ok(vec![]))));
    let step = menu.dispatch(&press(Key::Enter));
    let Step::Mount { workers, use_packs, .. } = step else {
        panic!("enter must ask to mount");
    };
    assert!(!use_packs);
    assert_eq!(workers[0].pack, vec!["demo-review", "demo-scan"]);
    menu.mounted(Ok(fake_run("lbx_a")));
    menu
}

#[test]
fn menu_mount_and_finish_roundtrip() {
    let mut menu = menu_with_run();
    assert!(menu.status.contains("mounted"), "{}", menu.status);
    assert!(matches!(menu.stack.last(), Some(Layer::Pantry(_))));
    assert_eq!(menu.dispatch(&press(Key::Char('f'))), Step::Teardown);
    menu.finished(Ok(()));
    assert!(menu.live.is_none(), "f must finish the live run");
    assert_eq!(menu.status, "unmounted — result.json written");
    assert_eq!(menu.dispatch(&press(Key::Char('q'))), Step::Quit);
    assert_eq!(menu.quit_refusal(), None);
}

#[test]
fn mod_quit_with_mounted_run_implies_finish() {
    let mut menu = menu_with_run();
    assert_eq!(menu.dispatch(&press(Key::Char('q'))), Step::Quit);
    assert!(menu.quit_refusal().is_some(), "a live run must be finished before leaving");
    menu.finished(Ok(()));
    assert_eq!(menu.quit_refusal(), None);
}

#[test]
fn mod_failed_finish_keeps_run_recoverable_and_quit_fails_closed() {
    let mut menu = menu_with_run();
    assert_eq!(menu.dispatch(&press(Key::Char('f'))), Step::Teardown);
    menu.finished(Err("permission denied".to_string()));
    assert!(menu.live.is_some(), "failed finish must keep the run handle");
    assert!(menu.status.contains("finish failed"), "{}", menu.status);
    let step = menu.dispatch(&press(Key::Char('s')));
    let Step::Confirm(source) = step else {
        panic!("s must ask to confirm the pack");
    };
    menu.push(Layer::Confirm(ConfirmState::new(source, Ok(vec![]))));
    assert_eq!(menu.dispatch(&press(Key::Enter)), Step::Stay);
    assert!(menu.status.contains("already mounted"), "a stuck run must block starting another: {}", menu.status);
    assert!(matches!(menu.stack.last(), Some(Layer::Confirm(_))));
    menu.dispatch(&press(Key::Esc));
    assert_eq!(menu.dispatch(&press(Key::Char('q'))), Step::Quit);
    let refusal = menu.quit_refusal().unwrap();
    assert!(refusal.contains("still mounted"), "{refusal}");
}

#[test]
fn f_reaches_editor_input_and_finishes_only_outside_it() {
    let mut menu = MenuState::new(Config::default(), vec![]);
    menu.dispatch(&press(Key::Down));
    assert_eq!(menu.dispatch(&press(Key::Enter)), Step::Open(Route::Manifests));
    menu.push(Layer::Manifests(manifest_screen::ManifestsState::build(vec![], &demo_skills())));
    assert_eq!(menu.dispatch(&press(Key::Char('n'))), Step::NewEditor);
    menu.editor_opened(Ok(EditorState::new_draft(demo_skills())), true);
    assert!(matches!(menu.stack.last(), Some(Layer::Editor(_))));
    menu.dispatch(&press(Key::Char('f')));
    match menu.stack.last() {
        Some(Layer::Editor(editor)) => assert_eq!(editor.input, "f", "f must reach the editor input, not trigger finish"),
        _ => panic!("editor must still be on top"),
    }
    assert_eq!(menu.status, "no live run", "finish must not have fired");
    menu.dispatch(&press(Key::Backspace));
    menu.dispatch(&press(Key::Char('e')));
    menu.dispatch(&press(Key::Enter));
    menu.dispatch(&press(Key::Char('f')));
    assert_eq!(menu.status, "no live run");
    assert!(matches!(menu.stack.last(), Some(Layer::Editor(_))), "f outside input must not pop the editor");
}

fn picker_with_run() -> PickerState {
    let mut state = PickerState::new(Config::default(), vec![], demo_skills());
    picker::handle_key(&mut state, &press(Key::Char(' ')));
    picker::handle_key(&mut state, &press(Key::Down));
    picker::handle_key(&mut state, &press(Key::Char(' ')));
    assert_eq!(state.selected_names(), vec!["demo-review", "demo-scan"]);
    let Request::Start(workers) = picker::handle_key(&mut state, &press(Key::Char('s'))) else {
        panic!("s must ask to start a run");
    };
    assert_eq!(workers[0].pack, vec!["demo-review", "demo-scan"]);
    assert_eq!(state.started(Ok(fake_run("lbx_p"))), picker::Action::StartRun);
    state
}

#[test]
fn picker_start_mounts_and_finish_unmounts() {
    let mut state = picker_with_run();
    assert_eq!(picker::handle_key(&mut state, &press(Key::Char('f'))), Request::Finish { quit: false });
    assert_eq!(state.finished(Ok(())), picker::Action::FinishRun);
    assert!(state.run.is_none());
    assert_eq!(picker::handle_key(&mut state, &press(Key::Char('q'))), Request::Done(picker::Action::Quit));
}

#[test]
fn picker_quit_with_mounted_run_implies_finish() {
    let mut state = picker_with_run();
    assert_eq!(picker::handle_key(&mut state, &press(Key::Char('q'))), Request::Finish { quit: true });
    state.finished(Ok(()));
    assert!(state.run.is_none(), "quit must not leak a mount");
}

#[test]
fn picker_failed_finish_keeps_run_recoverable_and_quit_fails_closed() {
    let mut state = picker_with_run();
    assert_eq!(picker::handle_key(&mut state, &press(Key::Char('f'))), Request::Finish { quit: false });
    assert_eq!(state.finished(Err("permission denied".to_string())), picker::Action::Continue);
    assert!(state.run.is_some(), "failed finish must keep the run handle");
    assert!(state.status.contains("finish failed"));
    assert_eq!(picker::handle_key(&mut state, &press(Key::Char('s'))), Request::Done(picker::Action::Continue));
    assert!(state.status.contains("already mounted"), "{}", state.status);
    assert_eq!(picker::handle_key(&mut state, &press(Key::Char('q'))), Request::Finish { quit: true });
    assert_eq!(state.finished(Err("permission denied".to_string())), picker::Action::Continue);
    assert!(state.run.is_some(), "quit must not discard a run it failed to unmount");
    assert_eq!(picker::handle_key(&mut state, &press(Key::Char('f'))), Request::Finish { quit: false });
    assert_eq!(state.finished(Ok(())), picker::Action::FinishRun);
}

fn report(path: &str, allow: &[&str], deny: &[&str]) -> LayerReport {
    LayerReport {
        path: path.to_string(),
        exists: true,
        allow: allow.iter().map(|s| s.to_string()).collect(),
        deny: deny.iter().map(|s| s.to_string()).collect(),
    }
}

#[test]
fn esc_exits_input_mode_before_quit() {
    let mut state = PolicyState::from_reports(report("config.toml", &[], &["old-thing"]), report("lunchbox.toml", &["demo-review"], &[]));
    policy::handle_key(&mut state, &press(Key::Char('a')));
    assert!(state.input_mode);
    assert_eq!(policy::handle_key(&mut state, &press(Key::Esc)), policy::Request::Done(policy::Action::Continue));
    assert!(!state.input_mode);
    assert_eq!(policy::handle_key(&mut state, &press(Key::Esc)), policy::Request::Done(policy::Action::Quit));
}

fn listed14(name: &str, tokens: u64) -> ListedSkill {
    ListedSkill { name: name.to_string(), source: format!("/s/{name}"), tokens }
}

#[test]
fn space_toggles_and_cursor_clamps() {
    let mut state = PreviewState::new(vec![listed14("demo-review", 14), listed14("demo-scan", 13)], 0, 2000);
    preview::handle_key(&mut state, &press(Key::Char(' ')));
    assert!(state.selected[0]);
    preview::handle_key(&mut state, &press(Key::Down));
    preview::handle_key(&mut state, &press(Key::Down));
    assert_eq!(state.cursor, 1, "cursor clamps at last entry");
    preview::handle_key(&mut state, &press(Key::Up));
    preview::handle_key(&mut state, &press(Key::Up));
    preview::handle_key(&mut state, &press(Key::Up));
    assert_eq!(state.cursor, 0, "cursor clamps at first entry");
    preview::handle_key(&mut state, &press(Key::Char('n')));
    assert!(state.selected.iter().all(|f| !f));
    preview::handle_key(&mut state, &press(Key::Char('a')));
    assert!(state.selected.iter().all(|f| *f));
    assert_eq!(state.selected_tokens(), 27);
}

#[test]
fn selected_tokens_equal_cli_preview() {
    let mut state = PreviewState::new(vec![listed14("demo-review", 14), listed14("demo-scan", 13)], 27, 2000);
    state.preselect(&["demo-review".to_string(), "demo-scan".to_string()]);
    assert_eq!(state.selected_tokens(), 27);
}

#[test]
fn editor_save_path_follows_the_target() {
    let mut state = named_draft("e2e");
    assert_eq!(state.save_path(Some("/h")).unwrap(), "lunchbox/manifests/e2e.toml");
    state.save_target = SaveTarget::Home;
    assert_eq!(state.save_path(Some("/h")).unwrap(), "/h/.lunchbox/manifests/e2e.toml");
    assert!(state.save_path(None).is_err());
    state.path = Some("/m/kept.toml".to_string());
    assert_eq!(state.save_path(None).unwrap(), "/m/kept.toml");
}
