use lunchbox::adapter::{DirReport, FoundDirSkill};
use lunchbox::config::{Config, LayerReport};
use lunchbox::library::ListedSkill;
use lunchbox::pantry::PantryStatus;
use lunchbox::resolve::Locked;
use lunchbox::tui::doctor::{self, DoctorReport, DoctorState};
use lunchbox::tui::menu::confirm::{self, ConfirmState, Source};
use lunchbox::tui::menu::editor::{self, EditorState};
use lunchbox::tui::menu::editor_view;
use lunchbox::tui::menu::home::{self, HomeState};
use lunchbox::tui::menu::manifests::{self as manifest_screen, DiscoveredManifest, ManifestState, ManifestsState};
use lunchbox::tui::menu::pantry::{self as pantry_screen, PantryState, RootSection};
use lunchbox::tui::menu::{self as menu, Layer, MenuState};
use lunchbox::tui::picker::{self, PickerState};
use lunchbox::tui::policy::{self, PolicyState, WhichLayer};
use lunchbox::tui::view::{line_text, screen_text, Seg, Tone};
use lunchbox::tui::{Key, KeyPress};

fn press(key: Key) -> KeyPress {
    KeyPress { key, plain: true, shift: false, press: true }
}

fn listed(name: &str, tokens: u64) -> ListedSkill {
    ListedSkill { name: name.to_string(), source: format!("/s/{name}"), tokens }
}

fn texts(lines: &[Vec<Seg>]) -> Vec<String> {
    lines.iter().map(line_text).collect()
}

#[test]
fn home_marks_the_cursor_row_in_bold() {
    let lines = home::render(&HomeState { cursor: 1 });
    assert_eq!(texts(&lines), vec!["  Pantry", "▸ Manifests", "  Doctor", "  Policy"]);
    assert_eq!(lines[1][1].tone, Tone::Bold);
    assert_eq!(lines[0][1].tone, Tone::Plain);
    assert_eq!(screen_text(&lines), "  Pantry\n▸ Manifests\n  Doctor\n  Policy\n");
}

#[test]
fn empty_manifests_screen_says_where_it_looked() {
    let state = ManifestsState { manifests: vec![], cursor: 0 };
    let lines = manifest_screen::render(&state);
    assert_eq!(
        texts(&lines),
        vec![
            "No manifests found",
            "looked in ./lunchbox/manifests and ~/.lunchbox/manifests",
            "",
            "n  new manifest here",
        ]
    );
    assert_eq!(lines[3][0].tone, Tone::Good);
}

#[test]
fn manifest_rows_pad_name_and_task() {
    let valid = DiscoveredManifest {
        name: "rt".to_string(),
        path: "lunchbox/manifests/rt.toml".to_string(),
        state: ManifestState::Valid { task: "t".to_string(), workers: vec![("w".to_string(), vec![], None)], tokens: 20 },
    };
    let broken = DiscoveredManifest {
        name: "bad".to_string(),
        path: "lunchbox/manifests/bad.toml".to_string(),
        state: ManifestState::Broken("unknown field".to_string()),
    };
    let lines = manifest_screen::render(&ManifestsState { manifests: vec![valid, broken], cursor: 0 });
    assert_eq!(texts(&lines)[0], format!("▸ {:<20} {:<24} 1 workers  ~20 tokens", "rt", "t"));
    assert_eq!(texts(&lines)[1], format!("  {:<20} error: unknown field", "bad"));
    assert_eq!(lines[0][1].tone, Tone::Bold);
    assert_eq!(lines[1][1].tone, Tone::Bad);
}

#[test]
fn broken_manifest_detail_shows_the_error() {
    let d = DiscoveredManifest {
        name: "bad".to_string(),
        path: "p/bad.toml".to_string(),
        state: ManifestState::Broken("boom".to_string()),
    };
    let state = manifest_screen::ManifestDetailState::new(d, vec![]);
    let lines = manifest_screen::render_detail(&state);
    assert_eq!(
        texts(&lines),
        vec![format!("{:<15} bad", "manifest"), format!("{:<15} p/bad.toml", "path"), String::new(), "error: boom".to_string()]
    );
}

#[test]
fn unknown_pins_show_a_question_mark_in_detail() {
    let d = DiscoveredManifest {
        name: "rt".to_string(),
        path: "p/rt.toml".to_string(),
        state: ManifestState::Valid {
            task: "t".to_string(),
            workers: vec![("w".to_string(), vec!["demo-review@sha256:ab".to_string(), "nope".to_string()], Some(vec![]))],
            tokens: 20,
        },
    };
    let state = manifest_screen::ManifestDetailState::new(d, vec![listed("demo-review", 20)]);
    let text = texts(&manifest_screen::render_detail(&state));
    assert_eq!(text[2], format!("{:<15} t", "task"));
    assert_eq!(text[3], format!("{:<15} ~20", "menu_tokens"));
    assert_eq!(text[5], "worker w");
    assert_eq!(text[6], "  - demo-review@sha256:ab  20");
    assert_eq!(text[7], "  - nope  ?");
    assert_eq!(text.len(), 8, "an empty tools list adds no line");
}

fn locked(name: &str, hash: &str, tokens: u64) -> Locked {
    Locked {
        name: name.to_string(),
        source: format!("/s/{name}"),
        hash: hash.to_string(),
        scan: "skipped".to_string(),
        description_tokens: tokens,
    }
}

#[test]
fn confirm_lists_pins_tokens_and_task() {
    let state = ConfirmState::new(
        Source::Flat(vec!["a".to_string(), "b".to_string()]),
        Ok(vec![locked("a", "sha256:1", 10), locked("b", "sha256:2", 5)]),
    );
    assert!(confirm::fits(&state));
    assert_eq!(
        texts(&confirm::render(&state)),
        vec![
            "adapter        none — mounted, not spawned".to_string(),
            "skills         a@sha256:1".to_string(),
            "skills         b@sha256:2".to_string(),
            "menu_tokens    this run: 89".to_string(),
            format!("task           {}", state.task),
            String::new(),
            "Enter mount · Esc cancel".to_string(),
        ]
    );
}

#[test]
fn confirm_total_that_overflows_does_not_fit() {
    let state = ConfirmState::new(
        Source::Flat(vec!["a".to_string()]),
        Ok(vec![locked("a", "h", u64::MAX - 10)]),
    );
    assert!(!confirm::fits(&state));
}

fn section(label: &str, root: &str, skills: Vec<ListedSkill>, error: Option<&str>) -> RootSection {
    RootSection { label: label.to_string(), root: root.to_string(), skills, error: error.map(str::to_string) }
}

#[test]
fn pantry_lists_sections_then_the_open_one() {
    let state = PantryState {
        sections: vec![
            section("--library", "/lib", vec![listed("demo-review", 65), listed("demo-scan", 64)], None),
            section("pantry:x", "git@x", vec![], Some("no root")),
        ],
        section: 0,
        cursor: 1,
        selected: vec!["demo-review".to_string()],
        status: String::new(),
    };
    assert_eq!(
        texts(&pantry_screen::render(&state)),
        vec![
            format!("▸ {:<28} /lib  2 skills", "--library"),
            format!("  {:<28} error: no root", "pantry:x"),
            String::new(),
            format!("  [x] {:<16} 65", "demo-review"),
            format!("▸ [ ] {:<16} 64", "demo-scan"),
        ]
    );
    let broken = PantryState { section: 1, ..state };
    assert_eq!(texts(&pantry_screen::render(&broken))[3], "error: no root");
}

#[test]
fn pantry_without_roots_says_so() {
    let state = PantryState { sections: vec![], section: 0, cursor: 0, selected: vec![], status: String::new() };
    assert_eq!(texts(&pantry_screen::render(&state)), vec!["", "no skill roots found"]);
}

fn found(name: &str, tokens: u64) -> FoundDirSkill {
    FoundDirSkill { name: name.to_string(), dir: "/d".to_string(), tokens }
}

#[test]
fn doctor_marks_the_fattest_five() {
    let union: Vec<FoundDirSkill> =
        vec![found("a", 1), found("b", 50), found("c", 40), found("d", 30), found("e", 20), found("f", 10)];
    let report = DoctorReport {
        adapter: "pi".to_string(),
        adapter_version: Some("0.84.4".to_string()),
        git_version: None,
        dirs: vec![
            DirReport { dir: "/home/w/.pi/skills".to_string(), exists: true, skills: union.clone() },
            DirReport { dir: "/work/.pi/skills".to_string(), exists: false, skills: vec![] },
        ],
        pantries: vec![PantryStatus {
            name: "team".to_string(),
            repo: "/p/team".to_string(),
            root: Some("/p/team/skills".to_string()),
            skills: 3,
            error: None,
        }],
        menu_tokens: 225,
        union,
    };
    let lines = doctor::render(&DoctorState::new(report));
    let text = texts(&lines);
    assert_eq!(text[0], "lunchbox doctor — pi [0.84.4]");
    assert_eq!(text[1], "git (not found)");
    assert_eq!(text[2], "/home/w/.pi/skills  6 skills");
    assert_eq!(text[3], "/work/.pi/skills  absent");
    assert_eq!(text[4], "pantries:");
    assert_eq!(text[5], format!("  {:<16} 3 skills  /p/team/skills", "team"));
    assert_eq!(text[6], "");
    assert_eq!(text[7], "menu_tokens  225  (6 skills union)");
    assert_eq!(text[8], format!("  {:<16} 1", "a"), "the lightest of six is not among the fattest");
    assert_eq!(text[9], format!("* {:<16} 50", "b"));
    assert_eq!(text[13], format!("* {:<16} 10", "f"));
    assert_eq!(text[14], "");
    assert_eq!(text[15], "↑/↓ scroll · Home/End jump · q quit");
    assert_eq!(lines[9][0].tone, Tone::Bold);
}

#[test]
fn doctor_window_follows_the_scroll() {
    let union: Vec<FoundDirSkill> = (0..12).map(|i| found(&format!("s{i:02}"), i)).collect();
    let report = DoctorReport {
        adapter: "none".to_string(),
        adapter_version: None,
        git_version: Some("2.43.0".to_string()),
        dirs: vec![],
        pantries: vec![],
        menu_tokens: 0,
        union,
    };
    let mut state = DoctorState::new(report);
    doctor::handle_key(&mut state, &press(Key::End));
    let text = texts(&doctor::render(&state));
    assert_eq!(text[0], "lunchbox doctor — none (not detected)");
    assert_eq!(text[1], "git [2.43.0]");
    assert_eq!(text[4], format!("  {:<16} 2", "s02"), "the window starts at the scroll");
    assert_eq!(text.len(), 4 + 10 + 2, "one window of ten");
}

#[test]
fn empty_union_says_so_on_the_doctor_screen() {
    let report = DoctorReport {
        adapter: "none".to_string(),
        adapter_version: None,
        git_version: None,
        dirs: vec![],
        pantries: vec![],
        menu_tokens: 0,
        union: vec![],
    };
    let text = texts(&doctor::render(&DoctorState::new(report)));
    assert_eq!(text[4], "               no skills found in adapter skill dirs");
}

#[test]
fn broken_pantry_summary_lines() {
    let mut p = PantryStatus { name: "x".to_string(), repo: "/r".to_string(), root: None, skills: 0, error: Some("gone".to_string()) };
    assert_eq!(p.summary_line(), format!("  {:<16} broken: gone", "x"));
    p.error = None;
    assert_eq!(p.summary_line(), format!("  {:<16} broken", "x"));
}

fn layer_report(path: &str, allow: &[&str], deny: &[&str]) -> LayerReport {
    LayerReport {
        path: path.to_string(),
        exists: allow.len() + deny.len() > 0,
        allow: allow.iter().map(|s| s.to_string()).collect(),
        deny: deny.iter().map(|s| s.to_string()).collect(),
    }
}

#[test]
fn policy_columns_mark_the_list_being_edited() {
    let state = PolicyState::from_reports(layer_report("/g.toml", &[], &[]), layer_report("/p.toml", &["a"], &["x", "y"]));
    let (global, project) = policy::render(&state);
    assert_eq!(texts(&global), vec!["global", "/g.toml", "exists  false", "allow   (empty)", "deny   (empty)"]);
    assert_eq!(texts(&project), vec!["project", "/p.toml", "exists  true", "allow:", "  a", "deny:", "▸ x", "  y"]);
    assert_eq!(project[0][0].tone, Tone::Bold);
    assert_eq!(global[0][0].tone, Tone::Plain);
    assert_eq!(project[5][0].tone, Tone::Bold, "the deny list is being edited");
    assert_eq!(project[3][0].tone, Tone::Plain);
    assert_eq!(texts(&policy::render_column(&state, WhichLayer::Global)), texts(&global));
}

#[test]
fn picker_lists_the_library_then_the_run() {
    let mut state = PickerState::new(Config::default(), vec![], vec![listed("demo-review", 65), listed("demo-scan", 64)]);
    picker::handle_key(&mut state, &press(Key::Char(' ')));
    assert_eq!(
        texts(&picker::render(&state)),
        vec![format!("▸ [x] {:<16} 65", "demo-review"), format!("  [ ] {:<16} 64", "demo-scan")]
    );
    let empty = PickerState::new(Config::default(), vec![], vec![]);
    assert_eq!(texts(&picker::render(&empty)), vec!["no skills found in library roots"]);
}

#[test]
fn editor_screen_lines_in_order() {
    let mut state = EditorState::new_draft(vec![listed("demo-review", 65), listed("demo-scan", 64)]);
    for ch in "e2e".chars() {
        editor::handle_key(&mut state, &press(Key::Char(ch)));
    }
    editor::handle_key(&mut state, &press(Key::Enter));
    editor::handle_key(&mut state, &press(Key::Char(' ')));
    assert!(editor_view::fits(&state));
    let text = texts(&editor_view::render(&state));
    assert_eq!(text[0], format!("{:<15} ./lunchbox/manifests → e2e/e2e.toml", "manifest"));
    assert_eq!(text[1], format!("{:<15} ", "task"));
    assert_eq!(text[2], format!("{:<15} none", "adapter"));
    assert_eq!(text[3], format!("{:<15} (none)", "budget"));
    assert_eq!(text[4], format!("{:<15} off", "pin hashes"));
    assert_eq!(text[5], "menu_tokens      this run: 139");
    assert_eq!(text[6], "");
    assert_eq!(text[7], "workers");
    assert_eq!(text[8], format!("  {:<16} pack: demo-review (65)", "main"));
    assert_eq!(text[9], "");
    assert_eq!(text[10], "skills ▸", "the skills pane has the focus");
    assert_eq!(text[11], format!("▸ [x] {:<16} 65", "demo-review"));
    assert_eq!(text[12], format!("  [ ] {:<16} 64", "demo-scan"));
    assert_eq!(text[14], "demo-review", "the skill under the cursor");
    assert_eq!(text.last().unwrap(), "w/r/d workers · c adapter · a add tool · p pin hashes · f finish · S save+start");
}

#[test]
fn editor_typing_shows_the_caret() {
    let mut state = EditorState::new_draft(vec![]);
    editor::handle_key(&mut state, &press(Key::Char('x')));
    let lines = editor_view::render(&state);
    assert_eq!(line_text(&lines[0]), format!("{:<15} x▌", "manifest"));
    assert_eq!(lines[0][1].tone, Tone::Accent);
}

#[test]
fn editor_with_duplicate_union_names_does_not_fit() {
    let state = EditorState::new_draft(vec![listed("a", 1), listed("a", 2)]);
    assert!(!editor_view::fits(&state));
    let state = EditorState::new_draft(vec![listed("a", u64::MAX - 10)]);
    assert!(!editor_view::fits(&state));
}

#[test]
fn menu_chrome_titles_status_and_keys() {
    let mut m = MenuState::new(Config::default(), vec![]);
    assert_eq!(menu::title(&Layer::Home(HomeState { cursor: 0 })), "lunchbox menu");
    assert_eq!(m.footer_text(), "↑/↓ move · Enter open · Esc back · q quit");
    let status = m.status_line();
    assert_eq!(line_text(&status), format!("no live run  ·  {}", m.status));
    assert_eq!(status[0].tone, Tone::Dim);
    m.push(Layer::Editor(EditorState::new_draft(vec![])));
    assert_eq!(m.footer_text(), "Tab pane · Space select · a add tool · t task · b budget · s save · Esc back · q quit");
    let Some(Layer::Editor(e)) = m.stack.last() else { panic!("editor on top") };
    assert_eq!(menu::title(m.stack.last().unwrap()), "Editor — manifest name");
    assert_eq!(line_text(&m.status_line()), format!("no live run  ·  {}", e.prompt()));
    let detail = manifest_screen::ManifestDetailState::new(
        DiscoveredManifest { name: "rt".to_string(), path: "p".to_string(), state: ManifestState::Broken("b".to_string()) },
        vec![],
    );
    assert_eq!(menu::title(&Layer::ManifestDetail(detail)), "manifest rt");
}

fn six_skill_report() -> DoctorReport {
    let union: Vec<FoundDirSkill> =
        vec![found("a", 1), found("b", 50), found("c", 40), found("d", 30), found("e", 20), found("f", 10)];
    DoctorReport {
        adapter: "pi".to_string(),
        adapter_version: Some("0.84.4".to_string()),
        git_version: None,
        dirs: vec![
            DirReport { dir: "/home/w/.pi/skills".to_string(), exists: true, skills: union.clone() },
            DirReport { dir: "/work/.pi/skills".to_string(), exists: false, skills: vec![] },
        ],
        pantries: vec![PantryStatus {
            name: "team".to_string(),
            repo: "/p/team".to_string(),
            root: Some("/p/team/skills".to_string()),
            skills: 3,
            error: None,
        }],
        menu_tokens: 225,
        union,
    }
}

#[test]
fn doctor_report_lists_dirs_fattest_and_pantries() {
    let lines = doctor::report_lines(&six_skill_report());
    let expected: Vec<String> = vec![
        "adapter        pi 0.84.4".to_string(),
        "git            (not found)".to_string(),
        "skill dirs:".to_string(),
        format!("  {:<40} 6 skills", "/home/w/.pi/skills"),
        format!("  {:<40} absent", "/work/.pi/skills"),
        "menu_tokens    225  (6 skills union)".to_string(),
        "fattest:".to_string(),
        format!("  {:<16} 50", "b"),
        format!("  {:<16} 40", "c"),
        format!("  {:<16} 30", "d"),
        format!("  {:<16} 20", "e"),
        format!("  {:<16} 10", "f"),
        "duplicates     none".to_string(),
        "pantries:".to_string(),
        format!("  {:<16} 3 skills  /p/team/skills", "team"),
    ];
    assert_eq!(lines, expected);
}

#[test]
fn doctor_report_groups_repeated_names() {
    let report = DoctorReport {
        adapter: "none".to_string(),
        adapter_version: None,
        git_version: Some("git version 2.43.0".to_string()),
        dirs: vec![],
        pantries: vec![],
        menu_tokens: 0,
        union: vec![
            FoundDirSkill { name: "x".to_string(), dir: "/a".to_string(), tokens: 3 },
            FoundDirSkill { name: "y".to_string(), dir: "/a".to_string(), tokens: 2 },
            FoundDirSkill { name: "x".to_string(), dir: "/b".to_string(), tokens: 3 },
        ],
    };
    let lines = doctor::report_lines(&report);
    assert_eq!(lines[0], "adapter        none (not detected)");
    assert_eq!(lines[1], "git            git version 2.43.0");
    assert_eq!(lines[lines.len() - 2], "duplicates:");
    assert_eq!(lines[lines.len() - 1], "  x  in /a, /b");
    let empty = DoctorReport { union: vec![], ..report };
    let lines = doctor::report_lines(&empty);
    assert_eq!(lines[4], "               no skills found in adapter skill dirs");
    assert_eq!(lines[5], "fattest:");
    assert_eq!(lines[6], "duplicates     none");
}
