//! The menu: a stack of screens over the pantry, the manifests, the doctor
//! report and the policy, with one live run at a time.
pub mod confirm;
pub mod editor;
pub mod editor_view;
pub mod home;
pub mod manifests;
pub mod pantry;

use crate::config::Config;
use crate::run::{PreparedRun, Worker};
use crate::text::{push_str, string_from_chars, to_string};
use crate::tui::view::{line_view, three, Seg, Tone};
use crate::tui::{Key, KeyPress};
use vstd::prelude::*;

verus! {

/// What a screen asks of the menu after a key.
#[derive(Debug, Clone, PartialEq)]
pub enum Action {
    Continue,
    Pop,
    Open(home::Route),
    ConfirmFlat(Vec<String>),
    Detail(manifests::DiscoveredManifest),
    Mount { source: confirm::Source, task: String },
    Quit,
    EditManifest(manifests::DiscoveredManifest),
    NewEditor,
    EditorSave,
    EditorSaveAndStart,
    Finish,
}

/// A cursor kept within a list of `len` entries (0 for an empty list).
pub open spec fn policy_clamp(cursor: nat, len: nat) -> nat {
    crate::tui::policy::clamped(cursor, len)
}


/// A screen of the menu's stack.
#[derive(Debug, PartialEq)]
pub enum Layer {
    Home(home::HomeState),
    Pantry(pantry::PantryState),
    Manifests(manifests::ManifestsState),
    ManifestDetail(manifests::ManifestDetailState),
    Doctor(crate::tui::doctor::DoctorState),
    Policy(crate::tui::policy::PolicyState),
    Confirm(confirm::ConfirmState),
    Editor(editor::EditorState),
}

/// What the menu asks of its driver after a key.
#[derive(Debug, PartialEq)]
pub enum Step {
    /// Nothing more to do.
    Stay,
    /// Leave the menu (finishing a live run first, see `quit_refusal`).
    Quit,
    /// Tear the live run down, then report with `finished`.
    Teardown,
    /// Build the screen of a route, then `push` it.
    Open(home::Route),
    /// Check and resolve a source's pins, then `push` a confirm screen.
    Confirm(confirm::Source),
    /// Price a manifest's pins, then `push` its detail screen.
    Detail(manifests::DiscoveredManifest),
    /// Prepare and mount a run, then report with `mounted`.
    Mount { workers: Vec<Worker>, use_packs: bool, task: String },
    /// Load the manifest at this path into an editor, then report with `editor_opened`.
    LoadEditor(String),
    /// Start a new manifest in an editor, then report with `editor_opened`.
    NewEditor,
    /// Save the editor's manifest, then report with `saved`.
    Save { and_start: bool },
    /// Rebuild the manifests screen now on top, then `replace_top` with it.
    RebuildManifests,
    /// Carry out the policy screen's request, then report to the policy screen.
    Policy(crate::tui::policy::Request),
}

/// The menu: configuration, the extra library roots, the stack of screens,
/// the live run and a status line.
#[derive(Debug, PartialEq)]
pub struct MenuState {
    pub cfg: Config,
    pub libraries: Vec<String>,
    pub stack: Vec<Layer>,
    pub live: Option<PreparedRun>,
    pub status: String,
}

/// Whether the layer lets `f` finish the live run (the doctor, policy and
/// editor screens keep `f` for themselves).
pub open spec fn finish_allowed(layer: Option<Layer>) -> bool {
    match layer {
        Some(Layer::Doctor(_)) => false,
        Some(Layer::Policy(_)) => false,
        Some(Layer::Editor(_)) => false,
        _ => true,
    }
}

/// The editor after a save: it names the file written and says so, or says
/// why the save failed; nothing else changes.
pub open spec fn editor_saved(e: editor::EditorState, e2: editor::EditorState, outcome: Result<String, String>) -> bool {
    &&& match outcome {
        Ok(path) => e2.path == Some(path) && e2.status@ == "wrote "@ + path@,
        Err(m) => e2.path == e.path && e2.status@ == "save failed: "@ + m@,
    }
    &&& e2.name == e.name
    &&& e2.workers == e.workers
    &&& e2.worker_cursor == e.worker_cursor
    &&& e2.focus == e.focus
    &&& e2.task == e.task
    &&& e2.adapter == e.adapter
    &&& e2.budget == e.budget
    &&& e2.pin_hashes == e.pin_hashes
    &&& e2.skills == e.skills
    &&& e2.skill_cursor == e.skill_cursor
    &&& e2.tool_cursor == e.tool_cursor
    &&& e2.input == e.input
    &&& e2.input_mode == e.input_mode
    &&& e2.save_target == e.save_target
}

/// The top of the stack.
pub open spec fn top(stack: Seq<Layer>) -> Option<Layer> {
    if stack.len() > 0 {
        Some(stack.last())
    } else {
        None
    }
}

impl MenuState {
    /// The menu on its home screen, with no live run.
    pub fn new(cfg: Config, libraries: Vec<String>) -> (m: Self)
        ensures
            m.cfg == cfg,
            m.libraries == libraries,
            m.stack@.len() == 1,
            m.stack@[0] == Layer::Home(home::HomeState { cursor: 0 }),
            m.live is None,
            m.status@ == "no live run"@,
    {
        let mut stack: Vec<Layer> = Vec::new();
        stack.push(Layer::Home(home::HomeState { cursor: 0 }));
        MenuState { cfg, libraries, stack, live: None, status: to_string("no live run") }
    }

    /// Whether a key asks to finish the live run: a plain `f` on a screen
    /// that does not keep `f` for itself.
    pub fn wants_finish(&self, key: &KeyPress) -> (b: bool)
        ensures
            b == (key.press && key.is_plain_char('f') && finish_allowed(top(self.stack@))),
    {
        if !key.press || !key.plain_char('f') {
            return false;
        }
        let n = self.stack.len();
        if n == 0 {
            return true;
        }
        match &self.stack[n - 1] {
            Layer::Doctor(_) => false,
            Layer::Policy(_) => false,
            Layer::Editor(_) => false,
            _ => true,
        }
    }

    /// Asks to finish the live run (refused when there is none).
    pub fn finish_live(&mut self) -> (s: Step)
        ensures
            final(self).cfg == old(self).cfg,
            final(self).libraries == old(self).libraries,
            final(self).stack == old(self).stack,
            final(self).live == old(self).live,
            old(self).live is None ==> s == Step::Stay && final(self).status@ == "no live run"@,
            old(self).live is Some ==> s == Step::Teardown && final(self).status == old(self).status,
    {
        if self.live.is_none() {
            self.status = to_string("no live run");
            return Step::Stay;
        }
        Step::Teardown
    }

    /// Records how tearing the live run down went.
    pub fn finished(&mut self, outcome: Result<(), String>)
        ensures
            final(self).stack == old(self).stack,
            match outcome {
                Ok(()) => final(self).live is None && final(self).status@ == "unmounted — result.json written"@,
                Err(e) => final(self).live == old(self).live && final(self).status@ == "finish failed: "@ + e@,
            },
    {
        match outcome {
            Ok(()) => {
                self.live = None;
                self.status = to_string("unmounted — result.json written");
            },
            Err(e) => {
                let mut m: Vec<char> = Vec::new();
                push_str(&mut m, "finish failed: ");
                push_str(&mut m, e.as_str());
                self.status = string_from_chars(&m);
            },
        }
    }

    /// Asks to mount a run of a source: refused while a run is live.
    pub fn mount(&mut self, source: confirm::Source, task: String) -> (s: Step)
        ensures
            final(self).cfg == old(self).cfg,
            final(self).libraries == old(self).libraries,
            final(self).stack == old(self).stack,
            final(self).live == old(self).live,
            old(self).live is Some ==> s == Step::Stay && final(self).status@
                == "a run is already mounted; press f to finish it"@,
            old(self).live is None ==> (s matches Step::Mount { workers, use_packs, task: t } && t == task && match source {
                confirm::Source::Flat(names) => !use_packs && workers@.len() == 1 && workers@[0].name@ == "default"@
                    && workers@[0].pack == names,
                confirm::Source::Manifest(input) => use_packs && workers == input.workers,
            }),
    {
        if self.live.is_some() {
            self.status = to_string("a run is already mounted; press f to finish it");
            return Step::Stay;
        }
        match source {
            confirm::Source::Flat(names) => {
                let mut workers: Vec<Worker> = Vec::new();
                workers.push(Worker::default_pack(names));
                Step::Mount { workers, use_packs: false, task }
            },
            confirm::Source::Manifest(input) => Step::Mount { workers: input.workers, use_packs: true, task },
        }
    }

    /// Records how mounting went: a mounted run becomes live and the confirm
    /// screen on top is closed.
    pub fn mounted(&mut self, outcome: Result<PreparedRun, String>)
        ensures
            match outcome {
                Ok(run) => final(self).live == Some(run) && final(self).status@ == "run "@ + run.run_id@ + " mounted ("@
                    + run.mount_mode.name_spec() + ")"@ && final(self).stack@ == if old(self).stack@.len() > 0 {
                    old(self).stack@.drop_last()
                } else {
                    old(self).stack@
                },
                Err(e) => final(self).live == old(self).live && final(self).stack == old(self).stack && final(self).status@
                    == "start failed: "@ + e@,
            },
    {
        match outcome {
            Ok(run) => {
                let mut m: Vec<char> = Vec::new();
                push_str(&mut m, "run ");
                push_str(&mut m, run.run_id.as_str());
                push_str(&mut m, " mounted (");
                push_str(&mut m, run.mount_mode.as_str());
                push_str(&mut m, ")");
                self.status = string_from_chars(&m);
                self.live = Some(run);
                if self.stack.len() > 0 {
                    self.stack.pop();
                }
            },
            Err(e) => {
                let mut m: Vec<char> = Vec::new();
                push_str(&mut m, "start failed: ");
                push_str(&mut m, e.as_str());
                self.status = string_from_chars(&m);
            },
        }
    }

    /// Puts a screen on top.
    pub fn push(&mut self, layer: Layer)
        ensures
            final(self).stack@ == old(self).stack@.push(layer),
            final(self).live == old(self).live,
    {
        self.stack.push(layer);
    }

    /// Replaces the screen on top (pushes it onto an empty stack).
    pub fn replace_top(&mut self, layer: Layer)
        ensures
            final(self).stack@ == if old(self).stack@.len() > 0 {
                old(self).stack@.drop_last().push(layer)
            } else {
                seq![layer]
            },
    {
        if self.stack.len() > 0 {
            self.stack.pop();
        }
        self.stack.push(layer);
    }

    /// Records how opening an editor went; a failure is reported in the status.
    pub fn editor_opened(&mut self, outcome: Result<editor::EditorState, String>, is_new: bool)
        ensures
            match outcome {
                Ok(e) => final(self).stack@ == old(self).stack@.push(Layer::Editor(e)),
                Err(m) => final(self).stack == old(self).stack && final(self).status@ == (if is_new {
                    "cannot start editor: "@
                } else {
                    "cannot edit: "@
                }) + m@,
            },
    {
        match outcome {
            Ok(e) => {
                self.stack.push(Layer::Editor(e));
            },
            Err(m) => {
                let mut v: Vec<char> = Vec::new();
                push_str(&mut v, if is_new { "cannot start editor: " } else { "cannot edit: " });
                push_str(&mut v, m.as_str());
                self.status = string_from_chars(&v);
            },
        }
    }

    /// Records how saving the editor on top went. After a save that was to
    /// start a run, asks to confirm the saved manifest.
    pub fn saved(&mut self, outcome: Result<String, String>, and_start: bool) -> (s: Step)
        ensures
            final(self).cfg == old(self).cfg,
            final(self).libraries == old(self).libraries,
            final(self).live == old(self).live,
            final(self).status == old(self).status,
            match top(old(self).stack@) {
                Some(Layer::Editor(e)) => {
                    &&& final(self).stack@.len() == old(self).stack@.len()
                    &&& final(self).stack@.drop_last() == old(self).stack@.drop_last()
                    &&& final(self).stack@.last() matches Layer::Editor(e2) && editor_saved(e, e2, outcome)
                    &&& if outcome is Ok && and_start {
                        s matches Step::Confirm(confirm::Source::Manifest(i)) && final(self).stack@.last() matches Layer::Editor(
                            e2,
                        ) && editor::input_ok(i, e2)
                    } else {
                        s == Step::Stay
                    }
                },
                _ => final(self).stack@ == old(self).stack@ && s == Step::Stay,
            },
    {
        let n = self.stack.len();
        if n == 0 {
            return Step::Stay;
        }
        let top = self.stack.pop().unwrap();
        match top {
            Layer::Editor(mut e) => {
                let step = match outcome {
                    Ok(path) => {
                        let mut v: Vec<char> = Vec::new();
                        push_str(&mut v, "wrote ");
                        push_str(&mut v, path.as_str());
                        e.status = string_from_chars(&v);
                        e.path = Some(path);
                        if and_start {
                            Step::Confirm(confirm::Source::Manifest(e.build_input()))
                        } else {
                            Step::Stay
                        }
                    },
                    Err(m) => {
                        let mut v: Vec<char> = Vec::new();
                        push_str(&mut v, "save failed: ");
                        push_str(&mut v, m.as_str());
                        e.status = string_from_chars(&v);
                        Step::Stay
                    },
                };
                self.stack.push(Layer::Editor(e));
                step
            },
            other => {
                self.stack.push(other);
                Step::Stay
            },
        }
    }

    /// What to say when the menu is left while a run is live and finishing
    /// it failed.
    pub fn quit_refusal(&self) -> (m: Option<String>)
        ensures
            match self.live {
                None => m is None,
                Some(run) => m matches Some(t) && t@ == "run "@ + run.run_id@ + " still mounted at "@ + run.run_dir@
                    + "; finish failed — recover with lunchbox finish "@ + run.run_id@,
            },
    {
        match &self.live {
            None => None,
            Some(run) => {
                let mut v: Vec<char> = Vec::new();
                push_str(&mut v, "run ");
                push_str(&mut v, run.run_id.as_str());
                push_str(&mut v, " still mounted at ");
                push_str(&mut v, run.run_dir.as_str());
                push_str(&mut v, "; finish failed — recover with lunchbox finish ");
                push_str(&mut v, run.run_id.as_str());
                Some(string_from_chars(&v))
            },
        }
    }

    /// What the menu does with the action of its top screen.
    fn act(&mut self, action: Action) -> (s: Step)
        ensures
            act_post(*old(self), old(self).stack@, *final(self), action, s),
    {
        match action {
            Action::Continue => Step::Stay,
            Action::Quit => Step::Quit,
            Action::Pop => {
                if self.stack.len() > 1 {
                    self.stack.pop();
                    let n = self.stack.len();
                    match &self.stack[n - 1] {
                        Layer::Manifests(_) => Step::RebuildManifests,
                        _ => Step::Stay,
                    }
                } else {
                    Step::Stay
                }
            },
            Action::Open(route) => Step::Open(route),
            Action::ConfirmFlat(names) => Step::Confirm(confirm::Source::Flat(names)),
            Action::Detail(m) => Step::Detail(m),
            Action::Mount { source, task } => self.mount(source, task),
            Action::EditManifest(m) => Step::LoadEditor(m.path),
            Action::NewEditor => Step::NewEditor,
            Action::Finish => self.finish_live(),
            Action::EditorSave => Step::Save { and_start: false },
            Action::EditorSaveAndStart => Step::Save { and_start: true },
        }
    }

    /// What a key does in the menu: a plain `f` finishes the live run
    /// (except on screens that keep `f`); otherwise the top screen handles
    /// the key and the menu acts on what it asks (see `Step`).
    pub fn dispatch(&mut self, key: &KeyPress) -> (s: Step)
        requires
            old(self).stack@.len() > 0 ==> match old(self).stack@.last() {
                Layer::Home(h) => h.cursor < home::ROW_COUNT,
                Layer::Manifests(m) => m.manifests@.len() == 0 || m.cursor < m.manifests@.len(),
                _ => true,
            },
        ensures
            old(self).stack@.len() == 0 && !(key.press && key.is_plain_char('f')) ==> s == Step::Quit,
            key.press && key.is_plain_char('f') && finish_allowed(top(old(self).stack@)) ==> final(self).stack
                == old(self).stack && if old(self).live is None {
                s == Step::Stay && final(self).status@ == "no live run"@
            } else {
                s == Step::Teardown
            },
            !(key.press && key.is_plain_char('f') && finish_allowed(top(old(self).stack@))) && old(self).stack@.len() > 0
                ==> dispatch_post(*old(self), *final(self), *key, s),
            final(self).live == old(self).live,
            final(self).cfg == old(self).cfg,
            final(self).libraries == old(self).libraries,
            old(self).stack@.len() > 0 && old(self).stack@[0] is Home ==> final(self).stack@.len() > 0
                && final(self).stack@[0] is Home,
    {
        if self.wants_finish(key) {
            return self.finish_live();
        }
        let n = self.stack.len();
        if n == 0 {
            return Step::Quit;
        }
        let ghost o = *self;
        let layer = self.stack.pop().unwrap();
        let ghost old_top = layer;
        assert(self.stack@ == o.stack@.drop_last());
        let (layer, action) = match layer {
            Layer::Home(mut h) => {
                let a = home::handle_key(&mut h, key);
                (Layer::Home(h), a)
            },
            Layer::Pantry(mut p) => {
                let a = pantry::handle_key(&mut p, key);
                (Layer::Pantry(p), a)
            },
            Layer::Manifests(mut m) => {
                let a = manifests::handle_key(&mut m, key);
                (Layer::Manifests(m), a)
            },
            Layer::ManifestDetail(d) => {
                let a = manifests::handle_detail_key(key);
                (Layer::ManifestDetail(d), a)
            },
            Layer::Doctor(mut d) => {
                let da = crate::tui::doctor::handle_key(&mut d, key);
                let a = match da {
                    crate::tui::doctor::Action::Continue => Action::Continue,
                    crate::tui::doctor::Action::Quit => Action::Pop,
                };
                proof {
                    assert(screen_key(old_top, Layer::Doctor(d), *key, a));
                }
                (Layer::Doctor(d), a)
            },
            Layer::Policy(mut p) => {
                let r = crate::tui::policy::handle_key(&mut p, key);
                match r {
                    crate::tui::policy::Request::Done(crate::tui::policy::Action::Continue) => {
                        proof {
                            assert(screen_key(old_top, Layer::Policy(p), *key, Action::Continue));
                        }
                        (Layer::Policy(p), Action::Continue)
                    },
                    crate::tui::policy::Request::Done(crate::tui::policy::Action::Quit) => {
                        proof {
                            assert(screen_key(old_top, Layer::Policy(p), *key, Action::Pop));
                        }
                        (Layer::Policy(p), Action::Pop)
                    },
                    request => {
                        let ghost p2 = p;
                        self.stack.push(Layer::Policy(p));
                        proof {
                            assert(self.stack@ == o.stack@.drop_last().push(Layer::Policy(p2)));
                        }
                        return Step::Policy(request);
                    },
                }
            },
            Layer::Confirm(c) => {
                let a = confirm::handle_key(&c, key);
                (Layer::Confirm(c), a)
            },
            Layer::Editor(mut e) => {
                let a = editor::handle_key(&mut e, key);
                (Layer::Editor(e), a)
            },
        };
        proof {
            assert(screen_key(old_top, layer, *key, action));
        }
        let ghost t = layer;
        self.stack.push(layer);
        assert(self.stack@ == o.stack@.drop_last().push(t));
        let s = self.act(action);
        proof {
            assert(act_post(o, o.stack@.drop_last().push(t), *self, action, s));
        }
        s
    }
}

/// What the top screen does with a key: `t` is the screen afterwards and `a`
/// what it asks of the menu (the doctor's quit closes the screen).
pub open spec fn screen_key(o: Layer, t: Layer, key: KeyPress, a: Action) -> bool {
    match o {
        Layer::Home(h) => t matches Layer::Home(h2) && home::home_key_post(h, h2, key, a) && h2.cursor < home::ROW_COUNT,
        Layer::Pantry(p) => t matches Layer::Pantry(p2) && p2.sections == p.sections && (!key.press ==> a == Action::Continue
            && p2 == p) && (key.press ==> pantry::pantry_key_post(p, p2, key, a)),
        Layer::Manifests(m) => t matches Layer::Manifests(m2) && m2.manifests == m.manifests && (m2.manifests@.len() == 0
            || m2.cursor < m2.manifests@.len()) && (!key.press ==> a == Action::Continue && m2 == m) && (key.press
            ==> manifests::manifests_key_post(m, m2, key, a)),
        Layer::ManifestDetail(_) => t == o && if key.press && key.key == Key::Char('q') {
            a == Action::Quit
        } else if key.press && key.key == Key::Esc {
            a == Action::Pop
        } else {
            a == Action::Continue
        },
        Layer::Doctor(d) => t matches Layer::Doctor(d2) && exists|da: crate::tui::doctor::Action|
            crate::tui::doctor::doctor_key_post(d, d2, key, da) && a == if da == crate::tui::doctor::Action::Continue {
                Action::Continue
            } else {
                Action::Pop
            },
        Layer::Policy(p) => t matches Layer::Policy(p2) && exists|r: crate::tui::policy::Request|
            crate::tui::policy::policy_key_post(p, p2, key, r) && (r == crate::tui::policy::Request::Done(
                crate::tui::policy::Action::Continue,
            ) && a == Action::Continue || r == crate::tui::policy::Request::Done(crate::tui::policy::Action::Quit) && a
                == Action::Pop),
        Layer::Confirm(c) => t == o && (!key.press ==> a == Action::Continue) && (key.press && (key.key == Key::Esc
            || key.key == Key::Char('q')) ==> a == Action::Pop) && (key.press && key.key == Key::Enter ==> (a matches Action::Mount {
            source,
            task,
        } && confirm::source_pins_spec(source) == confirm::source_pins_spec(c.source) && task == c.task)) && (key.press
            && key.key != Key::Esc && key.key != Key::Char('q') && key.key != Key::Enter ==> a == Action::Continue),
        Layer::Editor(e) => t matches Layer::Editor(e2) && (!key.press ==> a == Action::Continue && e2 == e) && (key.press
            && e.input_mode is Some ==> editor::input_post(e, e2, e.input_mode->Some_0, key, a)) && (key.press
            && e.input_mode is None ==> editor::editor_key_post(e, e2, key, a)),
    }
}

/// What the menu does with its top screen's action, `st` being the stack
/// with the top screen as the key left it: the screen stack, the live run
/// and the status afterwards, and the step asked of the driver.
pub open spec fn act_post(o: MenuState, st: Seq<Layer>, f: MenuState, action: Action, s: Step) -> bool {
    &&& f.cfg == o.cfg
    &&& f.libraries == o.libraries
    &&& f.live == o.live
    &&& match action {
        Action::Pop => if st.len() > 1 {
            &&& f.stack@ == st.drop_last()
            &&& s == if f.stack@.last() is Manifests {
                Step::RebuildManifests
            } else {
                Step::Stay
            }
            &&& f.status == o.status
        } else {
            f.stack@ == st && s == Step::Stay && f.status == o.status
        },
        Action::Mount { source, task } => f.stack@ == st && (o.live is Some ==> s == Step::Stay && f.status@
            == "a run is already mounted; press f to finish it"@) && (o.live is None ==> (s matches Step::Mount {
            workers,
            use_packs,
            task: t,
        } && t == task && match source {
            confirm::Source::Flat(names) => !use_packs && workers@.len() == 1 && workers@[0].name@ == "default"@
                && workers@[0].pack == names,
            confirm::Source::Manifest(input) => use_packs && workers == input.workers,
        })),
        Action::Finish => f.stack@ == st && (o.live is None ==> s == Step::Stay && f.status@ == "no live run"@) && (
        o.live is Some ==> s == Step::Teardown && f.status == o.status),
        _ => f.stack@ == st && f.status == o.status && s == match action {
            Action::Continue => Step::Stay,
            Action::Quit => Step::Quit,
            Action::Open(route) => Step::Open(route),
            Action::ConfirmFlat(names) => Step::Confirm(confirm::Source::Flat(names)),
            Action::Detail(m) => Step::Detail(m),
            Action::EditManifest(m) => Step::LoadEditor(m.path),
            Action::NewEditor => Step::NewEditor,
            Action::EditorSave => Step::Save { and_start: false },
            _ => Step::Save { and_start: true },
        },
    }
}

/// What a key other than a finishing `f` does to a menu with a screen: the
/// top screen handles it and the menu acts on what it asks; a policy
/// request other than continue or quit goes to the driver as it is.
pub open spec fn dispatch_post(o: MenuState, f: MenuState, key: KeyPress, s: Step) -> bool {
    let rest = o.stack@.drop_last();
    ||| exists|t: Layer, a: Action| screen_key(o.stack@.last(), t, key, a) && act_post(o, rest.push(t), f, a, s)
    ||| o.stack@.last() matches Layer::Policy(p) && exists|p2: crate::tui::policy::PolicyState, r: crate::tui::policy::Request|
        {
            &&& crate::tui::policy::policy_key_post(p, p2, key, r)
            &&& r != crate::tui::policy::Request::Done(crate::tui::policy::Action::Continue)
            &&& r != crate::tui::policy::Request::Done(crate::tui::policy::Action::Quit)
            &&& f.stack@ == rest.push(Layer::Policy(p2))
            &&& s == Step::Policy(r)
            &&& f.cfg == o.cfg && f.libraries == o.libraries && f.live == o.live && f.status == o.status
        }
}

/// The title of a screen.
pub open spec fn layer_title(layer: Layer) -> Seq<char> {
    match layer {
        Layer::Home(_) => "lunchbox menu"@,
        Layer::Pantry(_) => "Pantry"@,
        Layer::Manifests(_) => "Manifests"@,
        Layer::ManifestDetail(d) => "manifest "@ + d.manifest.name@,
        Layer::Doctor(_) => "Doctor"@,
        Layer::Policy(_) => "Policy"@,
        Layer::Confirm(_) => "Start run?"@,
        Layer::Editor(e) => match e.input_mode {
            Some(f) => "Editor — "@ + f.label_spec(),
            None => "Editor"@,
        },
    }
}

/// The title of a screen (see `layer_title`).
pub fn title(layer: &Layer) -> (t: String)
    ensures
        t@ == layer_title(*layer),
{
    match layer {
        Layer::Home(_) => to_string("lunchbox menu"),
        Layer::Pantry(_) => to_string("Pantry"),
        Layer::Manifests(_) => to_string("Manifests"),
        Layer::ManifestDetail(d) => {
            let mut v: Vec<char> = Vec::new();
            push_str(&mut v, "manifest ");
            push_str(&mut v, d.manifest.name.as_str());
            string_from_chars(&v)
        },
        Layer::Doctor(_) => to_string("Doctor"),
        Layer::Policy(_) => to_string("Policy"),
        Layer::Confirm(_) => to_string("Start run?"),
        Layer::Editor(e) => match e.input_mode {
            Some(f) => {
                let mut v: Vec<char> = Vec::new();
                push_str(&mut v, "Editor — ");
                push_str(&mut v, f.label());
                string_from_chars(&v)
            },
            None => to_string("Editor"),
        },
    }
}

/// The status line: the live run (or that there is none), then what the top
/// screen has to say: the policy input or status, the editor's prompt, or the
/// menu's status.
pub open spec fn status_spec(m: MenuState) -> Seq<(Seq<char>, Tone)> {
    seq![
        match m.live {
            Some(run) => ("▶ "@ + run.run_id@ + " mounted"@, Tone::Good),
            None => ("no live run"@, Tone::Dim),
        },
        ("  ·  "@, Tone::Plain),
        (
            match top(m.stack@) {
                Some(Layer::Policy(p)) => if p.input_mode {
                    "add entry: "@ + p.input@
                } else {
                    p.status@
                },
                Some(Layer::Editor(e)) => e.prompt_spec(),
                _ => m.status@,
            },
            Tone::Plain,
        ),
    ]
}

/// The keys of the top screen.
pub open spec fn footer_spec(layer: Option<Layer>) -> Seq<char> {
    match layer {
        Some(Layer::Home(_)) => "↑/↓ move · Enter open · Esc back · q quit"@,
        Some(Layer::Pantry(_)) => "←/→ section · ↑/↓ move · Space toggle · s start · f finish · Esc back · q quit"@,
        Some(Layer::Manifests(_)) => "↑/↓ move · Enter details · n new · e edit · Esc back · f finish · q quit"@,
        Some(Layer::ManifestDetail(_)) => "Esc back · f finish · q quit"@,
        Some(Layer::Doctor(_)) => "↑/↓ scroll · Esc back"@,
        Some(Layer::Policy(_)) => "Tab layer · ←/→ list · a add · d delete · Esc back"@,
        Some(Layer::Confirm(_)) => "Enter mount · Esc cancel · f finish"@,
        Some(Layer::Editor(_)) => "Tab pane · Space select · a add tool · t task · b budget · s save · Esc back · q quit"@,
        None => ""@,
    }
}

impl MenuState {
    /// The status line (see `status_spec`).
    pub fn status_line(&self) -> (l: Vec<Seg>)
        ensures
            line_view(l@) == status_spec(*self),
    {
        let live = match &self.live {
            Some(run) => {
                let mut v: Vec<char> = Vec::new();
                push_str(&mut v, "▶ ");
                push_str(&mut v, run.run_id.as_str());
                push_str(&mut v, " mounted");
                (string_from_chars(&v), Tone::Good)
            },
            None => (to_string("no live run"), Tone::Dim),
        };
        let n = self.stack.len();
        let text = if n > 0 {
            match &self.stack[n - 1] {
                Layer::Policy(p) => {
                    if p.input_mode {
                        let mut v: Vec<char> = Vec::new();
                        push_str(&mut v, "add entry: ");
                        push_str(&mut v, p.input.as_str());
                        string_from_chars(&v)
                    } else {
                        to_string(p.status.as_str())
                    }
                },
                Layer::Editor(e) => e.prompt(),
                _ => to_string(self.status.as_str()),
            }
        } else {
            to_string(self.status.as_str())
        };
        three(live.0, live.1, to_string("  ·  "), Tone::Plain, text, Tone::Plain)
    }

    /// The keys of the top screen (see `footer_spec`).
    pub fn footer_text(&self) -> (t: &'static str)
        ensures
            t@ == footer_spec(top(self.stack@)),
    {
        let n = self.stack.len();
        if n == 0 {
            return "";
        }
        match &self.stack[n - 1] {
            Layer::Home(_) => "↑/↓ move · Enter open · Esc back · q quit",
            Layer::Pantry(_) => "←/→ section · ↑/↓ move · Space toggle · s start · f finish · Esc back · q quit",
            Layer::Manifests(_) => "↑/↓ move · Enter details · n new · e edit · Esc back · f finish · q quit",
            Layer::ManifestDetail(_) => "Esc back · f finish · q quit",
            Layer::Doctor(_) => "↑/↓ scroll · Esc back",
            Layer::Policy(_) => "Tab layer · ←/→ list · a add · d delete · Esc back",
            Layer::Confirm(_) => "Enter mount · Esc cancel · f finish",
            Layer::Editor(_) => "Tab pane · Space select · a add tool · t task · b budget · s save · Esc back · q quit",
        }
    }
}

} // verus!
