//! The picker screen: compose a pack from the library, start a run with it,
//! and finish the run, all from the screen.
use crate::config::Config;
use crate::library::ListedSkill;
use crate::run::{PreparedRun, Worker};
use crate::text::{push_str, string_from_chars, to_string, views};
use crate::text::{decimal, push_decimal};
use crate::tui::view::{lines_view, marker, marker_str, one, pad, push_line, push_padded, Seg, Tone};
use crate::tui::{moved_cursor, step_cursor, Key, KeyPress};
use vstd::prelude::*;

verus! {

/// What the driver does after a key.
#[derive(Debug, Clone, Copy, PartialEq, Eq, Structural)]
pub enum Action {
    Continue,
    Quit,
    StartRun,
    FinishRun,
}

/// What a key asks of the driver: nothing but an action, to start a run
/// with one worker holding the selected pack, or to finish the live run
/// (and quit afterwards when `quit` is set).
#[derive(Debug, Clone, PartialEq)]
pub enum Request {
    Done(Action),
    Start(Vec<Worker>),
    Finish { quit: bool },
}

/// The picker screen.
#[derive(Debug, Clone, PartialEq)]
pub struct PickerState {
    pub cfg: Config,
    pub libraries: Vec<String>,
    pub library: Vec<ListedSkill>,
    pub selected: Vec<bool>,
    pub cursor: usize,
    pub run: Option<PreparedRun>,
    pub status: String,
}

/// The names of the selected skills, in listing order.
pub open spec fn selected_names(library: Seq<ListedSkill>, selected: Seq<bool>) -> Seq<Seq<char>>
    decreases library.len(),
{
    if library.len() == 0 {
        Seq::empty()
    } else {
        selected_names(library.drop_last(), selected) + if library.len() - 1 < selected.len()
            && selected[library.len() - 1] {
            seq![library.last().name@]
        } else {
            Seq::empty()
        }
    }
}

impl PickerState {
    /// One flag per listed skill.
    pub open spec fn wf(&self) -> bool {
        self.selected@.len() == self.library@.len()
    }

    /// A screen over `library` with nothing selected and no run.
    pub fn new(cfg: Config, libraries: Vec<String>, library: Vec<ListedSkill>) -> (s: Self)
        ensures
            s.wf(),
            s.cfg == cfg,
            s.libraries == libraries,
            s.library == library,
            s.selected@ == Seq::new(library@.len(), |i: int| false),
            s.cursor == 0,
            s.run is None,
            s.status@ == "compose a pack, then press s"@,
    {
        let mut selected: Vec<bool> = Vec::new();
        let mut i: usize = 0;
        while i < library.len()
            invariant
                0 <= i <= library@.len(),
                selected@ == Seq::new(i as nat, |k: int| false),
            decreases library@.len() - i,
        {
            selected.push(false);
            assert(selected@ =~= Seq::new((i + 1) as nat, |k: int| false));
            i = i + 1;
        }
        PickerState {
            cfg,
            libraries,
            library,
            selected,
            cursor: 0,
            run: None,
            status: to_string("compose a pack, then press s"),
        }
    }

    /// The names of the selected skills.
    pub fn selected_names(&self) -> (names: Vec<String>)
        ensures
            views(names@) == selected_names(self.library@, self.selected@),
    {
        let mut names: Vec<String> = Vec::new();
        let mut i: usize = 0;
        while i < self.library.len()
            invariant
                0 <= i <= self.library@.len(),
                views(names@) == selected_names(self.library@.take(i as int), self.selected@),
            decreases self.library@.len() - i,
        {
            assert(self.library@.take(i + 1).drop_last() =~= self.library@.take(i as int));
            let ghost before = views(names@);
            if i < self.selected.len() && self.selected[i] {
                names.push(self.library[i].name.clone());
                assert(views(names@) =~= before + seq![self.library@[i as int].name@]);
            } else {
                assert(views(names@) =~= before + Seq::<Seq<char>>::empty());
            }
            i = i + 1;
        }
        assert(self.library@.take(i as int) =~= self.library@);
        names
    }

    /// Starts a run with the selected pack: refused while a run is mounted or
    /// when nothing is selected.
    pub fn start_run(&mut self) -> (r: Request)
        requires
            old(self).wf(),
        ensures
            final(self).wf(),
            final(self).library == old(self).library,
            final(self).selected == old(self).selected,
            final(self).cursor == old(self).cursor,
            final(self).run == old(self).run,
            old(self).run is Some ==> r == Request::Done(Action::Continue)
                && final(self).status@ == "a run is already mounted; press f to finish it"@,
            old(self).run is None && selected_names(old(self).library@, old(self).selected@).len() == 0
                ==> r == Request::Done(Action::Continue) && final(self).status@ == "select at least one skill first"@,
            old(self).run is None && selected_names(old(self).library@, old(self).selected@).len() > 0 ==> {
                &&& r matches Request::Start(workers)
                &&& workers@.len() == 1
                &&& workers@[0].name@ == "default"@
                &&& views(workers@[0].pack@) == selected_names(old(self).library@, old(self).selected@)
                &&& workers@[0].description is None
                &&& workers@[0].tools is None
                &&& final(self).status == old(self).status
            },
    {
        if self.run.is_some() {
            self.status = to_string("a run is already mounted; press f to finish it");
            return Request::Done(Action::Continue);
        }
        let names = self.selected_names();
        if names.len() == 0 {
            self.status = to_string("select at least one skill first");
            return Request::Done(Action::Continue);
        }
        let mut workers: Vec<Worker> = Vec::new();
        workers.push(Worker::default_pack(names));
        Request::Start(workers)
    }

    /// Records how starting the run went: a mounted run becomes the live run.
    pub fn started(&mut self, outcome: Result<PreparedRun, String>) -> (a: Action)
        ensures
            final(self).library == old(self).library,
            final(self).selected == old(self).selected,
            final(self).cursor == old(self).cursor,
            match outcome {
                Ok(run) => a == Action::StartRun && final(self).run == Some(run) && final(self).status@ == "run "@
                    + run.run_id@ + " mounted ("@ + run.mount_mode.name_spec() + ")"@,
                Err(e) => a == Action::Continue && final(self).run == old(self).run && final(self).status@
                    == "start failed: "@ + e@,
            },
    {
        match outcome {
            Ok(run) => {
                let mut m: Vec<char> = Vec::new();
                push_str(&mut m, "run ");
                push_str(&mut m, run.run_id.as_str());
                push_str(&mut m, " mounted (");
                push_str(&mut m, run.mount_mode.as_str());
                push_str(&mut m, ")");
                self.status = string_from_chars(&m);
                self.run = Some(run);
                Action::StartRun
            },
            Err(e) => {
                let mut m: Vec<char> = Vec::new();
                push_str(&mut m, "start failed: ");
                push_str(&mut m, e.as_str());
                self.status = string_from_chars(&m);
                Action::Continue
            },
        }
    }

    /// Finishes the live run: refused when there is none.
    pub fn finish_run(&mut self, quit: bool) -> (r: Request)
        ensures
            final(self).library == old(self).library,
            final(self).selected == old(self).selected,
            final(self).cursor == old(self).cursor,
            final(self).run == old(self).run,
            old(self).run is None ==> r == Request::Done(Action::Continue) && final(self).status@ == "no live run"@,
            old(self).run is Some ==> r == (Request::Finish { quit }) && final(self).status == old(self).status,
    {
        if self.run.is_none() {
            self.status = to_string("no live run");
            return Request::Done(Action::Continue);
        }
        Request::Finish { quit }
    }

    /// Records how tearing the live run down went: on success the run is
    /// gone; on failure it stays live.
    pub fn finished(&mut self, outcome: Result<(), String>) -> (a: Action)
        ensures
            final(self).library == old(self).library,
            final(self).selected == old(self).selected,
            final(self).cursor == old(self).cursor,
            match outcome {
                Ok(()) => a == Action::FinishRun && final(self).run is None && final(self).status@
                    == "unmounted — result.json written"@,
                Err(e) => a == Action::Continue && final(self).run == old(self).run && final(self).status@
                    == "finish failed: "@ + e@,
            },
    {
        match outcome {
            Ok(()) => {
                self.run = None;
                self.status = to_string("unmounted — result.json written");
                Action::FinishRun
            },
            Err(e) => {
                let mut m: Vec<char> = Vec::new();
                push_str(&mut m, "finish failed: ");
                push_str(&mut m, e.as_str());
                self.status = string_from_chars(&m);
                Action::Continue
            },
        }
    }
}

/// What a key does to the picker: `q`/Escape quit (finishing a live run
/// first); up/down (or `k`/`j`) move; Space toggles; `s` starts a run with
/// the selection; `f` finishes the live run.
pub fn handle_key(state: &mut PickerState, key: &KeyPress) -> (r: Request)
    requires
        old(state).wf(),
    ensures
        final(state).wf(),
        final(state).library == old(state).library,
        final(state).run == old(state).run,
        !key.press ==> r == Request::Done(Action::Continue) && *final(state) == *old(state),
        key.press && key.is_quit() ==> if old(state).run is Some {
            r == (Request::Finish { quit: true })
        } else {
            r == Request::Done(Action::Quit)
        },
        key.press && !key.is_quit() && key.is_up() ==> r == Request::Done(Action::Continue) && final(state).cursor
            == moved_cursor(old(state).cursor as int, -1, old(state).library@.len() as int),
        key.press && !key.is_quit() && !key.is_up() && key.is_down() ==> r == Request::Done(Action::Continue)
            && final(state).cursor == moved_cursor(old(state).cursor as int, 1, old(state).library@.len() as int),
        key.press && !key.is_quit() && !key.is_up() && !key.is_down() && key.key == Key::Char(' ') ==> {
            &&& r == Request::Done(Action::Continue)
            &&& old(state).cursor < old(state).selected@.len() ==> final(state).selected@ == old(state).selected@.update(
                old(state).cursor as int, !old(state).selected@[old(state).cursor as int])
        },
{
    if !key.press {
        return Request::Done(Action::Continue);
    }
    if key.quit() {
        if state.run.is_some() {
            return Request::Finish { quit: true };
        }
        return Request::Done(Action::Quit);
    }
    if key.up() {
        state.cursor = step_cursor(state.cursor, false, state.library.len());
        return Request::Done(Action::Continue);
    }
    if key.down() {
        state.cursor = step_cursor(state.cursor, true, state.library.len());
        return Request::Done(Action::Continue);
    }
    if key.key == Key::Char(' ') {
        if state.cursor < state.selected.len() {
            let flag = state.selected[state.cursor];
            let c = state.cursor;
            state.selected.set(c, !flag);
        }
        return Request::Done(Action::Continue);
    }
    if key.plain_char('s') {
        return state.start_run();
    }
    if key.plain_char('f') {
        return state.finish_run(false);
    }
    Request::Done(Action::Continue)
}

/// A listed skill's line: cursor, whether it is selected, name and tokens.
pub open spec fn library_line(s: PickerState, k: int) -> Seq<(Seq<char>, Tone)> {
    seq![
        (
            marker(k == s.cursor) + (if s.selected@[k] { "[x]"@ } else { "[ ]"@ }) + " "@ + pad(s.library@[k].name@, 16)
                + " "@ + decimal(s.library@[k].tokens as nat),
            Tone::Plain,
        ),
    ]
}

/// The picker screen: the live run's pins, or the library with the selection.
pub open spec fn picker_screen(s: PickerState) -> Seq<Seq<(Seq<char>, Tone)>> {
    match s.run {
        Some(run) => Seq::new(
            run.locked@.len(),
            |k: int| seq![(run.locked@[k].name@ + "@"@ + run.locked@[k].hash@, Tone::Plain)],
        ),
        None => Seq::new(s.library@.len(), |k: int| library_line(s, k)) + if s.library@.len() == 0 {
            seq![seq![("no skills found in library roots"@, Tone::Plain)]]
        } else {
            Seq::empty()
        },
    }
}

/// The picker screen (see `picker_screen`).
pub fn render(state: &PickerState) -> (lines: Vec<Vec<Seg>>)
    requires
        state.wf(),
    ensures
        lines_view(lines@) == picker_screen(*state),
{
    let mut lines: Vec<Vec<Seg>> = Vec::new();
    match &state.run {
        Some(run) => {
            let ghost rows = Seq::new(
                run.locked@.len(),
                |k: int| seq![(run.locked@[k].name@ + "@"@ + run.locked@[k].hash@, Tone::Plain)],
            );
            let mut i: usize = 0;
            while i < run.locked.len()
                invariant
                    0 <= i <= run.locked@.len(),
                    rows == Seq::new(
                        run.locked@.len(),
                        |k: int| seq![(run.locked@[k].name@ + "@"@ + run.locked@[k].hash@, Tone::Plain)],
                    ),
                    lines_view(lines@) == rows.take(i as int),
                decreases run.locked@.len() - i,
            {
                let mut v: Vec<char> = Vec::new();
                push_str(&mut v, run.locked[i].name.as_str());
                push_str(&mut v, "@");
                push_str(&mut v, run.locked[i].hash.as_str());
                push_line(&mut lines, one(string_from_chars(&v), Tone::Plain));
                assert(rows.take(i + 1) =~= rows.take(i as int).push(rows[i as int]));
                i = i + 1;
            }
            assert(rows.take(i as int) =~= rows);
        },
        None => {
            let mut i: usize = 0;
            while i < state.library.len()
                invariant
                    0 <= i <= state.library@.len(),
                    state.wf(),
                    lines_view(lines@) == Seq::new(i as nat, |k: int| library_line(*state, k)),
                decreases state.library@.len() - i,
            {
                let mut v: Vec<char> = Vec::new();
                push_str(&mut v, marker_str(i == state.cursor));
                if state.selected[i] {
                    push_str(&mut v, "[x]");
                } else {
                    push_str(&mut v, "[ ]");
                }
                push_str(&mut v, " ");
                push_padded(&mut v, state.library[i].name.as_str(), 16);
                push_str(&mut v, " ");
                push_decimal(&mut v, state.library[i].tokens as u128);
                assert(v@ =~= library_line(*state, i as int)[0].0);
                push_line(&mut lines, one(string_from_chars(&v), Tone::Plain));
                assert(Seq::new((i + 1) as nat, |k: int| library_line(*state, k)) =~= Seq::new(
                    i as nat,
                    |k: int| library_line(*state, k),
                ).push(library_line(*state, i as int)));
                i = i + 1;
            }
            if state.library.len() == 0 {
                push_line(&mut lines, one(to_string("no skills found in library roots"), Tone::Plain));
            }
        },
    }
    assert(lines_view(lines@) =~= picker_screen(*state));
    lines
}

} // verus!
