//! The policy screen: the allow and deny lists of the global and project
//! configuration layers, with entries added and removed in place.
use crate::config::{LayerReport, List};
use crate::text::{chars_of, push_str, string_from_chars, to_string, trim_chars, trim_spec};
use crate::tui::view::{lines_view, marker, marker_str, one, push_line, Seg, Tone};
use crate::tui::{Key, KeyPress};
use vstd::prelude::*;

verus! {

/// What the driver does after a key.
#[derive(Debug, Clone, Copy, PartialEq, Eq, Structural)]
pub enum Action {
    Continue,
    Quit,
}

/// Which configuration layer the screen edits.
#[derive(Debug, Clone, Copy, PartialEq, Eq, Structural)]
pub enum WhichLayer {
    Global,
    Project,
}

impl WhichLayer {
    pub open spec fn name_spec(self) -> Seq<char> {
        match self {
            WhichLayer::Global => "global"@,
            WhichLayer::Project => "project"@,
        }
    }

    pub fn as_str(self) -> (s: &'static str)
        ensures
            s@ == self.name_spec(),
    {
        match self {
            WhichLayer::Global => "global",
            WhichLayer::Project => "project",
        }
    }
}

/// What a key asks of the driver: nothing but an action, to remove an entry
/// from a list of a layer file, or to append one.
#[derive(Debug, Clone, PartialEq)]
pub enum Request {
    Done(Action),
    Remove { path: String, list: List, entry: String },
    Append { path: String, list: List, entry: String },
}

/// The policy screen.
#[derive(Debug, Clone, PartialEq)]
pub struct PolicyState {
    pub global: LayerReport,
    pub project: LayerReport,
    pub layer: WhichLayer,
    pub list: List,
    pub cursor: usize,
    pub input: String,
    pub input_mode: bool,
    pub status: String,
}

/// The entries of one list of a layer.
pub open spec fn list_entries(report: LayerReport, list: List) -> Seq<String> {
    match list {
        List::Allow => report.allow@,
        List::Deny => report.deny@,
    }
}

/// The cursor kept on the list: at most its last entry (0 for an empty list).
pub open spec fn clamped(cursor: nat, len: nat) -> nat {
    if len == 0 {
        0
    } else if cursor > len - 1 {
        (len - 1) as nat
    } else {
        cursor
    }
}

impl PolicyState {
    /// The report of the layer being edited.
    pub open spec fn active(&self) -> LayerReport {
        match self.layer {
            WhichLayer::Global => self.global,
            WhichLayer::Project => self.project,
        }
    }

    /// The entries of the list being edited.
    pub open spec fn entries(&self) -> Seq<String> {
        list_entries(self.active(), self.list)
    }

    /// The screen on the project's deny list.
    pub fn from_reports(global: LayerReport, project: LayerReport) -> (s: Self)
        ensures
            s.global == global,
            s.project == project,
            s.layer == WhichLayer::Project,
            s.list == List::Deny,
            s.cursor == 0,
            s.input@ == Seq::<char>::empty(),
            !s.input_mode,
            s.status@ == "add entries with a"@,
    {
        PolicyState {
            global,
            project,
            layer: WhichLayer::Project,
            list: List::Deny,
            cursor: 0,
            input: String::new(),
            input_mode: false,
            status: to_string("add entries with a"),
        }
    }

    fn active_path(&self) -> (p: String)
        ensures
            p == self.active().path,
    {
        match self.layer {
            WhichLayer::Global => self.global.path.clone(),
            WhichLayer::Project => self.project.path.clone(),
        }
    }

    fn entries_len(&self) -> (n: usize)
        ensures
            n == self.entries().len(),
    {
        match (self.layer, self.list) {
            (WhichLayer::Global, List::Allow) => self.global.allow.len(),
            (WhichLayer::Global, List::Deny) => self.global.deny.len(),
            (WhichLayer::Project, List::Allow) => self.project.allow.len(),
            (WhichLayer::Project, List::Deny) => self.project.deny.len(),
        }
    }

    fn entry_at(&self, i: usize) -> (e: String)
        requires
            i < self.entries().len(),
        ensures
            e == self.entries()[i as int],
    {
        match (self.layer, self.list) {
            (WhichLayer::Global, List::Allow) => self.global.allow[i].clone(),
            (WhichLayer::Global, List::Deny) => self.global.deny[i].clone(),
            (WhichLayer::Project, List::Allow) => self.project.allow[i].clone(),
            (WhichLayer::Project, List::Deny) => self.project.deny[i].clone(),
        }
    }

    /// Keeps the cursor on the list being edited.
    pub fn clamp_cursor(&mut self)
        ensures
            final(self).cursor == clamped(old(self).cursor as nat, old(self).entries().len()),
            final(self).global == old(self).global,
            final(self).project == old(self).project,
            final(self).layer == old(self).layer,
            final(self).list == old(self).list,
            final(self).input == old(self).input,
            final(self).input_mode == old(self).input_mode,
            final(self).status == old(self).status,
    {
        let len = self.entries_len();
        if len == 0 {
            self.cursor = 0;
        } else if self.cursor > len - 1 {
            self.cursor = len - 1;
        }
    }

    /// Asks to remove the entry under the cursor (there may be none).
    pub fn delete_entry(&mut self) -> (r: Request)
        ensures
            final(self).global == old(self).global,
            final(self).project == old(self).project,
            final(self).cursor == old(self).cursor,
            old(self).cursor < old(self).entries().len() ==> r == (Request::Remove {
                path: old(self).active().path,
                list: old(self).list,
                entry: old(self).entries()[old(self).cursor as int],
            }) && final(self).status == old(self).status,
            old(self).cursor >= old(self).entries().len() ==> r == Request::Done(Action::Continue)
                && final(self).status@ == "nothing to remove"@,
    {
        if self.cursor >= self.entries_len() {
            self.status = to_string("nothing to remove");
            return Request::Done(Action::Continue);
        }
        let entry = self.entry_at(self.cursor);
        Request::Remove { path: self.active_path(), list: self.list, entry }
    }

    /// Records how removing `entry` went, with the layer read back when it could be.
    pub fn removed(&mut self, entry: &str, outcome: Result<Option<LayerReport>, String>)
        ensures
            final(self).layer == old(self).layer,
            final(self).list == old(self).list,
            match outcome {
                Ok(reload) => {
                    &&& final(self).status@ == "removed "@ + entry@ + " from "@ + old(self).layer.name_spec() + " "@
                        + old(self).list.name_spec()
                    &&& match reload {
                        Some(report) => final(self).active() == report && final(self).cursor == clamped(
                            old(self).cursor as nat,
                            list_entries(report, old(self).list).len(),
                        ),
                        None => final(self).global == old(self).global && final(self).project == old(self).project
                            && final(self).cursor == old(self).cursor,
                    }
                },
                Err(e) => final(self).status@ == "remove failed: "@ + e@ && final(self).global == old(self).global
                    && final(self).project == old(self).project && final(self).cursor == old(self).cursor,
            },
    {
        match outcome {
            Ok(reload) => {
                let mut m: Vec<char> = Vec::new();
                push_str(&mut m, "removed ");
                push_str(&mut m, entry);
                push_str(&mut m, " from ");
                push_str(&mut m, self.layer.as_str());
                push_str(&mut m, " ");
                push_str(&mut m, self.list.as_str());
                self.status = string_from_chars(&m);
                match reload {
                    Some(report) => {
                        match self.layer {
                            WhichLayer::Global => {
                                self.global = report;
                            },
                            WhichLayer::Project => {
                                self.project = report;
                            },
                        }
                        self.clamp_cursor();
                    },
                    None => {},
                }
            },
            Err(e) => {
                let mut m: Vec<char> = Vec::new();
                push_str(&mut m, "remove failed: ");
                push_str(&mut m, e.as_str());
                self.status = string_from_chars(&m);
            },
        }
    }

    /// Asks to append the typed entry (trimmed) to the list being edited.
    pub fn write_entry(&mut self) -> (r: Request)
        ensures
            final(self).global == old(self).global,
            final(self).project == old(self).project,
            final(self).input == old(self).input,
            final(self).input_mode == old(self).input_mode,
            trim_spec(old(self).input@).len() == 0 ==> r == Request::Done(Action::Continue)
                && final(self).status@ == "nothing to add"@,
            trim_spec(old(self).input@).len() > 0 ==> (r matches Request::Append { path, list, entry } && path
                == old(self).active().path && list == old(self).list && entry@ == trim_spec(old(self).input@)),
    {
        let t = trim_chars(&chars_of(self.input.as_str()));
        if t.len() == 0 {
            self.status = to_string("nothing to add");
            return Request::Done(Action::Continue);
        }
        Request::Append { path: self.active_path(), list: self.list, entry: string_from_chars(&t) }
    }

    /// Records how appending went: `Err` when the write failed, else the
    /// layer read back (or why it could not be).
    pub fn appended(&mut self, path: &str, outcome: Result<Result<LayerReport, String>, String>)
        ensures
            final(self).layer == old(self).layer,
            final(self).list == old(self).list,
            match outcome {
                Ok(reload) => {
                    &&& final(self).input@ == Seq::<char>::empty()
                    &&& !final(self).input_mode
                    &&& match reload {
                        Ok(report) => final(self).status@ == "wrote "@ + path@ && final(self).active() == report
                            && final(self).cursor == clamped(old(self).cursor as nat, list_entries(report, old(self).list).len()),
                        Err(e) => final(self).status@ == "reload failed: "@ + e@ && final(self).global == old(self).global
                            && final(self).project == old(self).project,
                    }
                },
                Err(e) => final(self).status@ == "write failed: "@ + e@ && final(self).input == old(self).input
                    && final(self).input_mode == old(self).input_mode && final(self).global == old(self).global
                    && final(self).project == old(self).project,
            },
    {
        match outcome {
            Ok(reload) => {
                self.input = String::new();
                self.input_mode = false;
                match reload {
                    Ok(report) => {
                        let mut m: Vec<char> = Vec::new();
                        push_str(&mut m, "wrote ");
                        push_str(&mut m, path);
                        self.status = string_from_chars(&m);
                        match self.layer {
                            WhichLayer::Global => {
                                self.global = report;
                            },
                            WhichLayer::Project => {
                                self.project = report;
                            },
                        }
                        self.clamp_cursor();
                    },
                    Err(e) => {
                        let mut m: Vec<char> = Vec::new();
                        push_str(&mut m, "reload failed: ");
                        push_str(&mut m, e.as_str());
                        self.status = string_from_chars(&m);
                    },
                }
            },
            Err(e) => {
                let mut m: Vec<char> = Vec::new();
                push_str(&mut m, "write failed: ");
                push_str(&mut m, e.as_str());
                self.status = string_from_chars(&m);
            },
        }
    }
}

/// `s` with `c` appended.
fn push_char(s: &String, c: char) -> (r: String)
    ensures
        r@ == s@.push(c),
{
    let mut v = chars_of(s.as_str());
    v.push(c);
    string_from_chars(&v)
}

/// `s` without its last character (unchanged when empty).
fn pop_char(s: &String) -> (r: String)
    ensures
        r@ == if s@.len() > 0 {
            s@.drop_last()
        } else {
            s@
        },
{
    let mut v = chars_of(s.as_str());
    if v.len() > 0 {
        v.pop();
    }
    string_from_chars(&v)
}

/// The other layer.
pub open spec fn other_layer(l: WhichLayer) -> WhichLayer {
    match l {
        WhichLayer::Global => WhichLayer::Project,
        WhichLayer::Project => WhichLayer::Global,
    }
}

/// What `handle_key` does (its contract).
pub open spec fn policy_key_post(o: PolicyState, f: PolicyState, key: KeyPress, r: Request) -> bool {
    &&& (!key.press ==> r == Request::Done(Action::Continue) && f == o)
    &&& (key.press && o.input_mode && key.key == Key::Esc ==> r == Request::Done(Action::Continue) && !f.input_mode && f.input@ == Seq::<char>::empty())
    &&& (key.press && o.input_mode && (key.key matches Key::Char(c)) ==> r == Request::Done(Action::Continue) && f.input@ == o.input@.push(key.key->Char_0))
    &&& (key.press && o.input_mode && key.key == Key::Backspace ==> r == Request::Done(Action::Continue) && f.input@ == if o.input@.len() > 0 { o.input@.drop_last() } else { o.input@ })
    &&& (key.press && !o.input_mode && key.is_quit() ==> r == Request::Done(Action::Quit))
    &&& (key.press && !o.input_mode && !key.is_quit() && (key.key == Key::Tab || key.key == Key::BackTab) ==> f.layer == other_layer(o.layer) && f.list == o.list)
    &&& (key.press && !o.input_mode && !key.is_quit() && key.is_up() ==> f.cursor == if o.cursor > 0 { o.cursor - 1 } else { 0 })
    &&& (key.press && !o.input_mode && !key.is_quit() && !key.is_up() && key.is_down() ==> f.cursor == clamped(o.cursor as nat + 1, o.entries().len()))
}

/// What a key does to the policy screen. While typing an entry: Escape
/// drops it, Enter writes it, Backspace deletes a character, and other
/// characters are typed. Otherwise: `q`/Escape quit; Tab and Shift-Tab switch
/// layers; left/`h` and right/`l` pick the allow and deny list; up/`k` and
/// down/`j` move; `a` starts typing an entry; `d` removes the one under the cursor.
pub fn handle_key(state: &mut PolicyState, key: &KeyPress) -> (r: Request)
    ensures
        policy_key_post(*old(state), *final(state), *key, r),
{
    if !key.press {
        return Request::Done(Action::Continue);
    }
    if state.input_mode {
        match key.key {
            Key::Esc => {
                state.input_mode = false;
                state.input = String::new();
            },
            Key::Enter => {
                return state.write_entry();
            },
            Key::Backspace => {
                state.input = pop_char(&state.input);
            },
            Key::Char(c) => {
                state.input = push_char(&state.input, c);
            },
            _ => {},
        }
        return Request::Done(Action::Continue);
    }
    if key.quit() {
        return Request::Done(Action::Quit);
    }
    match key.key {
        Key::Tab | Key::BackTab => {
            state.layer = match state.layer {
                WhichLayer::Global => WhichLayer::Project,
                WhichLayer::Project => WhichLayer::Global,
            };
            state.clamp_cursor();
            return Request::Done(Action::Continue);
        },
        _ => {},
    }
    if key.key == Key::Left || key.plain_char('h') {
        state.list = List::Allow;
        state.clamp_cursor();
        return Request::Done(Action::Continue);
    }
    if key.key == Key::Right || key.plain_char('l') {
        state.list = List::Deny;
        state.clamp_cursor();
        return Request::Done(Action::Continue);
    }
    if key.up() {
        state.cursor = if state.cursor > 0 { state.cursor - 1 } else { 0 };
        return Request::Done(Action::Continue);
    }
    if key.down() {
        let len = state.entries_len();
        let next: usize = if state.cursor < len { state.cursor + 1 } else { len };
        state.cursor = if len == 0 { 0 } else if next > len - 1 { len - 1 } else { next };
        return Request::Done(Action::Continue);
    }
    if key.plain_char('a') {
        state.input_mode = true;
        state.input = String::new();
        return Request::Done(Action::Continue);
    }
    if key.plain_char('d') {
        return state.delete_entry();
    }
    Request::Done(Action::Continue)
}

/// One list of a layer's column: its name and `(empty)`, or its name and its
/// entries with the cursor; bold when it is the list being edited.
pub open spec fn list_block(p: PolicyState, report: LayerReport, list: List, active: bool) -> Seq<Seq<(Seq<char>, Tone)>> {
    let entries = list_entries(report, list);
    let editing = active && p.list == list;
    let tone = if editing { Tone::Bold } else { Tone::Plain };
    if entries.len() == 0 {
        seq![seq![(list.name_spec() + "   (empty)"@, tone)]]
    } else {
        seq![seq![(list.name_spec() + ":"@, tone)]] + Seq::new(
            entries.len(),
            |k: int| seq![(marker(editing && k == p.cursor) + entries[k]@, tone)],
        )
    }
}

/// The column of a layer: its name (bold when it is being edited), its file,
/// whether the file exists, then its allow and deny lists.
pub open spec fn policy_column(p: PolicyState, which: WhichLayer) -> Seq<Seq<(Seq<char>, Tone)>> {
    let report = match which {
        WhichLayer::Global => p.global,
        WhichLayer::Project => p.project,
    };
    let active = p.layer == which;
    seq![
        seq![(which.name_spec(), if active { Tone::Bold } else { Tone::Plain })],
        seq![(report.path@, Tone::Plain)],
        seq![("exists  "@ + if report.exists { "true"@ } else { "false"@ }, Tone::Plain)],
    ] + list_block(p, report, List::Allow, active) + list_block(p, report, List::Deny, active)
}

fn push_list_block(lines: &mut Vec<Vec<Seg>>, p: &PolicyState, report: &LayerReport, list: List, active: bool)
    ensures
        lines_view(final(lines)@) == lines_view(old(lines)@) + list_block(*p, *report, list, active),
{
    let ghost start = lines_view(lines@);
    let entries = match list {
        List::Allow => &report.allow,
        List::Deny => &report.deny,
    };
    let editing = active && match (p.list, list) {
        (List::Allow, List::Allow) => true,
        (List::Deny, List::Deny) => true,
        _ => false,
    };
    let tone = if editing { Tone::Bold } else { Tone::Plain };
    let mut h = chars_of(list.as_str());
    if entries.len() == 0 {
        push_str(&mut h, "   (empty)");
        push_line(lines, one(string_from_chars(&h), tone));
    } else {
        push_str(&mut h, ":");
        push_line(lines, one(string_from_chars(&h), tone));
        let ghost head = lines_view(lines@);
        let ghost rows = Seq::new(entries@.len(), |k: int| seq![(marker(editing && k == p.cursor) + entries@[k]@, tone)]);
        let mut i: usize = 0;
        while i < entries.len()
            invariant
                0 <= i <= entries@.len(),
                rows == Seq::new(entries@.len(), |k: int| seq![(marker(editing && k == p.cursor) + entries@[k]@, tone)]),
                lines_view(lines@) == head + rows.take(i as int),
            decreases entries@.len() - i,
        {
            let mut v = chars_of(marker_str(editing && i == p.cursor));
            push_str(&mut v, entries[i].as_str());
            push_line(lines, one(string_from_chars(&v), tone));
            assert(rows.take(i + 1) =~= rows.take(i as int).push(rows[i as int]));
            i = i + 1;
        }
        assert(rows.take(i as int) =~= rows);
    }
    assert(lines_view(lines@) =~= start + list_block(*p, *report, list, active));
}

/// The column of a layer (see `policy_column`).
pub fn render_column(p: &PolicyState, which: WhichLayer) -> (lines: Vec<Vec<Seg>>)
    ensures
        lines_view(lines@) == policy_column(*p, which),
{
    let report = match which {
        WhichLayer::Global => &p.global,
        WhichLayer::Project => &p.project,
    };
    let active = match (p.layer, which) {
        (WhichLayer::Global, WhichLayer::Global) => true,
        (WhichLayer::Project, WhichLayer::Project) => true,
        _ => false,
    };
    let mut lines: Vec<Vec<Seg>> = Vec::new();
    push_line(&mut lines, one(to_string(which.as_str()), if active { Tone::Bold } else { Tone::Plain }));
    push_line(&mut lines, one(to_string(report.path.as_str()), Tone::Plain));
    let mut e: Vec<char> = Vec::new();
    push_str(&mut e, "exists  ");
    push_str(&mut e, if report.exists { "true" } else { "false" });
    push_line(&mut lines, one(string_from_chars(&e), Tone::Plain));
    push_list_block(&mut lines, p, report, List::Allow, active);
    push_list_block(&mut lines, p, report, List::Deny, active);
    assert(lines_view(lines@) =~= policy_column(*p, which));
    lines
}

/// The policy screen: the global layer's column, then the project layer's.
pub fn render(p: &PolicyState) -> (columns: (Vec<Vec<Seg>>, Vec<Vec<Seg>>))
    ensures
        lines_view(columns.0@) == policy_column(*p, WhichLayer::Global),
        lines_view(columns.1@) == policy_column(*p, WhichLayer::Project),
{
    (render_column(p, WhichLayer::Global), render_column(p, WhichLayer::Project))
}

} // verus!
