//! The manifest editor: workers and their packs and tools, the task, the
//! adapter and the budget, checked against manifest validation as they change.
use crate::library::ListedSkill;
use crate::run::{base_name, base_names, entry_base_name, Budget, ManifestInput, Worker};
use crate::text::{
    chars_of, clone_strings, concat, contains_char, contains_string, dedup_spec, push_str, split_chars, split_spec,
    string_from_chars, to_string, trim_chars, trim_spec, views, vec_views, parse_u64, parse_u64_spec, decimal};
use crate::tui::menu::manifests::{listed_names_view, lookup_union_pub, names_tokens};
use crate::tui::menu::Action;
use crate::tui::{Key, KeyPress};
use vstd::prelude::*;

verus! {

/// One worker as the editor holds it.
#[derive(Debug, Clone, PartialEq)]
pub struct WorkerRow {
    pub name: String,
    pub pack: Vec<String>,
    pub tools: Vec<String>,
}

/// Which pane keys move in.
#[derive(Debug, Clone, Copy, PartialEq, Eq, Structural)]
pub enum Focus {
    Workers,
    Skills,
    Tools,
}

/// What is being typed.
#[derive(Debug, Clone, Copy, PartialEq, Eq, Structural)]
pub enum Field {
    NewName,
    Rename,
    Task,
    Budget,
    ManifestName,
    AddTool,
}

impl Field {
    pub open spec fn label_spec(self) -> Seq<char> {
        match self {
            Field::NewName => "new worker"@,
            Field::Rename => "rename worker"@,
            Field::Task => "task"@,
            Field::Budget => "budget"@,
            Field::ManifestName => "manifest name"@,
            Field::AddTool => "add tool"@,
        }
    }

    /// The field's label.
    pub fn label(self) -> (s: &'static str)
        ensures
            s@ == self.label_spec(),
    {
        match self {
            Field::NewName => "new worker",
            Field::Rename => "rename worker",
            Field::Task => "task",
            Field::Budget => "budget",
            Field::ManifestName => "manifest name",
            Field::AddTool => "add tool",
        }
    }
}

/// Where a new manifest is saved.
#[derive(Debug, Clone, Copy, PartialEq, Eq, Structural)]
pub enum SaveTarget {
    Project,
    Home,
}

impl SaveTarget {
    /// The other target.
    pub fn toggle(self) -> (t: SaveTarget)
        ensures
            t != self,
    {
        match self {
            SaveTarget::Project => SaveTarget::Home,
            SaveTarget::Home => SaveTarget::Project,
        }
    }

    pub open spec fn label_spec(self) -> Seq<char> {
        match self {
            SaveTarget::Project => "./lunchbox/manifests"@,
            SaveTarget::Home => "~/.lunchbox/manifests"@,
        }
    }

    /// The target as the prompt names it.
    pub fn label(self) -> (s: &'static str)
        ensures
            s@ == self.label_spec(),
    {
        match self {
            SaveTarget::Project => "./lunchbox/manifests",
            SaveTarget::Home => "~/.lunchbox/manifests",
        }
    }

    /// The directory of the target (the user's needs `HOME`).
    pub fn dir(self, home: Option<&str>) -> (r: Result<String, String>)
        ensures
            match self {
                SaveTarget::Project => r matches Ok(d) && d@ == crate::paths::join_spec("lunchbox"@, "manifests"@),
                SaveTarget::Home => match home {
                    Some(h) => r matches Ok(d) && d@ == crate::paths::join_spec(
                        crate::paths::join_spec(h@, ".lunchbox"@),
                        "manifests"@,
                    ),
                    None => r matches Err(m) && m@ == crate::config::home_unset_message(),
                },
            },
    {
        match self {
            SaveTarget::Project => Ok(crate::paths::join("lunchbox", "manifests")),
            SaveTarget::Home => match crate::config::lunchbox_home(home) {
                Ok(h) => Ok(crate::paths::join(h.as_str(), "manifests")),
                Err(m) => Err(m),
            },
        }
    }
}

/// The editor.
#[derive(Debug, Clone, PartialEq)]
pub struct EditorState {
    pub path: Option<String>,
    pub name: String,
    pub workers: Vec<WorkerRow>,
    pub worker_cursor: usize,
    pub focus: Focus,
    pub task: String,
    pub adapter: String,
    pub budget: Option<u64>,
    pub pin_hashes: bool,
    pub skills: Vec<ListedSkill>,
    pub skill_cursor: usize,
    pub tool_cursor: usize,
    pub input: String,
    pub input_mode: Option<Field>,
    pub save_target: SaveTarget,
    pub status: String,
}

/// A worker of the manifest the editor would write.
pub open spec fn row_worker_ok(w: Worker, r: WorkerRow) -> bool {
    &&& w.name == r.name
    &&& w.pack@ == r.pack@
    &&& w.description is None
    &&& if r.tools@.len() == 0 {
        w.tools is None
    } else {
        w.tools matches Some(t) && t@ == r.tools@
    }
}

/// The manifest input the editor would write.
pub open spec fn input_ok(i: ManifestInput, e: EditorState) -> bool {
    &&& i.schema == 1
    &&& i.task == e.task
    &&& i.adapter == e.adapter
    &&& i.run_id is None
    &&& i.created_at is None
    &&& i.harness_argv is None
    &&& i.budget == match e.budget {
        Some(m) => Some(Budget { max_menu_tokens: m }),
        None => None,
    }
    &&& i.workers@.len() == e.workers@.len()
    &&& forall|k: int| 0 <= k < i.workers@.len() ==> row_worker_ok(#[trigger] i.workers@[k], e.workers@[k])
}

/// The status the editor shows while nothing is typed: the validation verdict.
pub open spec fn status_for(v: Result<(), Seq<char>>) -> Seq<char> {
    match v {
        Ok(()) => "ok — s save · S save+start"@,
        Err(m) => m,
    }
}

/// All pins of the rows, in order.
pub open spec fn row_pins(rows: Seq<WorkerRow>) -> Seq<Seq<char>>
    decreases rows.len(),
{
    if rows.len() == 0 {
        Seq::empty()
    } else {
        row_pins(rows.drop_last()) + views(rows.last().pack@)
    }
}

/// The menu tokens of the editor's manifest: the skills it pins, once each,
/// priced by the union, plus the preamble.
pub open spec fn live_tokens_spec(e: EditorState) -> nat {
    crate::tokens::with_preamble_spec(names_tokens(dedup_spec(base_names(row_pins(e.workers@))), e.skills@))
}

/// The tool entries of the editor: the adapter's table, then the current
/// worker's tools that the table lacks.
pub open spec fn tool_names(e: EditorState) -> Seq<Seq<char>> {
    let table = match crate::adapter::tools::table_spec(e.adapter@) {
        Some(t) => t.map_values(|x: (Seq<char>, u64)| x.0),
        None => Seq::empty(),
    };
    table + if e.worker_cursor < e.workers@.len() {
        extra_tools(views(e.workers@[e.worker_cursor as int].tools@), table)
    } else {
        Seq::empty()
    }
}

/// The estimate shown beside the `k`-th tool entry: the table's tokens for
/// table entries, none for the worker's other tools.
pub open spec fn tool_cost(e: EditorState, k: int) -> Option<u64> {
    match crate::adapter::tools::table_spec(e.adapter@) {
        Some(t) => if k < t.len() {
            Some(t[k].1)
        } else {
            None
        },
        None => None,
    }
}

/// The tools not in `table`, without repeats, in order.
pub open spec fn extra_tools(tools: Seq<Seq<char>>, table: Seq<Seq<char>>) -> Seq<Seq<char>>
    decreases tools.len(),
{
    if tools.len() == 0 {
        Seq::empty()
    } else {
        let before = extra_tools(tools.drop_last(), table);
        before + if table.contains(tools.last()) || before.contains(tools.last()) {
            Seq::empty()
        } else {
            seq![tools.last()]
        }
    }
}

/// `names` with its first `name` removed when present, else with `name` appended.
pub open spec fn toggled(names: Seq<Seq<char>>, name: Seq<char>) -> Seq<Seq<char>> {
    crate::tui::menu::pantry::toggled(names, name)
}

impl EditorState {
    /// The union names each skill once and its tokens fit with the preamble.
    pub open spec fn wf(&self) -> bool {
        &&& listed_names_view(self.skills@).no_duplicates()
        &&& crate::tui::preview::listing_sum(self.skills@) + crate::tokens::MENU_PREAMBLE_TOKENS <= u64::MAX
    }

    /// The manifest input the editor would write (see `input_ok`).
    pub fn build_input(&self) -> (i: ManifestInput)
        ensures
            input_ok(i, *self),
    {
        let mut workers: Vec<Worker> = Vec::new();
        let mut k: usize = 0;
        while k < self.workers.len()
            invariant
                0 <= k <= self.workers@.len(),
                workers@.len() == k,
                forall|m: int| 0 <= m < k ==> row_worker_ok(#[trigger] workers@[m], self.workers@[m]),
            decreases self.workers@.len() - k,
        {
            let r = &self.workers[k];
            let tools = if r.tools.len() == 0 {
                None
            } else {
                Some(clone_strings(&r.tools))
            };
            workers.push(Worker { name: r.name.clone(), pack: clone_strings(&r.pack), description: None, tools });
            k = k + 1;
        }
        ManifestInput {
            schema: 1,
            task: self.task.clone(),
            adapter: self.adapter.clone(),
            run_id: None,
            created_at: None,
            harness_argv: None,
            budget: match self.budget {
                Some(m) => Some(Budget { max_menu_tokens: m }),
                None => None,
            },
            workers,
        }
    }

    /// Sets the status to the validation verdict on the editor's manifest.
    pub fn refresh_status(&mut self)
        ensures
            exists|i: ManifestInput| input_ok(i, *old(self)) && final(self).status@ == status_for(
                crate::run::validate_spec(i),
            ),
            final(self).path == old(self).path,
            final(self).name == old(self).name,
            final(self).workers == old(self).workers,
            final(self).worker_cursor == old(self).worker_cursor,
            final(self).focus == old(self).focus,
            final(self).task == old(self).task,
            final(self).adapter == old(self).adapter,
            final(self).budget == old(self).budget,
            final(self).pin_hashes == old(self).pin_hashes,
            final(self).skills == old(self).skills,
            final(self).skill_cursor == old(self).skill_cursor,
            final(self).tool_cursor == old(self).tool_cursor,
            final(self).input == old(self).input,
            final(self).input_mode == old(self).input_mode,
            final(self).save_target == old(self).save_target,
    {
        let input = self.build_input();
        self.status = match input.validate() {
            Ok(_) => to_string("ok — s save · S save+start"),
            Err(m) => m,
        };
    }

    /// An editor over a manifest's parts, focused on the skills.
    pub fn from_parts(
        path: Option<String>,
        name: String,
        workers: Vec<WorkerRow>,
        task: String,
        adapter: String,
        budget: Option<u64>,
        skills: Vec<ListedSkill>,
    ) -> (s: Self)
        ensures
            s.path == path,
            s.name == name,
            s.workers == workers,
            s.task == task,
            s.adapter == adapter,
            s.budget == budget,
            s.skills == skills,
            s.worker_cursor == 0,
            s.focus == Focus::Skills,
            !s.pin_hashes,
            s.skill_cursor == 0,
            s.tool_cursor == 0,
            s.input@.len() == 0,
            s.input_mode is None,
            s.save_target == SaveTarget::Project,
    {
        let mut state = EditorState {
            path,
            name,
            workers,
            worker_cursor: 0,
            focus: Focus::Skills,
            task,
            adapter,
            budget,
            pin_hashes: false,
            skills,
            skill_cursor: 0,
            tool_cursor: 0,
            input: String::new(),
            input_mode: None,
            save_target: SaveTarget::Project,
            status: String::new(),
        };
        state.refresh_status();
        state
    }

    /// An editor over a manifest read from `path`, named `name`.
    pub fn from_input(path: String, name: String, input: &ManifestInput, skills: Vec<ListedSkill>) -> (s: Self)
        ensures
            s.path == Some(path),
            s.name == name,
            s.task == input.task,
            s.adapter == input.adapter,
            s.budget == match input.budget {
                Some(b) => Some(b.max_menu_tokens),
                None => None,
            },
            s.workers@.len() == input.workers@.len(),
            forall|k: int| 0 <= k < s.workers@.len() ==> (#[trigger] s.workers@[k]).name == input.workers@[k].name
                && s.workers@[k].pack@ == input.workers@[k].pack@ && views(s.workers@[k].tools@) == match input.workers@[k].tools {
                Some(t) => views(t@),
                None => Seq::empty(),
            },
            s.skills == skills,
    {
        let mut rows: Vec<WorkerRow> = Vec::new();
        let mut k: usize = 0;
        while k < input.workers.len()
            invariant
                0 <= k <= input.workers@.len(),
                rows@.len() == k,
                forall|m: int| 0 <= m < k ==> (#[trigger] rows@[m]).name == input.workers@[m].name
                    && rows@[m].pack@ == input.workers@[m].pack@ && views(rows@[m].tools@) == match input.workers@[m].tools {
                    Some(t) => views(t@),
                    None => Seq::empty(),
                },
            decreases input.workers@.len() - k,
        {
            let w = &input.workers[k];
            let tools = match &w.tools {
                Some(t) => clone_strings(t),
                None => Vec::new(),
            };
            proof {
                if w.tools is None {
                    assert(views(tools@) =~= Seq::<Seq<char>>::empty());
                }
            }
            rows.push(WorkerRow { name: w.name.clone(), pack: clone_strings(&w.pack), tools });
            k = k + 1;
        }
        let budget = match input.budget {
            Some(b) => Some(b.max_menu_tokens),
            None => None,
        };
        Self::from_parts(Some(path), name, rows, input.task.clone(), input.adapter.clone(), budget, skills)
    }

    /// A new manifest: one worker `main`, adapter `none`, asking for the name first.
    pub fn new_draft(skills: Vec<ListedSkill>) -> (s: Self)
        ensures
            s.path is None,
            s.name@.len() == 0,
            s.workers@.len() == 1,
            s.workers@[0].name@ == "main"@,
            s.workers@[0].pack@.len() == 0,
            s.workers@[0].tools@.len() == 0,
            s.task@.len() == 0,
            s.adapter@ == "none"@,
            s.budget is None,
            s.skills == skills,
            s.input_mode == Some(Field::ManifestName),
            s.status@ == "name the manifest first"@,
    {
        let mut workers: Vec<WorkerRow> = Vec::new();
        workers.push(WorkerRow { name: to_string("main"), pack: Vec::new(), tools: Vec::new() });
        let mut state = Self::from_parts(None, String::new(), workers, String::new(), to_string("none"), None, skills);
        state.input_mode = Some(Field::ManifestName);
        state.status = to_string("name the manifest first");
        state
    }

    /// The first skill of the union with this name.
    pub fn skill_named(&self, name: &str) -> (r: Option<ListedSkill>)
        ensures
            match r {
                Some(s) => exists|k: int| 0 <= k < self.skills@.len() && self.skills@[k] == s && s.name@ == name@
                    && forall|m: int| 0 <= m < k ==> (#[trigger] self.skills@[m]).name@ != name@,
                None => forall|m: int| 0 <= m < self.skills@.len() ==> (#[trigger] self.skills@[m]).name@ != name@,
            },
    {
        let mut i: usize = 0;
        while i < self.skills.len()
            invariant
                0 <= i <= self.skills@.len(),
                forall|m: int| 0 <= m < i ==> (#[trigger] self.skills@[m]).name@ != name@,
            decreases self.skills@.len() - i,
        {
            if crate::text::str_eq(self.skills[i].name.as_str(), name) {
                return Some(self.skills[i].copy());
            }
            i = i + 1;
        }
        None
    }

    /// The menu tokens of the editor's manifest (see `live_tokens_spec`).
    pub fn live_tokens(&self) -> (t: u64)
        requires
            self.wf(),
        ensures
            t == live_tokens_spec(*self),
    {
        let mut bases: Vec<String> = Vec::new();
        let mut i: usize = 0;
        while i < self.workers.len()
            invariant
                0 <= i <= self.workers@.len(),
                views(bases@) == base_names(row_pins(self.workers@.take(i as int))),
            decreases self.workers@.len() - i,
        {
            let pack = &self.workers[i].pack;
            let ghost before = views(bases@);
            let mut j: usize = 0;
            while j < pack.len()
                invariant
                    0 <= j <= pack@.len(),
                    views(bases@) == before + base_names(views(pack@).take(j as int)),
                decreases pack@.len() - j,
            {
                let b = entry_base_name(&pack[j]);
                let ghost mid = views(bases@);
                bases.push(b);
                assert(views(bases@) =~= mid.push(base_name(pack@[j as int]@)));
                assert(base_names(views(pack@).take(j + 1)) =~= base_names(views(pack@).take(j as int)).push(
                    base_name(pack@[j as int]@),
                ));
                j = j + 1;
            }
            proof {
                assert(self.workers@.take(i + 1).drop_last() =~= self.workers@.take(i as int));
                assert(views(pack@).take(j as int) =~= views(pack@));
                let prev = row_pins(self.workers@.take(i as int));
                assert(base_names(prev + views(pack@)) =~= base_names(prev) + base_names(views(pack@)));
            }
            i = i + 1;
        }
        assert(self.workers@.take(i as int) =~= self.workers@);
        let names = crate::text::dedup_strings(bases);
        let ghost nv = views(names@);
        proof {
            crate::tui::menu::manifests::lemma_distinct_names_bound(nv, self.skills@);
        }
        let mut total: u64 = 0;
        let mut k: usize = 0;
        while k < names.len()
            invariant
                0 <= k <= names@.len(),
                nv == views(names@),
                names_tokens(nv, self.skills@) <= crate::tui::preview::listing_sum(self.skills@),
                self.wf(),
                total == names_tokens(nv.take(k as int), self.skills@),
            decreases names@.len() - k,
        {
            proof {
                assert(nv.take(k + 1).drop_last() =~= nv.take(k as int));
                assert(nv.take(k + 1).last() == names@[k as int]@);
                crate::tui::menu::manifests::lemma_names_tokens_prefix_pub(nv, self.skills@, k + 1);
            }
            match lookup_union_pub(&self.skills, &names[k]) {
                Some(t) => {
                    total = total + t;
                },
                None => {},
            }
            k = k + 1;
        }
        assert(nv.take(k as int) =~= nv);
        crate::tokens::with_preamble(total)
    }

    /// The prompt line: what is being typed, or the status.
    pub open spec fn prompt_spec(&self) -> Seq<char> {
        match self.input_mode {
            Some(Field::ManifestName) => "manifest name: "@ + self.input@ + " (Tab target: "@ + self.save_target.label_spec() + ")"@,
            Some(Field::NewName) => "new worker name: "@ + self.input@,
            Some(Field::Rename) => "rename worker: "@ + self.input@,
            Some(Field::Task) => "task: "@ + self.input@,
            Some(Field::AddTool) => "add tools (csv): "@ + self.input@,
            Some(Field::Budget) => "budget max_menu_tokens: "@ + self.input@,
            None => self.status@,
        }
    }

    /// The prompt line: what is being typed, or the status.
    pub fn prompt(&self) -> (p: String)
        ensures
            p@ == self.prompt_spec(),
    {
        let mut m: Vec<char> = Vec::new();
        match self.input_mode {
            Some(Field::ManifestName) => {
                push_str(&mut m, "manifest name: ");
                push_str(&mut m, self.input.as_str());
                push_str(&mut m, " (Tab target: ");
                push_str(&mut m, self.save_target.label());
                push_str(&mut m, ")");
            },
            Some(Field::NewName) => {
                push_str(&mut m, "new worker name: ");
                push_str(&mut m, self.input.as_str());
            },
            Some(Field::Rename) => {
                push_str(&mut m, "rename worker: ");
                push_str(&mut m, self.input.as_str());
            },
            Some(Field::Task) => {
                push_str(&mut m, "task: ");
                push_str(&mut m, self.input.as_str());
            },
            Some(Field::AddTool) => {
                push_str(&mut m, "add tools (csv): ");
                push_str(&mut m, self.input.as_str());
            },
            Some(Field::Budget) => {
                push_str(&mut m, "budget max_menu_tokens: ");
                push_str(&mut m, self.input.as_str());
            },
            None => {
                return self.status.clone();
            },
        }
        string_from_chars(&m)
    }

    /// The tool entries (see `tool_names`): each table entry with its
    /// tokens, then the worker's other tools without an estimate.
    pub fn tools_list(&self) -> (entries: Vec<(String, Option<u64>)>)
        ensures
            entries@.map_values(|e: (String, Option<u64>)| e.0@) == tool_names(*self),
            forall|k: int| 0 <= k < entries@.len() ==> (#[trigger] entries@[k]).1 == tool_cost(*self, k),
    {
        let mut entries: Vec<(String, Option<u64>)> = Vec::new();
        let ghost table = match crate::adapter::tools::table_spec(self.adapter@) {
            Some(t) => t.map_values(|x: (Seq<char>, u64)| x.0),
            None => Seq::empty(),
        };
        match crate::adapter::tools::table(self.adapter.as_str()) {
            Some(t) => {
                let mut i: usize = 0;
                while i < t.len()
                    invariant
                        0 <= i <= t@.len(),
                        crate::adapter::tools::table_spec(self.adapter@) matches Some(ts) && crate::adapter::tools::table_view(t@) == ts,
                        table == crate::adapter::tools::table_view(t@).map_values(|x: (Seq<char>, u64)| x.0),
                        entries@.map_values(|e: (String, Option<u64>)| e.0@) == table.take(i as int),
                        forall|k: int| 0 <= k < entries@.len() ==> (#[trigger] entries@[k]).1 == tool_cost(*self, k),
                    decreases t@.len() - i,
                {
                    let ghost before = entries@.map_values(|e: (String, Option<u64>)| e.0@);
                    entries.push((to_string(t[i].name), Some(t[i].tokens)));
                    assert(entries@.map_values(|e: (String, Option<u64>)| e.0@) =~= before.push(t@[i as int].name@));
                    assert(table.take(i + 1) =~= table.take(i as int).push(table[i as int]));
                    i = i + 1;
                }
                assert(table.take(i as int) =~= table);
            },
            None => {
                assert(entries@.map_values(|e: (String, Option<u64>)| e.0@) =~= table);
            },
        }
        if self.worker_cursor < self.workers.len() {
            let tools = &self.workers[self.worker_cursor].tools;
            let ghost tv = views(tools@);
            let mut j: usize = 0;
            while j < tools.len()
                invariant
                    0 <= j <= tools@.len(),
                    tv == views(tools@),
                    entries@.map_values(|e: (String, Option<u64>)| e.0@) == table + extra_tools(tv.take(j as int), table),
                    table.len() == match crate::adapter::tools::table_spec(self.adapter@) {
                        Some(ts) => ts.len(),
                        None => 0,
                    },
                    forall|k: int| 0 <= k < entries@.len() ==> (#[trigger] entries@[k]).1 == tool_cost(*self, k),
                decreases tools@.len() - j,
            {
                let ghost ev = entries@.map_values(|e: (String, Option<u64>)| e.0@);
                let ghost before = extra_tools(tv.take(j as int), table);
                assert(tv.take(j + 1).drop_last() =~= tv.take(j as int));
                assert(tv.take(j + 1).last() == tools@[j as int]@);
                let mut found = false;
                let mut k: usize = 0;
                while k < entries.len()
                    invariant
                        0 <= k <= entries@.len(),
                        0 <= j < tools@.len(),
                        ev == entries@.map_values(|e: (String, Option<u64>)| e.0@),
                        found == exists|m: int| 0 <= m < k && #[trigger] ev[m] == tools@[j as int]@,
                    decreases entries@.len() - k,
                {
                    assert(ev[k as int] == entries@[k as int].0@);
                    if entries[k].0.eq(&tools[j]) {
                        found = true;
                    }
                    k = k + 1;
                }
                proof {
                    let x = tools@[j as int]@;
                    assert(found == ev.contains(x)) by {
                        if ev.contains(x) {
                            let m = choose|m: int| 0 <= m < ev.len() && ev[m] == x;
                            assert(ev[m] == x);
                        }
                    }
                    assert(ev.contains(x) == (table.contains(x) || before.contains(x))) by {
                        if ev.contains(x) {
                            let m = choose|m: int| 0 <= m < ev.len() && ev[m] == x;
                            if m < table.len() {
                                assert(table[m] == x);
                            } else {
                                assert(before[m - table.len()] == x);
                            }
                        }
                        if table.contains(x) {
                            let m = choose|m: int| 0 <= m < table.len() && table[m] == x;
                            assert(ev[m] == x);
                        }
                        if before.contains(x) {
                            let m = choose|m: int| 0 <= m < before.len() && before[m] == x;
                            assert(ev[table.len() + m] == x);
                        }
                    }
                }
                if !found {
                    entries.push((tools[j].clone(), None));
                    assert(entries@.map_values(|e: (String, Option<u64>)| e.0@) =~= ev.push(tools@[j as int]@));
                    assert(table + extra_tools(tv.take(j + 1), table) =~= ev.push(tools@[j as int]@));
                } else {
                    assert(table + extra_tools(tv.take(j + 1), table) =~= ev);
                }
                j = j + 1;
            }
            assert(tv.take(j as int) =~= tv);
        } else {
            assert(table + Seq::<Seq<char>>::empty() =~= table);
        }
        entries
    }

    /// Cycles the focus: workers, skills, tools.
    pub fn toggle_focus(&mut self)
        ensures
            focus_post(*old(self), *final(self)),
    {
        self.focus = match self.focus {
            Focus::Workers => Focus::Skills,
            Focus::Skills => Focus::Tools,
            Focus::Tools => Focus::Workers,
        };
    }

    /// Moves the cursor of the focused pane one step, within the pane.
    pub fn move_cursor(&mut self, down: bool)
        ensures
            move_post(*old(self), *final(self), down),
    {
        match self.focus {
            Focus::Workers => {
                let n = self.workers.len();
                self.worker_cursor = if n == 0 { 0 } else { crate::tui::step_cursor(self.worker_cursor, down, n) };
            },
            Focus::Skills => {
                let n = self.skills.len();
                self.skill_cursor = if n == 0 { 0 } else { crate::tui::step_cursor(self.skill_cursor, down, n) };
            },
            Focus::Tools => {
                let list = self.tools_list();
                let n = list.len();
                assert(n == tool_names(*self).len());
                self.tool_cursor = if n == 0 { 0 } else { crate::tui::step_cursor(self.tool_cursor, down, n) };
            },
        }
    }
}

/// `list` with its first entry equal to `name` removed, or `name` appended
/// when there is none.
pub fn toggle_name(list: &mut Vec<String>, name: String)
    ensures
        views(final(list)@) == toggled(views(old(list)@), name@),
{
    let ghost sel = views(list@);
    let mut i: usize = 0;
    assert(sel.skip(0) =~= sel);
    while i < list.len()
        invariant
            0 <= i <= list@.len(),
            sel == views(list@),
            sel == views(old(list)@),
            crate::tui::menu::pantry::first_index(sel, name@) == i + crate::tui::menu::pantry::first_index(sel.skip(i as int), name@),
        decreases list@.len() - i,
    {
        assert(sel.skip(i as int)[0] == sel[i as int]);
        if list[i].eq(&name) {
            list.remove(i);
            assert(views(list@) =~= sel.remove(i as int));
            return;
        }
        assert(sel.skip(i as int).drop_first() =~= sel.skip(i + 1));
        i = i + 1;
    }
    assert(sel.skip(i as int).len() == 0);
    list.push(name);
    assert(views(list@) =~= sel.push(name@));
}

impl EditorState {
    /// Puts the skill under the cursor into the current worker's pack, or
    /// takes it out, then re-checks the manifest.
    pub fn toggle_skill(&mut self)
        ensures
            skill_toggle_post(*old(self), *final(self)),
    {
        if self.skill_cursor >= self.skills.len() || self.worker_cursor >= self.workers.len() {
            return;
        }
        let name = self.skills[self.skill_cursor].name.clone();
        let c = self.worker_cursor;
        let mut row = self.workers.remove(c);
        toggle_name(&mut row.pack, name);
        self.workers.insert(c, row);
        self.refresh_status();
    }

    /// Selects the tool under the cursor for the current worker, or drops
    /// it, then re-checks the manifest.
    pub fn toggle_tool(&mut self)
        ensures
            tool_toggle_post(*old(self), *final(self)),
    {
        let entries = self.tools_list();
        if self.tool_cursor >= entries.len() || self.worker_cursor >= self.workers.len() {
            return;
        }
        let name = entries[self.tool_cursor].0.clone();
        assert(name@ == tool_names(*self)[self.tool_cursor as int]);
        let c = self.worker_cursor;
        let mut row = self.workers.remove(c);
        toggle_name(&mut row.tools, name);
        self.workers.insert(c, row);
        self.refresh_status();
    }

    /// Deletes the current worker, keeping the cursor on a neighbour.
    pub fn delete_worker(&mut self)
        ensures
            delete_post(*old(self), *final(self)),
    {
        if self.worker_cursor >= self.workers.len() {
            return;
        }
        self.workers.remove(self.worker_cursor);
        let prev: usize = if self.worker_cursor > 0 { self.worker_cursor - 1 } else { 0 };
        let n = self.workers.len();
        self.worker_cursor = if n == 0 { 0 } else if prev > n - 1 { n - 1 } else { prev };
        self.refresh_status();
    }

    /// The next adapter: `none`, `pi`, `omp`, back to `none`.
    pub fn cycle_adapter(&mut self)
        ensures
            cycle_post(*old(self), *final(self)),
    {
        self.adapter = if crate::text::str_eq(self.adapter.as_str(), "none") {
            to_string("pi")
        } else if crate::text::str_eq(self.adapter.as_str(), "pi") {
            to_string("omp")
        } else {
            to_string("none")
        };
        self.refresh_status();
    }

    /// Starts typing a field, prefilled with its current value where it has one.
    pub fn begin_input(&mut self, field: Field)
        ensures
            begin_post(*old(self), *final(self), field),
    {
        self.input = match field {
            Field::Rename => if self.worker_cursor < self.workers.len() {
                self.workers[self.worker_cursor].name.clone()
            } else {
                String::new()
            },
            Field::Task => self.task.clone(),
            Field::Budget => match self.budget {
                Some(b) => crate::text::decimal_string(b as u128),
                None => String::new(),
            },
            _ => String::new(),
        };
        self.input_mode = Some(field);
    }
}


/// The pieces of an `add tool` entry: split at commas, each trimmed.
pub open spec fn tool_pieces(value: Seq<char>) -> Seq<Seq<char>> {
    split_spec(value, ',').map_values(|p: Seq<char>| trim_spec(p))
}

/// `tools` with each of `names` appended unless already there.
pub open spec fn with_tools(tools: Seq<Seq<char>>, names: Seq<Seq<char>>) -> Seq<Seq<char>>
    decreases names.len(),
{
    if names.len() == 0 {
        tools
    } else {
        let before = with_tools(tools, names.drop_last());
        if before.contains(names.last()) {
            before
        } else {
            before.push(names.last())
        }
    }
}

fn push_char(s: &String, c: char) -> (r: String)
    ensures
        r@ == s@.push(c),
{
    let mut v = chars_of(s.as_str());
    v.push(c);
    string_from_chars(&v)
}

fn pop_char(s: &String) -> (r: String)
    ensures
        r@ == if s@.len() > 0 {
            s@.drop_last()
        } else {
            s@
        },
{
    let mut v = chars_of(s.as_str());
    if v.len() > 0 {
        v.pop();
    }
    string_from_chars(&v)
}

impl EditorState {
    /// Asks to save (and then start): a new manifest needs a name first, and
    /// a manifest that fails validation is not saved.
    pub fn save_requested(&mut self, and_start: bool) -> (a: Action)
        ensures
            save_post(*old(self), *final(self), and_start, a),
    {
        if self.path.is_none() && self.name.as_str().is_empty() {
            self.input = String::new();
            self.input_mode = Some(Field::ManifestName);
            self.status = to_string("name the manifest first");
            return Action::Continue;
        }
        let input = self.build_input();
        if input.validate().is_err() {
            self.status = to_string("fix validation errors first");
            return Action::Continue;
        }
        if and_start {
            Action::EditorSaveAndStart
        } else {
            Action::EditorSave
        }
    }

    /// Commits what was typed into `field`.
    pub fn commit(&mut self, field: Field)
        ensures
            commit_post(*old(self), *final(self), field),
    {
        let value_chars = trim_chars(&chars_of(self.input.as_str()));
        let value = string_from_chars(&value_chars);
        assert(value_chars@ == trim_spec(old(self).input@));
        match field {
            Field::ManifestName => {
                if value_chars.len() == 0 || contains_char(&value_chars, '/') {
                    self.status = to_string("manifest name must be one path component");
                    return;
                }
                self.name = value;
            },
            Field::NewName => {
                if value_chars.len() == 0 {
                    return;
                }
                self.workers.push(WorkerRow { name: value, pack: Vec::new(), tools: Vec::new() });
                self.worker_cursor = self.workers.len() - 1;
                self.focus = Focus::Workers;
            },
            Field::Rename => {
                if self.worker_cursor < self.workers.len() {
                    let c = self.worker_cursor;
                    let ghost ws = self.workers@;
                    let mut row = self.workers.remove(c);
                    assert(row == ws[c as int]);
                    row.name = value;
                    self.workers.insert(c, row);
                    assert(self.workers@ =~= ws.update(c as int, row));
                }
            },
            Field::Task => {
                self.task = value;
            },
            Field::Budget => {
                if value_chars.len() == 0 {
                    self.budget = None;
                } else {
                    match parse_u64(value.as_str()) {
                        Some(b) => {
                            self.budget = Some(b);
                        },
                        None => {
                            self.status = to_string("budget must be a whole number");
                            return;
                        },
                    }
                }
            },
            Field::AddTool => {
                if value_chars.len() > 0 {
                    let pieces = split_chars(&value_chars, ',');
                    let mut names: Vec<String> = Vec::new();
                    let mut i: usize = 0;
                    while i < pieces.len()
                        invariant
                            0 <= i <= pieces@.len(),
                            field == Field::AddTool,
                            *self == *old(self),
                            value_chars@ == trim_spec(old(self).input@),
                            value_chars@.len() > 0,
                            vec_views(pieces@) == split_spec(value_chars@, ','),
                            views(names@) == tool_pieces(value_chars@).take(i as int),
                            forall|k: int| 0 <= k < i ==> (#[trigger] tool_pieces(value_chars@)[k]).len() > 0,
                        decreases pieces@.len() - i,
                    {
                        let t = trim_chars(&pieces[i]);
                        assert(vec_views(pieces@)[i as int] == pieces@[i as int]@);
                        assert(tool_pieces(value_chars@)[i as int] == t@);
                        if t.len() == 0 {
                            self.status = to_string("tool name must not be empty");
                            return;
                        }
                        let ghost before = views(names@);
                        names.push(string_from_chars(&t));
                        assert(views(names@) =~= before.push(t@));
                        assert(tool_pieces(value_chars@).take(i + 1) =~= tool_pieces(value_chars@).take(i as int).push(t@));
                        i = i + 1;
                    }
                    assert(tool_pieces(value_chars@).len() == pieces@.len());
                    assert(views(names@) =~= tool_pieces(value_chars@));
                    if self.worker_cursor < self.workers.len() {
                        let c = self.worker_cursor;
                        let ghost ws = self.workers@;
                        let mut row = self.workers.remove(c);
                        assert(row == ws[c as int]);
                        let mut j: usize = 0;
                        let ghost start = views(row.tools@);
                        while j < names.len()
                            invariant
                                0 <= j <= names@.len(),
                                views(row.tools@) == with_tools(start, views(names@).take(j as int)),
                                row.name == ws[c as int].name,
                                row.pack == ws[c as int].pack,
                            decreases names@.len() - j,
                        {
                            assert(views(names@).take(j + 1).drop_last() =~= views(names@).take(j as int));
                            assert(views(names@).take(j + 1).last() == names@[j as int]@);
                            if !contains_string(&row.tools, &names[j]) {
                                let ghost b = views(row.tools@);
                                row.tools.push(names[j].clone());
                                assert(views(row.tools@) =~= b.push(names@[j as int]@));
                            }
                            j = j + 1;
                        }
                        assert(views(names@).take(j as int) =~= views(names@));
                        self.workers.insert(c, row);
                        assert(self.workers@ =~= ws.update(c as int, row));
                    }
                }
            },
        }
        self.input = String::new();
        self.input_mode = None;
        let ghost before = *self;
        self.refresh_status();
        proof {
            let i = choose|i: ManifestInput| input_ok(i, before) && self.status@ == status_for(crate::run::validate_spec(i));
            assert(input_ok(i, *self));
        }
    }
}

/// What `toggle_focus` does (its contract).
pub open spec fn focus_post(o: EditorState, f: EditorState) -> bool {
    &&& (f.focus == match o.focus { Focus::Workers => Focus::Skills, Focus::Skills => Focus::Tools, Focus::Tools => Focus::Workers, })
    &&& (f.workers == o.workers)
    &&& (f.worker_cursor == o.worker_cursor)
    &&& (f.skills == o.skills)
    &&& (f.adapter == o.adapter)
    &&& (f.input_mode == o.input_mode)
}

/// What `move_cursor` does (its contract).
pub open spec fn move_post(o: EditorState, f: EditorState, down: bool) -> bool {
    &&& (f.workers == o.workers)
    &&& (f.skills == o.skills)
    &&& (f.adapter == o.adapter)
    &&& (f.focus == o.focus)
    &&& (f.input_mode == o.input_mode)
    &&& (o.focus == Focus::Workers ==> f.worker_cursor == (if o.workers@.len() == 0 { 0 } else { crate::tui::moved_cursor(o.worker_cursor as int, if down { 1int } else { -1int }, o.workers@.len() as int) }) && f.skill_cursor == o.skill_cursor && f.tool_cursor == o.tool_cursor)
    &&& (o.focus == Focus::Skills ==> f.skill_cursor == (if o.skills@.len() == 0 { 0 } else { crate::tui::moved_cursor(o.skill_cursor as int, if down { 1int } else { -1int }, o.skills@.len() as int) }) && f.worker_cursor == o.worker_cursor && f.tool_cursor == o.tool_cursor)
    &&& (o.focus == Focus::Tools ==> f.tool_cursor == (if tool_names(o).len() == 0 { 0 } else { crate::tui::moved_cursor(o.tool_cursor as int, if down { 1int } else { -1int }, tool_names(o).len() as int) }) && f.worker_cursor == o.worker_cursor && f.skill_cursor == o.skill_cursor)
}

/// What `toggle_skill` does (its contract).
pub open spec fn skill_toggle_post(o: EditorState, f: EditorState) -> bool {
    &&& (f.skills == o.skills)
    &&& (f.worker_cursor == o.worker_cursor)
    &&& (f.workers@.len() == o.workers@.len())
    &&& (o.skill_cursor < o.skills@.len() && o.worker_cursor < o.workers@.len() ==> { &&& views(f.workers@[o.worker_cursor as int].pack@) == toggled( views(o.workers@[o.worker_cursor as int].pack@), o.skills@[o.skill_cursor as int].name@, ) &&& f.workers@[o.worker_cursor as int].name == o.workers@[o.worker_cursor as int].name &&& f.workers@[o.worker_cursor as int].tools == o.workers@[o.worker_cursor as int].tools &&& forall|k: int| 0 <= k < o.workers@.len() && k != o.worker_cursor ==> f.workers@[k] == o.workers@[k] })
    &&& (!(o.skill_cursor < o.skills@.len() && o.worker_cursor < o.workers@.len()) ==> f == o)
}

/// What `toggle_tool` does (its contract).
pub open spec fn tool_toggle_post(o: EditorState, f: EditorState) -> bool {
    &&& (f.skills == o.skills)
    &&& (f.worker_cursor == o.worker_cursor)
    &&& (f.workers@.len() == o.workers@.len())
    &&& (o.tool_cursor < tool_names(o).len() && o.worker_cursor < o.workers@.len() ==> { &&& views(f.workers@[o.worker_cursor as int].tools@) == toggled( views(o.workers@[o.worker_cursor as int].tools@), tool_names(o)[o.tool_cursor as int], ) &&& f.workers@[o.worker_cursor as int].pack == o.workers@[o.worker_cursor as int].pack })
    &&& (!(o.tool_cursor < tool_names(o).len() && o.worker_cursor < o.workers@.len()) ==> f == o)
}

/// What `delete_worker` does (its contract).
pub open spec fn delete_post(o: EditorState, f: EditorState) -> bool {
    &&& (o.workers@.len() == 0 || o.worker_cursor >= o.workers@.len() ==> f.workers == o.workers)
    &&& (o.worker_cursor < o.workers@.len() ==> { &&& f.workers@ == o.workers@.remove(o.worker_cursor as int) &&& f.worker_cursor == crate::tui::menu::policy_clamp( if o.worker_cursor > 0 { (o.worker_cursor - 1) as nat } else { 0 }, f.workers@.len(), ) })
}

/// What `cycle_adapter` does (its contract).
pub open spec fn cycle_post(o: EditorState, f: EditorState) -> bool {
    &&& (f.adapter@ == if o.adapter@ == "none"@ { "pi"@ } else if o.adapter@ == "pi"@ { "omp"@ } else { "none"@ })
    &&& (f.workers == o.workers)
}

/// What `begin_input` does (its contract).
pub open spec fn begin_post(o: EditorState, f: EditorState, field: Field) -> bool {
    &&& (f.input_mode == Some(field))
    &&& (f.input@ == match field { Field::Rename => if o.worker_cursor < o.workers@.len() { o.workers@[o.worker_cursor as int].name@ } else { Seq::empty() }, Field::Task => o.task@, Field::Budget => match o.budget { Some(b) => decimal(b as nat), None => Seq::empty(), }, _ => Seq::empty(), })
    &&& (f.workers == o.workers)
    &&& (f.worker_cursor == o.worker_cursor)
    &&& (f.task == o.task)
    &&& (f.budget == o.budget)
    &&& (f.name == o.name)
    &&& (f.path == o.path)
}

/// What `save_requested` does (its contract).
pub open spec fn save_post(o: EditorState, f: EditorState, and_start: bool, a: Action) -> bool {
    &&& (f.workers == o.workers)
    &&& (o.path is None && o.name@.len() == 0 ==> a == Action::Continue && f.input_mode == Some(Field::ManifestName) && f.input@.len() == 0 && f.status@ == "name the manifest first"@)
    &&& (!(o.path is None && o.name@.len() == 0) ==> { exists|i: ManifestInput| input_ok(i, o) && if crate::run::validate_spec(i) is Err { a == Action::Continue && f.status@ == "fix validation errors first"@ } else { a == if and_start { Action::EditorSaveAndStart } else { Action::EditorSave } } })
}

/// What `commit` does (its contract).
pub open spec fn commit_post(o: EditorState, f: EditorState, field: Field) -> bool {
    &&& (field == Field::ManifestName && (trim_spec(o.input@).len() == 0 || trim_spec(o.input@).contains('/')) ==> f.status@ == "manifest name must be one path component"@ && f.name == o.name && f.input == o.input && f.input_mode == o.input_mode)
    &&& (field == Field::ManifestName && !(trim_spec(o.input@).len() == 0 || trim_spec(o.input@).contains('/')) ==> f.name@ == trim_spec(o.input@) && f.input_mode is None && f.input@.len() == 0)
    &&& (field == Field::NewName && trim_spec(o.input@).len() == 0 ==> f == o)
    &&& (field == Field::NewName && trim_spec(o.input@).len() > 0 ==> { &&& f.workers@.len() == o.workers@.len() + 1 &&& f.workers@.last().name@ == trim_spec(o.input@) &&& f.workers@.last().pack@.len() == 0 &&& f.workers@.last().tools@.len() == 0 &&& f.worker_cursor == o.workers@.len() &&& f.focus == Focus::Workers &&& f.input_mode is None })
    &&& (field == Field::Task ==> f.task@ == trim_spec(o.input@) && f.input_mode is None)
    &&& (field == Field::Budget && trim_spec(o.input@).len() == 0 ==> f.budget is None && f.input_mode is None)
    &&& (field == Field::Budget && trim_spec(o.input@).len() > 0 ==> match parse_u64_spec(trim_spec(o.input@)) { Some(b) => f.budget == Some(b) && f.input_mode is None, None => f.budget == o.budget && f.status@ == "budget must be a whole number"@ && f.input_mode == o.input_mode, })
    &&& ((field == Field::AddTool && (exists|k: int| 0 <= k < tool_pieces(trim_spec(o.input@)).len() && (#[trigger] tool_pieces( trim_spec(o.input@), )[k]).len() == 0) && trim_spec(o.input@).len() > 0) ==> f.status@ == "tool name must not be empty"@ && f.workers == o.workers && f.input_mode == o.input_mode)
    &&& (!commit_ok(field, o.input@) ==> f.input == o.input && f.input_mode == o.input_mode && f.workers == o.workers)
    &&& (commit_ok(field, o.input@) ==> { &&& f.input@.len() == 0 &&& f.input_mode is None &&& exists|i: ManifestInput| input_ok(i, f) && f.status@ == status_for(crate::run::validate_spec(i)) })
    &&& (field != Field::ManifestName ==> f.name == o.name)
    &&& (field != Field::Task ==> f.task == o.task)
    &&& (field != Field::Budget ==> f.budget == o.budget)
    &&& (f.path == o.path)
    &&& (f.adapter == o.adapter)
    &&& (f.skills == o.skills)
    &&& (f.save_target == o.save_target)
    &&& (field == Field::ManifestName || field == Field::Task || field == Field::Budget ==> f.workers == o.workers)
    &&& (field == Field::Rename ==> if o.worker_cursor < o.workers@.len() { let c = o.worker_cursor as int; &&& f.workers@.len() == o.workers@.len() &&& f.workers@[c].name@ == trim_spec(o.input@) &&& f.workers@[c].pack == o.workers@[c].pack &&& f.workers@[c].tools == o.workers@[c].tools &&& forall|k: int| 0 <= k < f.workers@.len() && k != c ==> #[trigger] f.workers@[k] == o.workers@[k] } else { f.workers == o.workers })
    &&& (field == Field::AddTool && commit_ok(field, o.input@) ==> if trim_spec(o.input@).len() > 0 && o.worker_cursor < o.workers@.len() { let c = o.worker_cursor as int; &&& f.workers@.len() == o.workers@.len() &&& views(f.workers@[c].tools@) == with_tools( views(o.workers@[c].tools@), tool_pieces(trim_spec(o.input@)), ) &&& f.workers@[c].name == o.workers@[c].name &&& f.workers@[c].pack == o.workers@[c].pack &&& forall|k: int| 0 <= k < f.workers@.len() && k != c ==> #[trigger] f.workers@[k] == o.workers@[k] } else { f.workers == o.workers })
}

/// What `input_key` does (its contract).
pub open spec fn input_post(o: EditorState, f: EditorState, field: Field, key: KeyPress, a: Action) -> bool {
    &&& (a == Action::Continue)
    &&& (key.key == Key::Esc ==> f.input@.len() == 0 && f.input_mode is None)
    &&& (key.key == Key::Enter ==> commit_post(o, f, field))
    &&& (key.key == Key::Backspace ==> f.input@ == if o.input@.len() > 0 { o.input@.drop_last() } else { o.input@ })
    &&& (key.key == Key::Tab && field == Field::ManifestName ==> f.save_target != o.save_target)
    &&& ((key.key matches Key::Char(c) && (key.plain || key.shift)) ==> f.input@ == o.input@.push(key.key->Char_0))
}

/// Whether committing `input` to `field` takes: a manifest name must be one
/// non-empty path component, a new worker needs a name, a budget must be
/// empty or a whole number, and added tools must all be named.
pub open spec fn commit_ok(field: Field, input: Seq<char>) -> bool {
    let v = trim_spec(input);
    match field {
        Field::ManifestName => !(v.len() == 0 || v.contains('/')),
        Field::NewName => v.len() > 0,
        Field::Rename => true,
        Field::Task => true,
        Field::Budget => v.len() == 0 || parse_u64_spec(v) is Some,
        Field::AddTool => v.len() == 0 || forall|k: int| 0 <= k < tool_pieces(v).len() ==> (#[trigger] tool_pieces(v)[k]).len() > 0,
    }
}

/// What a key does while a field is typed: Escape drops the text, Enter
/// commits it, Backspace deletes a character, Tab switches the save target
/// (while naming a manifest), and characters typed with or without Shift
/// are added.
pub fn input_key(state: &mut EditorState, field: Field, key: &KeyPress) -> (a: Action)
    ensures
        input_post(*old(state), *final(state), field, *key, a),
{
    match key.key {
        Key::Esc => {
            state.input = String::new();
            state.input_mode = None;
        },
        Key::Enter => {
            state.commit(field);
        },
        Key::Backspace => {
            state.input = pop_char(&state.input);
        },
        Key::Tab => {
            if field == Field::ManifestName {
                state.save_target = state.save_target.toggle();
            }
        },
        Key::Char(c) => {
            if key.plain || key.shift {
                state.input = push_char(&state.input, c);
            }
        },
        _ => {},
    }
    Action::Continue
}

/// What a key does in the editor outside of typing (see `handle_key`).
pub open spec fn editor_key_post(o: EditorState, f: EditorState, key: KeyPress, a: Action) -> bool {
    let k = key.key;
    if k == Key::Char('q') {
        a == Action::Quit && f == o
    } else if k == Key::Char('S') {
        save_post(o, f, true, a)
    } else if k == Key::Esc {
        a == Action::Pop && f == o
    } else if k == Key::Tab {
        a == Action::Continue && focus_post(o, f)
    } else if key.is_up() {
        a == Action::Continue && move_post(o, f, false)
    } else if key.is_down() {
        a == Action::Continue && move_post(o, f, true)
    } else if k == Key::Char(' ') {
        a == Action::Continue && if o.focus == Focus::Tools {
            tool_toggle_post(o, f)
        } else {
            skill_toggle_post(o, f)
        }
    } else if k == Key::Char('s') && key.shift {
        save_post(o, f, true, a)
    } else if !key.plain {
        a == Action::Continue && f == o
    } else if k == Key::Char('r') {
        a == Action::Continue && begin_post(o, f, Field::Rename)
    } else if k == Key::Char('d') {
        a == Action::Continue && delete_post(o, f)
    } else if k == Key::Char('w') {
        a == Action::Continue && begin_post(o, f, Field::NewName)
    } else if k == Key::Char('t') {
        a == Action::Continue && begin_post(o, f, Field::Task)
    } else if k == Key::Char('b') {
        a == Action::Continue && begin_post(o, f, Field::Budget)
    } else if k == Key::Char('a') {
        a == Action::Continue && begin_post(o, f, Field::AddTool)
    } else if k == Key::Char('c') {
        a == Action::Continue && cycle_post(o, f)
    } else if k == Key::Char('p') {
        a == Action::Continue && f == EditorState { pin_hashes: !o.pin_hashes, ..o }
    } else if k == Key::Char('f') {
        a == Action::Finish && f == o
    } else if k == Key::Char('s') {
        save_post(o, f, false, a)
    } else {
        a == Action::Continue && f == o
    }
}

/// What a key does in the editor. While typing, see `input_key`.
/// Otherwise: `q` quits and Escape goes back; Tab cycles the panes; up/`k`
/// and down/`j` move; Space toggles the skill (or tool) under the cursor;
/// `r` renames, `w` adds, `d` deletes a worker; `t`, `b` and `a` type the
/// task, the budget and tools; `c` cycles the adapter; `p` pins hashes on
/// save; `f` finishes the live run; `s` saves and `S` saves and starts.
pub fn handle_key(state: &mut EditorState, key: &KeyPress) -> (a: Action)
    ensures
        !key.press ==> a == Action::Continue && *final(state) == *old(state),
        key.press && old(state).input_mode is Some ==> input_post(
            *old(state),
            *final(state),
            old(state).input_mode->Some_0,
            *key,
            a,
        ),
        key.press && old(state).input_mode is None ==> editor_key_post(*old(state), *final(state), *key, a),
{
    if !key.press {
        return Action::Continue;
    }
    match state.input_mode {
        Some(field) => {
            return input_key(state, field, key);
        },
        None => {},
    }
    match key.key {
        Key::Char(c) => {
            if c == 'q' {
                return Action::Quit;
            }
            if c == 'S' {
                return state.save_requested(true);
            }
        },
        Key::Esc => {
            return Action::Pop;
        },
        Key::Tab => {
            state.toggle_focus();
            return Action::Continue;
        },
        _ => {},
    }
    if key.up() {
        state.move_cursor(false);
        return Action::Continue;
    }
    if key.down() {
        state.move_cursor(true);
        return Action::Continue;
    }
    if key.key == Key::Char(' ') {
        if state.focus == Focus::Tools {
            state.toggle_tool();
        } else {
            state.toggle_skill();
        }
        return Action::Continue;
    }
    if key.key == Key::Char('s') && key.shift {
        return state.save_requested(true);
    }
    if !key.plain {
        return Action::Continue;
    }
    match key.key {
        Key::Char(c) => {
            if c == 'r' {
                state.begin_input(Field::Rename);
            } else if c == 'd' {
                state.delete_worker();
            } else if c == 'w' {
                state.begin_input(Field::NewName);
            } else if c == 't' {
                state.begin_input(Field::Task);
            } else if c == 'b' {
                state.begin_input(Field::Budget);
            } else if c == 'a' {
                state.begin_input(Field::AddTool);
            } else if c == 'c' {
                state.cycle_adapter();
            } else if c == 'p' {
                state.pin_hashes = !state.pin_hashes;
            } else if c == 'f' {
                return Action::Finish;
            } else if c == 's' {
                return state.save_requested(false);
            }
            Action::Continue
        },
        _ => Action::Continue,
    }
}


/// A pack entry pinned at the hash of its locked skill: `name@hash`, or
/// `name@` when no locked skill carries the name.
pub open spec fn hashed_pin(entry: Seq<char>, locked: Seq<crate::resolve::Locked>) -> Seq<char> {
    base_name(entry) + "@"@ + match crate::resolve::first_locked(locked, base_name(entry), 0) {
        Some(i) => locked[i].hash@,
        None => Seq::empty(),
    }
}

/// The pack entries of one worker pinned at their hashes.
fn hashed_pack(pack: &Vec<String>, locked: &[crate::resolve::Locked]) -> (r: Vec<String>)
    ensures
        views(r@) == views(pack@).map_values(|e: Seq<char>| hashed_pin(e, locked@)),
{
    let mut out: Vec<String> = Vec::new();
    let mut i: usize = 0;
    while i < pack.len()
        invariant
            0 <= i <= pack@.len(),
            views(out@) == views(pack@).take(i as int).map_values(|e: Seq<char>| hashed_pin(e, locked@)),
        decreases pack@.len() - i,
    {
        let base = entry_base_name(&pack[i]);
        let mut v: Vec<char> = Vec::new();
        push_str(&mut v, base.as_str());
        push_str(&mut v, "@");
        match crate::resolve::find_locked(locked, &base) {
            Some(k) => push_str(&mut v, locked[k].hash.as_str()),
            None => {},
        }
        let ghost before = views(out@);
        let pinned = string_from_chars(&v);
        assert(pinned@ == hashed_pin(pack@[i as int]@, locked@));
        out.push(pinned);
        assert(views(out@) =~= before.push(hashed_pin(pack@[i as int]@, locked@)));
        assert(views(pack@).take(i + 1) =~= views(pack@).take(i as int).push(pack@[i as int]@));
        assert(views(pack@).take(i + 1).map_values(|e: Seq<char>| hashed_pin(e, locked@)) =~= views(pack@).take(
            i as int,
        ).map_values(|e: Seq<char>| hashed_pin(e, locked@)).push(hashed_pin(pack@[i as int]@, locked@)));
        i = i + 1;
    }
    assert(views(pack@).take(i as int) =~= views(pack@));
    out
}

/// The manifest input with every pack entry pinned at the hash its skill
/// resolved to (the editor's "pin hashes" save); everything else unchanged.
pub fn hash_pins(input: ManifestInput, locked: &[crate::resolve::Locked]) -> (r: ManifestInput)
    ensures
        r.schema == input.schema,
        r.task == input.task,
        r.adapter == input.adapter,
        r.run_id == input.run_id,
        r.created_at == input.created_at,
        r.harness_argv == input.harness_argv,
        r.budget == input.budget,
        r.workers@.len() == input.workers@.len(),
        forall|k: int| 0 <= k < r.workers@.len() ==> {
            &&& (#[trigger] r.workers@[k]).name == input.workers@[k].name
            &&& r.workers@[k].description == input.workers@[k].description
            &&& r.workers@[k].tools == input.workers@[k].tools
            &&& views(r.workers@[k].pack@) == views(input.workers@[k].pack@).map_values(
                |e: Seq<char>| hashed_pin(e, locked@),
            )
        },
{
    let ManifestInput { schema, task, adapter, run_id, created_at, harness_argv, budget, workers } = input;
    let ghost w0 = workers@;
    let mut rest = workers;
    let mut rev: Vec<Worker> = Vec::new();
    while rest.len() > 0
        invariant
            rest@ == w0.take(rest@.len() as int),
            rest@.len() + rev@.len() == w0.len(),
            forall|k: int| 0 <= k < rev@.len() ==> {
                let j = w0.len() - 1 - k;
                &&& (#[trigger] rev@[k]).name == w0[j].name
                &&& rev@[k].description == w0[j].description
                &&& rev@[k].tools == w0[j].tools
                &&& views(rev@[k].pack@) == views(w0[j].pack@).map_values(|e: Seq<char>| hashed_pin(e, locked@))
            },
        decreases rest@.len(),
    {
        let ghost n = rest@.len();
        let w = rest.pop().unwrap();
        assert(w == w0[n - 1]);
        assert(rest@ =~= w0.take(n - 1));
        let pack = hashed_pack(&w.pack, locked);
        rev.push(Worker { name: w.name, pack, description: w.description, tools: w.tools });
    }
    let mut out: Vec<Worker> = Vec::new();
    while rev.len() > 0
        invariant
            rev@.len() + out@.len() == w0.len(),
            forall|k: int| 0 <= k < rev@.len() ==> {
                let j = w0.len() - 1 - k;
                &&& (#[trigger] rev@[k]).name == w0[j].name
                &&& rev@[k].description == w0[j].description
                &&& rev@[k].tools == w0[j].tools
                &&& views(rev@[k].pack@) == views(w0[j].pack@).map_values(|e: Seq<char>| hashed_pin(e, locked@))
            },
            forall|k: int| 0 <= k < out@.len() ==> {
                &&& (#[trigger] out@[k]).name == w0[k].name
                &&& out@[k].description == w0[k].description
                &&& out@[k].tools == w0[k].tools
                &&& views(out@[k].pack@) == views(w0[k].pack@).map_values(|e: Seq<char>| hashed_pin(e, locked@))
            },
        decreases rev@.len(),
    {
        let ghost n = rev@.len();
        let w = rev.pop().unwrap();
        assert(w == rev@.push(w)[n - 1]);
        out.push(w);
    }
    ManifestInput { schema, task, adapter, run_id, created_at, harness_argv, budget, workers: out }
}


impl EditorState {
    /// Where the editor's manifest is written: the file it was loaded from,
    /// else `<name>.toml` in the directory of its save target.
    pub fn save_path(&self, home: Option<&str>) -> (r: Result<String, String>)
        ensures
            match self.path {
                Some(p) => r == Ok::<String, String>(p),
                None => match self.save_target {
                    SaveTarget::Project => r matches Ok(a) && a@ == crate::paths::join_spec(
                        crate::paths::join_spec("lunchbox"@, "manifests"@),
                        self.name@ + ".toml"@,
                    ),
                    SaveTarget::Home => match home {
                        Some(h) => r matches Ok(a) && a@ == crate::paths::join_spec(
                            crate::paths::join_spec(crate::paths::join_spec(h@, ".lunchbox"@), "manifests"@),
                            self.name@ + ".toml"@,
                        ),
                        None => r matches Err(m) && m@ == crate::config::home_unset_message(),
                    },
                },
            },
    {
        match &self.path {
            Some(p) => Ok(p.clone()),
            None => match self.save_target.dir(home) {
                Ok(d) => {
                    let file = concat(self.name.as_str(), ".toml");
                    Ok(crate::paths::join(d.as_str(), file.as_str()))
                },
                Err(m) => Err(m),
            },
        }
    }
}

} // verus!
