//! Runs: the manifest a run is started from, the lock of what it mounted,
//! its status and its result.
use crate::clock::{iso_spec, now_iso, UtcTime};
use crate::paths::{join, join_spec};
use crate::resolve::{find_locked, first_locked, pack_tokens, worker_tokens, Locked};
use crate::text::{
    chars_le, chars_of, clone_strings, contains_string, decimal, dedup_spec, dedup_strings,
    find_char, find_char_spec, lemma_find_char, push_decimal, push_str, rearranges, slice_chars,
    sort_by_keys, starts_with, starts_with_spec, string_from_chars, to_string, views,
    sorted_chars, lemma_views_rearranges};
use vstd::prelude::*;


verus! {

/// The token budget of a run.
#[derive(Debug, Clone, Copy, PartialEq, Eq, Structural)]
pub struct Budget {
    pub max_menu_tokens: u64,
}

/// One worker of a run and the pack of skills it gets.
#[derive(Debug, Clone, PartialEq)]
pub struct Worker {
    pub name: String,
    pub pack: Vec<String>,
    pub description: Option<String>,
    pub tools: Option<Vec<String>>,
}

impl Worker {
    /// The single worker of a run started from `--skill` pins.
    pub fn default_pack(pack: Vec<String>) -> (w: Worker)
        ensures
            w.name@ == "default"@,
            w.pack == pack,
            w.description is None,
            w.tools is None,
    {
        Worker { name: to_string("default"), pack, description: None, tools: None }
    }
}

/// The manifest recorded in a run directory.
#[derive(Debug, Clone, PartialEq)]
pub struct Manifest {
    pub schema: u32,
    pub run_id: String,
    pub task: String,
    pub adapter: String,
    pub created_at: String,
    pub harness_argv: Vec<String>,
    pub budget: Budget,
    pub workers: Vec<Worker>,
}

/// A manifest as a user writes it, to start a run from (`--from`).
#[derive(Debug, Clone, PartialEq)]
pub struct ManifestInput {
    pub schema: u32,
    pub task: String,
    pub adapter: String,
    pub run_id: Option<String>,
    pub created_at: Option<String>,
    pub harness_argv: Option<Vec<String>>,
    pub budget: Option<Budget>,
    pub workers: Vec<Worker>,
}

/// The names of the workers.
pub open spec fn worker_names(workers: Seq<Worker>) -> Seq<Seq<char>> {
    workers.map_values(|w: Worker| w.name@)
}

/// A worker name that names one directory: not empty, without `/`, and
/// neither `.` nor `..`.
pub open spec fn single_component_spec(name: Seq<char>) -> bool {
    name.len() > 0 && !name.contains('/') && name != "."@ && name != ".."@
}

/// Whether a worker name names one directory (see `single_component_spec`).
pub fn single_component(name: &str) -> (b: bool)
    ensures
        b == single_component_spec(name@),
{
    let v = chars_of(name);
    v.len() > 0 && !crate::text::contains_char(&v, '/') && !crate::text::str_eq(name, ".") && !crate::text::str_eq(name, "..")
}

/// Why a manifest is refused, checked in this order: a schema other than 1,
/// no workers, then the first worker (in manifest order) whose name is not a
/// single path component, repeats an earlier name, or has an empty pack.
pub open spec fn validate_spec(input: ManifestInput) -> Result<(), Seq<char>> {
    let ws = input.workers@;
    if input.schema != 1 {
        Err("manifest schema "@ + decimal(input.schema as nat) + " not supported (expected 1)"@)
    } else if ws.len() == 0 {
        Err("manifest has no workers"@)
    } else {
        validate_workers_spec(ws, 0)
    }
}

/// The verdict on the workers from position `i` on, the earlier ones having passed.
pub open spec fn validate_workers_spec(ws: Seq<Worker>, i: int) -> Result<(), Seq<char>>
    decreases ws.len() - i,
{
    if i < 0 || i >= ws.len() {
        Ok(())
    } else if !single_component_spec(ws[i].name@) {
        Err("worker name '"@ + ws[i].name@ + "' must be a single path component"@)
    } else if worker_names(ws).take(i).contains(ws[i].name@) {
        Err("duplicate worker name '"@ + ws[i].name@ + "' in manifest"@)
    } else if ws[i].pack@.len() == 0 {
        Err("worker '"@ + ws[i].name@ + "' has an empty pack"@)
    } else {
        validate_workers_spec(ws, i + 1)
    }
}

impl ManifestInput {
    /// Checks the manifest (see `validate_spec`). On success every worker has
    /// a distinct name and a non-empty pack.
    pub fn validate(&self) -> (r: Result<&Self, String>)
        ensures
            match r {
                Ok(me) => me == self && validate_spec(*self) is Ok,
                Err(m) => validate_spec(*self) == Err::<(), Seq<char>>(m@),
            },
            r is Ok ==> worker_names(self.workers@).no_duplicates() && forall|i: int|
                0 <= i < self.workers@.len() ==> #[trigger] self.workers@[i].pack@.len() > 0
                    && single_component_spec(self.workers@[i].name@),
    {
        if self.schema != 1 {
            let mut m: Vec<char> = Vec::new();
            push_str(&mut m, "manifest schema ");
            push_decimal(&mut m, self.schema as u128);
            push_str(&mut m, " not supported (expected 1)");
            return Err(string_from_chars(&m));
        }
        if self.workers.len() == 0 {
            return Err(to_string("manifest has no workers"));
        }
        let ghost ws = self.workers@;
        let mut seen: Vec<String> = Vec::new();
        let mut i: usize = 0;
        while i < self.workers.len()
            invariant
                0 <= i <= ws.len(),
                ws == self.workers@,
                self.schema == 1,
                ws.len() > 0,
                views(seen@) == worker_names(ws).take(i as int),
                validate_workers_spec(ws, 0) == validate_workers_spec(ws, i as int),
                worker_names(ws).take(i as int).no_duplicates(),
                forall|k: int| 0 <= k < i ==> #[trigger] ws[k].pack@.len() > 0 && single_component_spec(ws[k].name@),
            decreases ws.len() - i,
        {
            let worker = &self.workers[i];
            if !single_component(worker.name.as_str()) {
                let mut m: Vec<char> = Vec::new();
                push_str(&mut m, "worker name '");
                push_str(&mut m, worker.name.as_str());
                push_str(&mut m, "' must be a single path component");
                return Err(string_from_chars(&m));
            }
            if contains_string(&seen, &worker.name) {
                let mut m: Vec<char> = Vec::new();
                push_str(&mut m, "duplicate worker name '");
                push_str(&mut m, worker.name.as_str());
                push_str(&mut m, "' in manifest");
                return Err(string_from_chars(&m));
            }
            if worker.pack.len() == 0 {
                let mut m: Vec<char> = Vec::new();
                push_str(&mut m, "worker '");
                push_str(&mut m, worker.name.as_str());
                push_str(&mut m, "' has an empty pack");
                return Err(string_from_chars(&m));
            }
            let ghost before = views(seen@);
            seen.push(worker.name.clone());
            proof {
                assert(views(seen@) =~= before.push(worker.name@));
                assert(worker_names(ws).take(i + 1) =~= worker_names(ws).take(i as int).push(ws[i as int].name@));
            }
            i = i + 1;
        }
        assert(worker_names(ws).take(i as int) =~= worker_names(ws));
        Ok(self)
    }
}

/// The lock written for a run: what was resolved and mounted.
#[derive(Debug, Clone, PartialEq)]
pub struct Lock {
    pub schema: u32,
    pub run_id: String,
    pub resolved_at: String,
    pub mount_mode: String,
    pub workdir: String,
    pub skills: Vec<LockSkill>,
}

/// One locked skill and the workers whose packs hold it.
#[derive(Debug, Clone, PartialEq)]
pub struct LockSkill {
    pub name: String,
    pub source: String,
    pub hash: String,
    pub scan: String,
    pub description_tokens: u64,
    pub workers: Vec<String>,
}

/// How a run ended.
#[derive(Debug, Clone, Copy, PartialEq, Eq, Structural)]
pub enum Outcome {
    Completed,
    Aborted,
}

impl Outcome {
    pub open spec fn name_spec(self) -> Seq<char> {
        match self {
            Outcome::Completed => "ok"@,
            Outcome::Aborted => "aborted"@,
        }
    }

    pub fn as_str(self) -> (s: &'static str)
        ensures
            s@ == self.name_spec(),
    {
        match self {
            Outcome::Completed => "ok",
            Outcome::Aborted => "aborted",
        }
    }
}

/// Where a run stands.
#[derive(Debug, Clone, Copy, PartialEq, Eq, Structural)]
pub enum RunStatus {
    Mounted,
    Running,
    Finished,
    Aborted,
    Leaked,
}

impl RunStatus {
    pub open spec fn name_spec(self) -> Seq<char> {
        match self {
            RunStatus::Mounted => "mounted"@,
            RunStatus::Running => "running"@,
            RunStatus::Finished => "finished"@,
            RunStatus::Aborted => "aborted"@,
            RunStatus::Leaked => "leaked"@,
        }
    }

    pub fn as_str(self) -> (s: &'static str)
        ensures
            s@ == self.name_spec(),
    {
        match self {
            RunStatus::Mounted => "mounted",
            RunStatus::Running => "running",
            RunStatus::Finished => "finished",
            RunStatus::Aborted => "aborted",
            RunStatus::Leaked => "leaked",
        }
    }
}

/// The `result.json` of a finished or aborted run.
#[derive(Debug, Clone, PartialEq)]
pub struct RunResult {
    pub run_id: String,
    pub outcome: String,
    pub menu_tokens: u64,
    pub without_menu_tokens: u64,
    pub skills: Vec<ResultSkill>,
    pub unmounted: bool,
}

/// One skill that a run had mounted.
#[derive(Debug, Clone, PartialEq)]
pub struct ResultSkill {
    pub name: String,
    pub hash: String,
}

/// A run that has been resolved, mounted and recorded, as `start` reports it.
#[derive(Debug, Clone, PartialEq)]
pub struct PreparedRun {
    pub run_id: String,
    pub run_dir: String,
    pub workdir: String,
    pub locked: Vec<Locked>,
    pub mount_mode: crate::config::MountMode,
    pub menu_tokens: u64,
    pub without_tokens: u64,
    pub without_skills: usize,
    pub workers: Vec<Worker>,
    pub worker_tokens: Vec<WorkerTokens>,
    pub packs_layout: bool,
    pub parent_pack: String,
}

/// The tokens of one worker's pack.
#[derive(Debug, Clone, PartialEq)]
pub struct WorkerTokens {
    pub name: String,
    pub menu_tokens: u64,
}

/// The status of a run from what its directory holds: a result decides
/// (aborted or finished); else a recorded pid decides (running if alive,
/// leaked if not); else a workdir means mounted; else leaked.
pub open spec fn run_status_spec(
    result_outcome: Option<Seq<char>>,
    pid_alive: Option<bool>,
    workdir_exists: bool,
) -> RunStatus {
    match result_outcome {
        Some(outcome) => if outcome == "aborted"@ {
            RunStatus::Aborted
        } else {
            RunStatus::Finished
        },
        None => match pid_alive {
            Some(alive) => if alive {
                RunStatus::Running
            } else {
                RunStatus::Leaked
            },
            None => if workdir_exists {
                RunStatus::Mounted
            } else {
                RunStatus::Leaked
            },
        },
    }
}

/// The status of a run, given the outcome in its `result.json` if it has a
/// readable one, whether the process of its recorded pid is alive if it
/// records one, and whether its workdir exists.
pub fn run_status(result_outcome: Option<&str>, pid_alive: Option<bool>, workdir_exists: bool) -> (s: RunStatus)
    ensures
        s == run_status_spec(crate::config::opt_view(result_outcome), pid_alive, workdir_exists),
{
    match result_outcome {
        Some(outcome) => if crate::text::str_eq(outcome, "aborted") {
            RunStatus::Aborted
        } else {
            RunStatus::Finished
        },
        None => match pid_alive {
            Some(alive) => if alive {
                RunStatus::Running
            } else {
                RunStatus::Leaked
            },
            None => if workdir_exists {
                RunStatus::Mounted
            } else {
                RunStatus::Leaked
            },
        },
    }
}

/// Whether garbage collection removes a run: never a running one; always a
/// leaked one; else only a stale one.
pub open spec fn gc_removes_spec(status: RunStatus, stale: bool) -> bool {
    status != RunStatus::Running && (status == RunStatus::Leaked || stale)
}

/// What garbage collection removes: a running run never; a leaked run
/// always; any other run (finished, aborted, unknown) exactly when it is
/// older than the threshold.
pub proof fn gc_removes_law(status: RunStatus, stale: bool)
    ensures
        status == RunStatus::Running ==> !gc_removes_spec(status, stale),
        status == RunStatus::Leaked ==> gc_removes_spec(status, stale),
        status != RunStatus::Running ==> (stale ==> gc_removes_spec(status, stale)),
        status != RunStatus::Leaked ==> (!stale ==> !gc_removes_spec(status, stale)),
{
}

pub fn gc_removes(status: RunStatus, stale: bool) -> (b: bool)
    ensures
        b == gc_removes_spec(status, stale),
        status == RunStatus::Running ==> !b,
        status == RunStatus::Leaked ==> b,
        status != RunStatus::Running && stale ==> b,
        status != RunStatus::Leaked && !stale ==> !b,
{
    !matches!(status, RunStatus::Running) && (matches!(status, RunStatus::Leaked) || stale)
}


/// The tool names of a worker, if it lists any.
pub open spec fn tools_view(tools: Option<Vec<String>>) -> Option<Seq<Seq<char>>> {
    match tools {
        Some(t) => Some(views(t@)),
        None => None,
    }
}

impl Worker {
    /// A copy of this worker.
    pub fn copy(&self) -> (r: Worker)
        ensures
            r.name == self.name,
            r.pack@ == self.pack@,
            r.description == self.description,
            tools_view(r.tools) == tools_view(self.tools),
    {
        Worker {
            name: self.name.clone(),
            pack: clone_strings(&self.pack),
            description: match &self.description {
                Some(d) => Some(d.clone()),
                None => None,
            },
            tools: match &self.tools {
                Some(t) => Some(clone_strings(t)),
                None => None,
            },
        }
    }
}

/// A copy of a slice of strings as a vector.
pub fn strings_of(s: &[String]) -> (r: Vec<String>)
    ensures
        r@ == s@,
{
    let mut r: Vec<String> = Vec::new();
    let mut i: usize = 0;
    while i < s.len()
        invariant
            0 <= i <= s@.len(),
            r@ == s@.take(i as int),
        decreases s@.len() - i,
    {
        r.push(s[i].clone());
        i = i + 1;
        assert(s@.take(i as int) =~= s@.take(i - 1).push(s@[i - 1]));
    }
    assert(s@.take(i as int) =~= s@);
    r
}

/// The manifest of a run, created at `created_at`.
pub fn build_manifest_at(
    run_id: &str,
    task: &str,
    adapter: &str,
    harness_argv: &[String],
    max_menu_tokens: u64,
    workers: Vec<Worker>,
    created_at: String,
) -> (m: Manifest)
    ensures
        m.schema == 1,
        m.run_id@ == run_id@,
        m.task@ == task@,
        m.adapter@ == adapter@,
        m.created_at == created_at,
        m.harness_argv@ == harness_argv@,
        m.budget.max_menu_tokens == max_menu_tokens,
        m.workers == workers,
{
    Manifest {
        schema: 1,
        run_id: to_string(run_id),
        task: to_string(task),
        adapter: to_string(adapter),
        created_at,
        harness_argv: strings_of(harness_argv),
        budget: Budget { max_menu_tokens },
        workers,
    }
}

/// The manifest of a run, created now.
pub fn build_manifest(
    run_id: &str,
    task: &str,
    adapter: &str,
    harness_argv: &[String],
    max_menu_tokens: u64,
    workers: Vec<Worker>,
) -> (m: Manifest)
    ensures
        m.schema == 1,
        m.run_id@ == run_id@,
        m.task@ == task@,
        m.adapter@ == adapter@,
        exists|t: UtcTime| t.wf() && m.created_at@ == iso_spec(t),
        m.harness_argv@ == harness_argv@,
        m.budget.max_menu_tokens == max_menu_tokens,
        m.workers == workers,
{
    let created_at = now_iso();
    build_manifest_at(run_id, task, adapter, harness_argv, max_menu_tokens, workers, created_at)
}

/// The names of the workers whose packs hold `name`, in manifest order.
pub open spec fn holders(workers: Seq<Worker>, name: Seq<char>) -> Seq<Seq<char>>
    decreases workers.len(),
{
    if workers.len() == 0 {
        Seq::empty()
    } else {
        let w = workers.last();
        holders(workers.drop_last(), name) + if views(w.pack@).contains(name) {
            seq![w.name@]
        } else {
            Seq::empty()
        }
    }
}

/// The entry of the lock for one locked skill.
pub open spec fn lock_skill_spec(entry: LockSkill, l: Locked, workers: Seq<Worker>) -> bool {
    &&& entry.name == l.name
    &&& entry.source == l.source
    &&& entry.hash == l.hash
    &&& entry.scan == l.scan
    &&& entry.description_tokens == l.description_tokens
    &&& views(entry.workers@) == holders(workers, l.name@)
}

fn holder_names(workers: &[Worker], name: &String) -> (r: Vec<String>)
    ensures
        views(r@) == holders(workers@, name@),
{
    let mut r: Vec<String> = Vec::new();
    let mut i: usize = 0;
    while i < workers.len()
        invariant
            0 <= i <= workers@.len(),
            views(r@) == holders(workers@.take(i as int), name@),
        decreases workers@.len() - i,
    {
        let ghost before = views(r@);
        proof {
            assert(workers@.take(i + 1).drop_last() =~= workers@.take(i as int));
        }
        if contains_string(&workers[i].pack, name) {
            r.push(workers[i].name.clone());
            assert(views(r@) =~= before + seq![workers@[i as int].name@]);
        } else {
            assert(views(r@) =~= before + Seq::<Seq<char>>::empty());
        }
        i = i + 1;
    }
    assert(workers@.take(i as int) =~= workers@);
    r
}

/// The lock of a run, resolved at `resolved_at`: one entry per locked skill,
/// in order, each naming the workers whose packs hold it.
pub fn build_lock_at(
    run_id: &str,
    mount_mode: &str,
    workdir: &str,
    locked: &[Locked],
    workers: &[Worker],
    resolved_at: String,
) -> (lock: Lock)
    ensures
        lock.schema == 1,
        lock.run_id@ == run_id@,
        lock.resolved_at == resolved_at,
        lock.mount_mode@ == mount_mode@,
        lock.workdir@ == workdir@,
        lock.skills@.len() == locked@.len(),
        forall|i: int| 0 <= i < locked@.len() ==> lock_skill_spec(#[trigger] lock.skills@[i], locked@[i], workers@),
{
    let mut skills: Vec<LockSkill> = Vec::new();
    let mut i: usize = 0;
    while i < locked.len()
        invariant
            0 <= i <= locked@.len(),
            skills@.len() == i,
            forall|k: int| 0 <= k < i ==> lock_skill_spec(#[trigger] skills@[k], locked@[k], workers@),
        decreases locked@.len() - i,
    {
        let l = &locked[i];
        let entry = LockSkill {
            name: l.name.clone(),
            source: l.source.clone(),
            hash: l.hash.clone(),
            scan: l.scan.clone(),
            description_tokens: l.description_tokens,
            workers: holder_names(workers, &l.name),
        };
        skills.push(entry);
        i = i + 1;
    }
    Lock {
        schema: 1,
        run_id: to_string(run_id),
        resolved_at,
        mount_mode: to_string(mount_mode),
        workdir: to_string(workdir),
        skills,
    }
}

/// The lock of a run, resolved now.
pub fn build_lock(
    run_id: &str,
    mount_mode: &str,
    workdir: &str,
    locked: &[Locked],
    workers: &[Worker],
) -> (lock: Lock)
    ensures
        lock.schema == 1,
        lock.run_id@ == run_id@,
        exists|t: UtcTime| t.wf() && lock.resolved_at@ == iso_spec(t),
        lock.mount_mode@ == mount_mode@,
        lock.workdir@ == workdir@,
        lock.skills@.len() == locked@.len(),
        forall|i: int| 0 <= i < locked@.len() ==> lock_skill_spec(#[trigger] lock.skills@[i], locked@[i], workers@),
{
    let resolved_at = now_iso();
    build_lock_at(run_id, mount_mode, workdir, locked, workers, resolved_at)
}


/// The skill name of a pack entry: what comes before its first `@` (a pin
/// may add `@sha256:…` or another suffix after the name).
pub open spec fn base_name(entry: Seq<char>) -> Seq<char> {
    entry.take(find_char_spec(entry, '@') as int)
}

/// The skill names of the entries of a pack.
pub open spec fn base_names(pack: Seq<Seq<char>>) -> Seq<Seq<char>> {
    pack.map_values(|e: Seq<char>| base_name(e))
}

/// The first entry of `pack`, from position `j` on, whose skill name no
/// locked skill carries.
pub open spec fn unresolved_from(pack: Seq<Seq<char>>, locked: Seq<Locked>, j: int) -> Option<int>
    decreases pack.len() - j,
{
    if j < 0 || j >= pack.len() {
        None
    } else if first_locked(locked, base_name(pack[j]), 0) is None {
        Some(j)
    } else {
        unresolved_from(pack, locked, j + 1)
    }
}

/// The refusal for the first worker (from position `i` on) with an entry that
/// did not resolve, naming the worker and the entry as written.
pub open spec fn normalize_error(workers: Seq<Worker>, locked: Seq<Locked>, i: int) -> Option<Seq<char>>
    decreases workers.len() - i,
{
    if i < 0 || i >= workers.len() {
        None
    } else {
        match unresolved_from(views(workers[i].pack@), locked, 0) {
            Some(j) => Some(
                "worker '"@ + workers[i].name@ + "': skill '"@ + workers[i].pack@[j]@ + "' did not resolve"@,
            ),
            None => normalize_error(workers, locked, i + 1),
        }
    }
}

/// The skill name of a pack entry.
pub fn entry_base_name(entry: &String) -> (r: String)
    ensures
        r@ == base_name(entry@),
{
    let chars = chars_of(entry.as_str());
    let k = find_char(&chars, '@');
    proof {
        lemma_find_char(chars@, '@');
    }
    let base = slice_chars(&chars, 0, k);
    assert(base@ =~= base_name(entry@));
    string_from_chars(&base)
}

/// The skill names of a worker's pack, or the first entry that did not resolve.
fn resolve_pack(pack: &Vec<String>, locked: &[Locked]) -> (r: Result<Vec<String>, usize>)
    ensures
        match r {
            Ok(names) => unresolved_from(views(pack@), locked@, 0) is None && views(names@) == base_names(views(pack@)),
            Err(j) => unresolved_from(views(pack@), locked@, 0) == Some(j as int) && j < pack@.len(),
        },
{
    let ghost p = views(pack@);
    let mut names: Vec<String> = Vec::new();
    let mut j: usize = 0;
    while j < pack.len()
        invariant
            0 <= j <= pack@.len(),
            p == views(pack@),
            unresolved_from(p, locked@, 0) == unresolved_from(p, locked@, j as int),
            views(names@) == base_names(p).take(j as int),
        decreases pack@.len() - j,
    {
        let base = entry_base_name(&pack[j]);
        match find_locked(locked, &base) {
            None => {
                return Err(j);
            },
            Some(_) => {},
        }
        let ghost before = views(names@);
        let ghost b = base@;
        names.push(base);
        assert(views(names@) =~= before.push(b));
        assert(base_names(p)[j as int] == base_name(p[j as int]));
        assert(views(names@) =~= base_names(p).take(j + 1));
        j = j + 1;
    }
    assert(base_names(p).take(j as int) =~= base_names(p));
    Ok(names)
}

/// Each worker's pack as the names of the locked skills it pins, without
/// repeats (first occurrence kept). Refused when an entry names no locked
/// skill (see `normalize_error`).
pub fn normalize_packs(workers: Vec<Worker>, locked: &[Locked]) -> (r: Result<Vec<Worker>, String>)
    ensures
        match r {
            Ok(out) => {
                &&& normalize_error(workers@, locked@, 0) is None
                &&& out@.len() == workers@.len()
                &&& forall|i: int| 0 <= i < out@.len() ==> {
                    &&& (#[trigger] out@[i]).name == workers@[i].name
                    &&& out@[i].description == workers@[i].description
                    &&& tools_view(out@[i].tools) == tools_view(workers@[i].tools)
                    &&& views(out@[i].pack@) == dedup_spec(base_names(views(workers@[i].pack@)))
                }
            },
            Err(m) => normalize_error(workers@, locked@, 0) == Some(m@),
        },
{
    let ghost ws = workers@;
    let mut out: Vec<Worker> = Vec::new();
    let mut i: usize = 0;
    while i < workers.len()
        invariant
            0 <= i <= ws.len(),
            ws == workers@,
            normalize_error(ws, locked@, 0) == normalize_error(ws, locked@, i as int),
            out@.len() == i,
            forall|k: int| 0 <= k < i ==> {
                &&& (#[trigger] out@[k]).name == ws[k].name
                &&& out@[k].description == ws[k].description
                &&& tools_view(out@[k].tools) == tools_view(ws[k].tools)
                &&& views(out@[k].pack@) == dedup_spec(base_names(views(ws[k].pack@)))
            },
        decreases ws.len() - i,
    {
        let w = &workers[i];
        match resolve_pack(&w.pack, locked) {
            Err(j) => {
                let mut m: Vec<char> = Vec::new();
                push_str(&mut m, "worker '");
                push_str(&mut m, w.name.as_str());
                push_str(&mut m, "': skill '");
                push_str(&mut m, w.pack[j].as_str());
                push_str(&mut m, "' did not resolve");
                return Err(string_from_chars(&m));
            },
            Ok(names) => {
                let pack = dedup_strings(names);
                let description = match &w.description {
                    Some(d) => Some(d.clone()),
                    None => None,
                };
                let tools = match &w.tools {
                    Some(t) => Some(clone_strings(t)),
                    None => None,
                };
                out.push(Worker { name: w.name.clone(), pack, description, tools });
            },
        }
        i = i + 1;
    }
    Ok(out)
}

/// All pack entries of the workers, in order.
pub open spec fn all_pins(workers: Seq<Worker>) -> Seq<Seq<char>>
    decreases workers.len(),
{
    if workers.len() == 0 {
        Seq::empty()
    } else {
        all_pins(workers.drop_last()) + views(workers.last().pack@)
    }
}

proof fn lemma_all_pins_prefix_same(a: Seq<Worker>, b: Seq<Worker>)
    requires
        a.len() == b.len(),
        forall|i: int| 0 <= i < a.len() ==> (#[trigger] a[i]).pack@ == b[i].pack@,
    ensures
        all_pins(a) == all_pins(b),
    decreases a.len(),
{
    if a.len() > 0 {
        lemma_all_pins_prefix_same(a.drop_last(), b.drop_last());
        assert(a.last().pack@ == b.last().pack@);
    }
}

/// Workers with the same packs have the same pins.
pub proof fn lemma_all_pins_same(a: Seq<Worker>, b: Seq<Worker>)
    requires
        a.len() == b.len(),
        forall|i: int| 0 <= i < a.len() ==> (#[trigger] a[i]).pack@ == b[i].pack@,
    ensures
        all_pins(a) == all_pins(b),
{
    lemma_all_pins_prefix_same(a, b);
}

/// The pins to resolve for a run: every pack entry of every worker, in
/// order, each once.
pub fn collect_pins(workers: &[Worker]) -> (pins: Vec<String>)
    ensures
        views(pins@) == dedup_spec(all_pins(workers@)),
{
    let mut all: Vec<String> = Vec::new();
    let mut i: usize = 0;
    while i < workers.len()
        invariant
            0 <= i <= workers@.len(),
            views(all@) == all_pins(workers@.take(i as int)),
        decreases workers@.len() - i,
    {
        let pack = &workers[i].pack;
        let ghost before = views(all@);
        let mut j: usize = 0;
        while j < pack.len()
            invariant
                0 <= j <= pack@.len(),
                views(all@) == before + views(pack@).take(j as int),
            decreases pack@.len() - j,
        {
            let ghost mid = views(all@);
            all.push(pack[j].clone());
            assert(views(all@) =~= mid.push(pack@[j as int]@));
            assert(views(all@) =~= before + views(pack@).take(j + 1));
            j = j + 1;
        }
        assert(workers@.take(i + 1).drop_last() =~= workers@.take(i as int));
        assert(views(pack@).take(j as int) =~= views(pack@));
        i = i + 1;
    }
    assert(workers@.take(i as int) =~= workers@);
    dedup_strings(all)
}

/// The sum of the description tokens of the locked skills.
pub open spec fn locked_tokens_spec(locked: Seq<Locked>) -> nat
    decreases locked.len(),
{
    if locked.len() == 0 {
        0
    } else {
        locked_tokens_spec(locked.drop_last()) + locked.last().description_tokens as nat
    }
}

/// The menu tokens of a run: the description tokens of all its locked skills.
pub fn locked_tokens(locked: &[Locked]) -> (t: u64)
    requires
        locked_tokens_spec(locked@) <= u64::MAX,
    ensures
        t == locked_tokens_spec(locked@),
{
    let mut total: u64 = 0;
    let mut i: usize = 0;
    while i < locked.len()
        invariant
            0 <= i <= locked@.len(),
            total == locked_tokens_spec(locked@.take(i as int)),
            locked_tokens_spec(locked@) <= u64::MAX,
        decreases locked@.len() - i,
    {
        proof {
            assert(locked@.take(i + 1).drop_last() =~= locked@.take(i as int));
            lemma_locked_tokens_prefix(locked@, i + 1);
        }
        total = total + locked[i].description_tokens;
        i = i + 1;
    }
    assert(locked@.take(i as int) =~= locked@);
    total
}

proof fn lemma_locked_tokens_prefix(locked: Seq<Locked>, n: int)
    requires
        0 <= n <= locked.len(),
    ensures
        locked_tokens_spec(locked.take(n)) <= locked_tokens_spec(locked),
    decreases locked.len() - n,
{
    if n < locked.len() {
        lemma_locked_tokens_prefix(locked, n + 1);
        assert(locked.take(n + 1).drop_last() =~= locked.take(n));
    } else {
        assert(locked.take(n) =~= locked);
    }
}

/// The tokens of each worker's pack, in worker order.
pub fn worker_token_report(workers: &[Worker], locked: &[Locked]) -> (r: Vec<WorkerTokens>)
    requires
        forall|i: int| 0 <= i < workers@.len() ==> pack_tokens(views(#[trigger] workers@[i].pack@), locked@) <= u64::MAX,
    ensures
        r@.len() == workers@.len(),
        forall|i: int| 0 <= i < r@.len() ==> (#[trigger] r@[i]).name == workers@[i].name
            && r@[i].menu_tokens == pack_tokens(views(workers@[i].pack@), locked@),
{
    let mut r: Vec<WorkerTokens> = Vec::new();
    let mut i: usize = 0;
    while i < workers.len()
        invariant
            0 <= i <= workers@.len(),
            r@.len() == i,
            forall|k: int| 0 <= k < workers@.len() ==> pack_tokens(views(#[trigger] workers@[k].pack@), locked@) <= u64::MAX,
            forall|k: int| 0 <= k < i ==> (#[trigger] r@[k]).name == workers@[k].name
                && r@[k].menu_tokens == pack_tokens(views(workers@[k].pack@), locked@),
        decreases workers@.len() - i,
    {
        let t = worker_tokens(&workers[i].pack, locked);
        assert(pack_tokens(views(workers@[i as int].pack@), locked@) <= u64::MAX);
        r.push(WorkerTokens { name: workers[i].name.clone(), menu_tokens: t as u64 });
        i = i + 1;
    }
    r
}

/// The pack the parent harness runs in: the first worker's pack directory
/// under `packs` when the run uses per-worker packs, else the workdir.
pub fn parent_pack(workdir: &str, use_packs: bool, workers: &[Worker]) -> (p: String)
    requires
        use_packs ==> workers@.len() > 0,
    ensures
        p@ == if use_packs {
            join_spec(join_spec(workdir@, "packs"@), workers@[0].name@)
        } else {
            workdir@
        },
{
    if use_packs {
        let packs = join(workdir, "packs");
        join(packs.as_str(), workers[0].name.as_str())
    } else {
        to_string(workdir)
    }
}


/// A directory entry of the runs directory that is a run: a directory whose
/// name starts with `lbx_`.
pub open spec fn is_run_entry(name: Seq<char>, is_dir: bool) -> bool {
    is_dir && starts_with_spec(name, "lbx_"@)
}

/// The paths of the runs among `entries` (name, is-directory), in entry order.
pub open spec fn run_dir_paths(runs_dir: Seq<char>, entries: Seq<(String, bool)>) -> Seq<Seq<char>>
    decreases entries.len(),
{
    if entries.len() == 0 {
        Seq::empty()
    } else {
        let e = entries.last();
        run_dir_paths(runs_dir, entries.drop_last()) + if is_run_entry(e.0@, e.1) {
            seq![join_spec(runs_dir, e.0@)]
        } else {
            Seq::empty()
        }
    }
}

/// The run directories among the entries of `runs_dir`, sorted.
pub fn run_dirs(runs_dir: &str, entries: Vec<(String, bool)>) -> (dirs: Vec<String>)
    ensures
        exists|perm: Seq<int>, inv: Seq<int>| rearranges(views(dirs@), run_dir_paths(runs_dir@, entries@), perm, inv),
        sorted_chars(views(dirs@)),
{
    let mut paths: Vec<String> = Vec::new();
    let mut keys: Vec<Vec<char>> = Vec::new();
    let mut i: usize = 0;
    while i < entries.len()
        invariant
            0 <= i <= entries@.len(),
            views(paths@) == run_dir_paths(runs_dir@, entries@.take(i as int)),
            keys@.len() == paths@.len(),
            forall|k: int| 0 <= k < paths@.len() ==> #[trigger] keys@[k]@ == paths@[k]@,
        decreases entries@.len() - i,
    {
        let e = &entries[i];
        proof {
            assert(entries@.take(i + 1).drop_last() =~= entries@.take(i as int));
        }
        let ghost before = views(paths@);
        if e.1 && starts_with(&chars_of(e.0.as_str()), "lbx_") {
            let p = join(runs_dir, e.0.as_str());
            keys.push(chars_of(p.as_str()));
            paths.push(p);
            assert(views(paths@) =~= before + seq![join_spec(runs_dir@, e.0@)]);
        } else {
            assert(views(paths@) =~= before + Seq::<Seq<char>>::empty());
        }
        i = i + 1;
    }
    assert(entries@.take(i as int) =~= entries@);
    let ghost key = |s: String| s@;
    let ghost items = paths@;
    let (sorted, Ghost(pi)) = sort_by_keys(paths, keys, Ghost(key));
    proof {
        lemma_views_rearranges(sorted@, items, pi.0, pi.1);
        assert forall|a: int, b: int| 0 <= a < b < views(sorted@).len() implies chars_le(
            #[trigger] views(sorted@)[a],
            #[trigger] views(sorted@)[b],
        ) by {
            assert(chars_le(key(sorted@[a]), key(sorted@[b])));
        }
    }
    sorted
}

/// The newest run among the entries: the greatest run path in string order.
pub open spec fn is_latest(paths: Seq<Seq<char>>, p: Seq<char>) -> bool {
    paths.contains(p) && forall|j: int| 0 <= j < paths.len() ==> chars_le(#[trigger] paths[j], p)
}

/// There is at most one newest run: two paths that are each the newest of
/// the same runs are the same path. So the run `resolve_run_arg` picks when
/// no run is named is determined by the entries.
pub proof fn latest_is_unique(paths: Seq<Seq<char>>, p: Seq<char>, q: Seq<char>)
    requires
        is_latest(paths, p),
        is_latest(paths, q),
    ensures
        p == q,
{
    let i = choose|i: int| 0 <= i < paths.len() && paths[i] == p;
    let j = choose|j: int| 0 <= j < paths.len() && paths[j] == q;
    assert(chars_le(paths[j], p));
    assert(chars_le(paths[i], q));
    crate::text::lemma_chars_lt_total(p, q);
}

/// The newest run directory (the last in sorted order), if there is one.
pub fn latest_run(runs_dir: &str, entries: Vec<(String, bool)>) -> (r: Option<String>)
    ensures
        match r {
            None => run_dir_paths(runs_dir@, entries@).len() == 0,
            Some(p) => is_latest(run_dir_paths(runs_dir@, entries@), p@),
        },
{
    let ghost paths = run_dir_paths(runs_dir@, entries@);
    let mut dirs = run_dirs(runs_dir, entries);
    let ghost d = views(dirs@);
    let ghost (perm, inv) = choose|perm: Seq<int>, inv: Seq<int>| rearranges(d, paths, perm, inv);
    let r = dirs.pop();
    proof {
        if d.len() > 0 {
            let last = d.len() - 1;
            assert(d[last] == paths[perm[last]]);
            assert forall|j: int| 0 <= j < paths.len() implies chars_le(#[trigger] paths[j], d[last]) by {
                let k = inv[j];
                assert(d[k] == paths[j]);
                if k < last {
                    assert(chars_le(d[k], d[last]));
                } else {
                    crate::text::lemma_chars_lt_irreflexive(d[last]);
                }
            }
        }
    }
    r
}

/// The run directory a command acts on: the named run (refused when it is
/// not a directory), else the newest run (refused when there is none).
pub fn resolve_run_arg(runs_dir: &str, run_id: Option<&str>, named_is_dir: bool, entries: Vec<(String, bool)>) -> (r: Result<String, String>)
    ensures
        match run_id {
            Some(id) => if named_is_dir {
                r matches Ok(p) && p@ == join_spec(runs_dir@, id@)
            } else {
                r matches Err(m) && m@ == "run '"@ + id@ + "' not found under "@ + runs_dir@
            },
            None => match r {
                Ok(p) => is_latest(run_dir_paths(runs_dir@, entries@), p@),
                Err(m) => run_dir_paths(runs_dir@, entries@).len() == 0 && m@ == "no runs found under "@ + runs_dir@,
            },
        },
{
    match run_id {
        Some(id) => {
            if named_is_dir {
                Ok(join(runs_dir, id))
            } else {
                let mut m: Vec<char> = Vec::new();
                push_str(&mut m, "run '");
                push_str(&mut m, id);
                push_str(&mut m, "' not found under ");
                push_str(&mut m, runs_dir);
                Err(string_from_chars(&m))
            }
        },
        None => match latest_run(runs_dir, entries) {
            Some(p) => Ok(p),
            None => {
                let mut m: Vec<char> = Vec::new();
                push_str(&mut m, "no runs found under ");
                push_str(&mut m, runs_dir);
                Err(string_from_chars(&m))
            },
        },
    }
}

/// The reason recorded when a run is unmounted.
pub open spec fn unmount_reason_spec(outcome: Outcome) -> Seq<char> {
    match outcome {
        Outcome::Completed => "finish"@,
        Outcome::Aborted => "abort"@,
    }
}

pub fn unmount_reason(outcome: Outcome) -> (s: &'static str)
    ensures
        s@ == unmount_reason_spec(outcome),
{
    match outcome {
        Outcome::Completed => "finish",
        Outcome::Aborted => "abort",
    }
}

/// The sum of the description tokens of the lock's skills.
pub open spec fn lock_tokens_spec(skills: Seq<LockSkill>) -> nat
    decreases skills.len(),
{
    if skills.len() == 0 {
        0
    } else {
        lock_tokens_spec(skills.drop_last()) + skills.last().description_tokens as nat
    }
}

proof fn lemma_lock_tokens_prefix(skills: Seq<LockSkill>, n: int)
    requires
        0 <= n <= skills.len(),
    ensures
        lock_tokens_spec(skills.take(n)) <= lock_tokens_spec(skills),
    decreases skills.len() - n,
{
    if n < skills.len() {
        lemma_lock_tokens_prefix(skills, n + 1);
        assert(skills.take(n + 1).drop_last() =~= skills.take(n));
    } else {
        assert(skills.take(n) =~= skills);
    }
}

/// The id a torn-down run is recorded under: the manifest's, else the name
/// of the run directory, else empty.
pub open spec fn teardown_run_id(manifest: Option<Manifest>, dir_name: Option<Seq<char>>) -> Seq<char> {
    match manifest {
        Some(m) => m.run_id@,
        None => match dir_name {
            Some(d) => d,
            None => Seq::empty(),
        },
    }
}

/// The result of tearing a run down, from what its directory held: its
/// manifest and lock where they could be read, and the name of the directory.
/// `without_estimate` is the token estimate of the adapter's whole menu for
/// the manifest's adapter; it counts only when there is a manifest.
pub fn teardown_result(
    outcome: Outcome,
    manifest: Option<&Manifest>,
    lock: Option<&Lock>,
    dir_name: Option<&str>,
    without_estimate: u64,
) -> (r: RunResult)
    requires
        lock matches Some(l) ==> lock_tokens_spec(l.skills@) <= u64::MAX,
    ensures
        r.run_id@ == teardown_run_id(
            match manifest {
                Some(m) => Some(*m),
                None => None,
            },
            crate::config::opt_view(dir_name),
        ),
        r.outcome@ == outcome.name_spec(),
        r.menu_tokens == match lock {
            Some(l) => lock_tokens_spec(l.skills@),
            None => 0,
        },
        r.without_menu_tokens == if manifest is Some { without_estimate } else { 0 },
        r.skills@.len() == match lock {
            Some(l) => l.skills@.len(),
            None => 0,
        },
        lock matches Some(l) ==> forall|i: int| 0 <= i < r.skills@.len() ==> (#[trigger] r.skills@[i]).name
            == l.skills@[i].name && r.skills@[i].hash == l.skills@[i].hash,
        r.unmounted,
{
    let run_id = match manifest {
        Some(m) => m.run_id.clone(),
        None => match dir_name {
            Some(d) => to_string(d),
            None => String::new(),
        },
    };
    let mut menu_tokens: u64 = 0;
    let mut skills: Vec<ResultSkill> = Vec::new();
    match lock {
        Some(l) => {
            let mut i: usize = 0;
            while i < l.skills.len()
                invariant
                    0 <= i <= l.skills@.len(),
                    lock_tokens_spec(l.skills@) <= u64::MAX,
                    menu_tokens == lock_tokens_spec(l.skills@.take(i as int)),
                    skills@.len() == i,
                    forall|k: int| 0 <= k < i ==> (#[trigger] skills@[k]).name == l.skills@[k].name
                        && skills@[k].hash == l.skills@[k].hash,
                decreases l.skills@.len() - i,
            {
                proof {
                    assert(l.skills@.take(i + 1).drop_last() =~= l.skills@.take(i as int));
                    lemma_lock_tokens_prefix(l.skills@, i + 1);
                }
                menu_tokens = menu_tokens + l.skills[i].description_tokens;
                skills.push(ResultSkill { name: l.skills[i].name.clone(), hash: l.skills[i].hash.clone() });
                i = i + 1;
            }
            assert(l.skills@.take(i as int) =~= l.skills@);
        },
        None => {},
    }
    let outcome_text = to_string(outcome.as_str());
    RunResult {
        run_id,
        outcome: outcome_text,
        menu_tokens,
        without_menu_tokens: if manifest.is_some() { without_estimate } else { 0 },
        skills,
        unmounted: true,
    }
}


/// What `why` tells of a run: its id and task, each worker's pack, the
/// menu tokens it cost against the adapter's whole menu, whether it is
/// unmounted, and how it ended.
#[derive(Debug, Clone, PartialEq)]
pub struct Recap {
    pub run_id: String,
    pub task: String,
    pub packs: Vec<String>,
    pub menu_tokens: u64,
    pub without_menu_tokens: u64,
    pub delta: i128,
    pub unmounted: bool,
    pub outcome: String,
}

/// A worker's pack as `why` lists it: `<name>: <skill>, <skill>`.
pub open spec fn pack_line(w: Worker) -> Seq<char> {
    w.name@ + ": "@ + crate::text::join_with(views(w.pack@), ", "@)
}

fn pack_lines(workers: &Vec<Worker>) -> (lines: Vec<String>)
    ensures
        views(lines@) == workers@.map_values(|w: Worker| pack_line(w)),
{
    let mut lines: Vec<String> = Vec::new();
    let mut i: usize = 0;
    while i < workers.len()
        invariant
            0 <= i <= workers@.len(),
            views(lines@) == workers@.take(i as int).map_values(|w: Worker| pack_line(w)),
        decreases workers@.len() - i,
    {
        let mut v: Vec<char> = Vec::new();
        push_str(&mut v, workers[i].name.as_str());
        push_str(&mut v, ": ");
        crate::text::push_joined(&mut v, &workers[i].pack, ", ");
        let ghost before = views(lines@);
        let line = string_from_chars(&v);
        assert(line@ == pack_line(workers@[i as int]));
        lines.push(line);
        assert(views(lines@) =~= before.push(pack_line(workers@[i as int])));
        assert(workers@.take(i + 1).map_values(|w: Worker| pack_line(w)) =~= workers@.take(i as int).map_values(
            |w: Worker| pack_line(w),
        ).push(pack_line(workers@[i as int])));
        i = i + 1;
    }
    assert(workers@.take(i as int) =~= workers@);
    lines
}

/// The recap of a run from its manifest, its lock, the outcome recorded in
/// its result (if any), whether its workdir still exists, and the token
/// estimate of the adapter's whole menu.
pub fn recap(
    manifest: &Manifest,
    lock: &Lock,
    result_outcome: Option<&str>,
    workdir_exists: bool,
    without_menu_tokens: u64,
) -> (r: Recap)
    requires
        lock_tokens_spec(lock.skills@) + crate::tokens::MENU_PREAMBLE_TOKENS <= u64::MAX,
    ensures
        r.run_id == manifest.run_id,
        r.task == manifest.task,
        views(r.packs@) == manifest.workers@.map_values(|w: Worker| pack_line(w)),
        r.menu_tokens == crate::tokens::with_preamble_spec(lock_tokens_spec(lock.skills@)),
        r.without_menu_tokens == without_menu_tokens,
        r.delta == without_menu_tokens - r.menu_tokens,
        r.unmounted == (!workdir_exists && result_outcome is Some),
        r.outcome@ == match result_outcome {
            Some(o) => o@,
            None => "in flight"@,
        },
{
    let mut sum: u64 = 0;
    let mut i: usize = 0;
    while i < lock.skills.len()
        invariant
            0 <= i <= lock.skills@.len(),
            lock_tokens_spec(lock.skills@) + crate::tokens::MENU_PREAMBLE_TOKENS <= u64::MAX,
            sum == lock_tokens_spec(lock.skills@.take(i as int)),
        decreases lock.skills@.len() - i,
    {
        proof {
            assert(lock.skills@.take(i + 1).drop_last() =~= lock.skills@.take(i as int));
            lemma_lock_tokens_prefix(lock.skills@, i + 1);
        }
        sum = sum + lock.skills[i].description_tokens;
        i = i + 1;
    }
    assert(lock.skills@.take(i as int) =~= lock.skills@);
    let menu_tokens = crate::tokens::with_preamble(sum);
    let outcome = match result_outcome {
        Some(o) => to_string(o),
        None => to_string("in flight"),
    };
    Recap {
        run_id: manifest.run_id.clone(),
        task: manifest.task.clone(),
        packs: pack_lines(&manifest.workers),
        menu_tokens,
        without_menu_tokens,
        delta: without_menu_tokens as i128 - menu_tokens as i128,
        unmounted: !workdir_exists && result_outcome.is_some(),
        outcome,
    }
}


/// Whether `start` waits for the harness: when asked to, or by default when
/// a harness command was given and `--no-wait` was not.
pub fn waits(wait: bool, no_wait: bool, has_harness_argv: bool) -> (b: bool)
    ensures
        b == (wait || (!no_wait && has_harness_argv)),
{
    wait || (!no_wait && has_harness_argv)
}

/// The exit status of `start` when a signal ended the wait: 130 for an
/// interrupt, 143 for a termination request.
pub fn signal_exit_code(interrupted: bool) -> (c: u8)
    ensures
        c == (if interrupted { 130u8 } else { 143u8 }),
{
    if interrupted {
        130
    } else {
        143
    }
}

/// The exit status of `start` after the harness exited with `code` (1 when
/// a signal killed it), kept within 0..=255.
pub fn exit_status(code: Option<i32>) -> (c: u8)
    ensures
        c == match code {
            Some(x) => if x < 0 {
                0
            } else if x > 255 {
                255
            } else {
                x
            },
            None => 1,
        },
{
    match code {
        Some(x) => if x < 0 {
            0
        } else if x > 255 {
            255
        } else {
            x as u8
        },
        None => 1,
    }
}

/// A character a shell reads literally outside quotes.
pub open spec fn shell_safe(c: char) -> bool {
    ('a' <= c <= 'z') || ('A' <= c <= 'Z') || ('0' <= c <= '9') || c == '-' || c == '_' || c == '.' || c == '/'
        || c == ':' || c == '=' || c == '@' || c == '%' || c == '+' || c == ','
}

/// `t` with each `'` written as `'\''`, for use inside single quotes.
pub open spec fn escape_quotes(t: Seq<char>) -> Seq<char>
    decreases t.len(),
{
    if t.len() == 0 {
        Seq::empty()
    } else {
        escape_quotes(t.drop_last()) + if t.last() == '\'' {
            seq!['\'', '\\', '\'', '\'']
        } else {
            seq![t.last()]
        }
    }
}

/// A token as a shell reads it back: as it is when it is non-empty and made
/// of safe characters, else in single quotes.
pub open spec fn shell_quote_spec(t: Seq<char>) -> Seq<char> {
    if t.len() > 0 && forall|i: int| 0 <= i < t.len() ==> shell_safe(#[trigger] t[i]) {
        t
    } else {
        seq!['\''] + escape_quotes(t) + seq!['\'']
    }
}

fn is_shell_safe(c: char) -> (b: bool)
    ensures
        b == shell_safe(c),
{
    ('a' <= c && c <= 'z') || ('A' <= c && c <= 'Z') || ('0' <= c && c <= '9') || c == '-' || c == '_' || c == '.'
        || c == '/' || c == ':' || c == '=' || c == '@' || c == '%' || c == '+' || c == ','
}

/// Quotes a token of the harness command for printing (see `shell_quote_spec`).
pub fn shell_quote(token: &str) -> (q: String)
    ensures
        q@ == shell_quote_spec(token@),
{
    let chars = chars_of(token);
    let mut safe = chars.len() > 0;
    let mut i: usize = 0;
    while i < chars.len()
        invariant
            0 <= i <= chars@.len(),
            chars@ == token@,
            safe == (chars@.len() > 0 && forall|k: int| 0 <= k < i ==> shell_safe(#[trigger] chars@[k])),
        decreases chars@.len() - i,
    {
        if !is_shell_safe(chars[i]) {
            safe = false;
        }
        i = i + 1;
    }
    if safe {
        return to_string(token);
    }
    let mut out: Vec<char> = Vec::new();
    out.push('\'');
    let mut j: usize = 0;
    while j < chars.len()
        invariant
            0 <= j <= chars@.len(),
            chars@ == token@,
            out@ == seq!['\''] + escape_quotes(chars@.take(j as int)),
        decreases chars@.len() - j,
    {
        assert(chars@.take(j + 1).drop_last() =~= chars@.take(j as int));
        if chars[j] == '\'' {
            out.push('\'');
            out.push('\\');
            out.push('\'');
            out.push('\'');
        } else {
            out.push(chars[j]);
        }
        assert(out@ =~= seq!['\''] + escape_quotes(chars@.take(j + 1)));
        j = j + 1;
    }
    assert(chars@.take(j as int) =~= chars@);
    out.push('\'');
    string_from_chars(&out)
}


/// Why `start` refuses its arguments before doing anything: no pin and no
/// manifest, tools beside a manifest, or pins beside a manifest.
pub open spec fn start_refusal_spec(has_skills: bool, has_tools: bool, has_from: bool) -> Option<Seq<char>> {
    if !has_skills && !has_from {
        Some(
            "no skills pinned: pass --skill <name>[@sha256:<64 hex>], --from <manifest>, or use lunchbox menu"@,
        )
    } else if has_tools && has_from {
        Some("cannot combine --tool with --from (set tools per worker in the manifest)"@)
    } else if has_skills && has_from {
        Some("--skill and --from are mutually exclusive; put pins in the manifest workers"@)
    } else {
        None
    }
}

pub fn start_refusal(has_skills: bool, has_tools: bool, has_from: bool) -> (r: Option<String>)
    ensures
        match (r, start_refusal_spec(has_skills, has_tools, has_from)) {
            (Some(a), Some(b)) => a@ == b,
            (None, None) => true,
            _ => false,
        },
{
    if !has_skills && !has_from {
        Some(
            to_string(
                "no skills pinned: pass --skill <name>[@sha256:<64 hex>], --from <manifest>, or use lunchbox menu",
            ),
        )
    } else if has_tools && has_from {
        Some(to_string("cannot combine --tool with --from (set tools per worker in the manifest)"))
    } else if has_skills && has_from {
        Some(to_string("--skill and --from are mutually exclusive; put pins in the manifest workers"))
    } else {
        None
    }
}

/// The harness command after `--`: the arguments with one leading `--` dropped.
pub fn harness_command(argv: Vec<String>) -> (r: Vec<String>)
    ensures
        views(r@) == if argv@.len() > 0 && argv@[0]@ == "--"@ {
            views(argv@).drop_first()
        } else {
            views(argv@)
        },
{
    let mut argv = argv;
    if argv.len() > 0 && crate::text::str_eq(argv[0].as_str(), "--") {
        let ghost before = argv@;
        argv.remove(0);
        assert(views(argv@) =~= views(before).drop_first());
    }
    argv
}

/// What a run is started with: its adapter and task, its token budget, its
/// workers, and whether each worker gets a pack directory of its own.
#[derive(Debug, Clone, PartialEq)]
pub struct StartPlan {
    pub adapter: String,
    pub task: String,
    pub max_menu_tokens: u64,
    pub workers: Vec<Worker>,
    pub use_packs: bool,
}

/// The plan of `start`: from a manifest (refused when it is invalid), whose
/// adapter, task and budget the command line may override; else one
/// `default` worker with the pins and tools given, on the configured adapter
/// and budget.
pub fn plan_start(
    skills: Vec<String>,
    tools: Vec<String>,
    adapter: Option<String>,
    task: Option<String>,
    from: Option<ManifestInput>,
    cfg: &crate::config::Config,
) -> (r: Result<StartPlan, String>)
    ensures
        match from {
            Some(input) => match (r, validate_spec(input)) {
                (Err(a), Err(b)) => a@ == b,
                (Ok(p), Ok(())) => {
                    &&& p.adapter == (match adapter {
                        Some(a) => a,
                        None => input.adapter,
                    })
                    &&& p.task == (match task {
                        Some(t) => t,
                        None => input.task,
                    })
                    &&& p.max_menu_tokens == (match input.budget {
                        Some(b) => b.max_menu_tokens,
                        None => cfg.max_menu_tokens,
                    })
                    &&& p.workers == input.workers
                    &&& p.use_packs
                },
                _ => false,
            },
            None => r matches Ok(p) && {
                &&& p.adapter == (match adapter {
                    Some(a) => a,
                    None => cfg.default_adapter,
                })
                &&& p.task@ == (match task {
                    Some(t) => t@,
                    None => Seq::<char>::empty(),
                })
                &&& p.max_menu_tokens == cfg.max_menu_tokens
                &&& p.workers@.len() == 1
                &&& p.workers@[0].name@ == "default"@
                &&& p.workers@[0].pack == skills
                &&& p.workers@[0].description is None
                &&& p.workers@[0].tools == (if tools@.len() == 0 {
                    None
                } else {
                    Some(tools)
                })
                &&& !p.use_packs
            },
        },
{
    match from {
        Some(input) => {
            match input.validate() {
                Err(m) => return Err(m),
                Ok(_) => {},
            }
            let max_menu_tokens = match input.budget {
                Some(b) => b.max_menu_tokens,
                None => cfg.max_menu_tokens,
            };
            let ManifestInput { adapter: input_adapter, task: input_task, workers, .. } = input;
            Ok(StartPlan {
                adapter: match adapter {
                    Some(a) => a,
                    None => input_adapter,
                },
                task: match task {
                    Some(t) => t,
                    None => input_task,
                },
                max_menu_tokens,
                workers,
                use_packs: true,
            })
        },
        None => {
            let mut worker = Worker::default_pack(skills);
            worker.tools = if tools.len() == 0 {
                None
            } else {
                Some(tools)
            };
            let mut workers: Vec<Worker> = Vec::new();
            workers.push(worker);
            Ok(StartPlan {
                adapter: match adapter {
                    Some(a) => a,
                    None => cfg.default_adapter.clone(),
                },
                task: match task {
                    Some(t) => t,
                    None => String::new(),
                },
                max_menu_tokens: cfg.max_menu_tokens,
                workers,
                use_packs: false,
            })
        },
    }
}


/// The distinct skill names the workers pin, hash pins reduced to their
/// names, in the order they are first pinned.
pub fn pinned_names(workers: &[Worker]) -> (names: Vec<String>)
    ensures
        views(names@) == dedup_spec(base_names(dedup_spec(all_pins(workers@)))),
{
    let pins = collect_pins(workers);
    let mut bases: Vec<String> = Vec::new();
    let mut i: usize = 0;
    while i < pins.len()
        invariant
            0 <= i <= pins@.len(),
            views(bases@) == base_names(views(pins@).take(i as int)),
        decreases pins@.len() - i,
    {
        let ghost before = views(bases@);
        let b = entry_base_name(&pins[i]);
        bases.push(b);
        assert(views(bases@) =~= before.push(base_name(pins@[i as int]@)));
        assert(views(pins@).take(i + 1) =~= views(pins@).take(i as int).push(pins@[i as int]@));
        assert(base_names(views(pins@).take(i + 1)) =~= base_names(views(pins@).take(i as int)).push(
            base_name(pins@[i as int]@),
        ));
        i = i + 1;
    }
    assert(views(pins@).take(i as int) =~= views(pins@));
    dedup_strings(bases)
}

/// A locked skill as `start` lists it: name `@` hash.
pub open spec fn pin_of(l: Locked) -> Seq<char> {
    l.name@ + "@"@ + l.hash@
}

/// The pins of the locked skills.
pub open spec fn pins_of(locked: Seq<Locked>) -> Seq<Seq<char>> {
    Seq::new(locked.len(), |k: int| pin_of(locked[k]))
}

/// What `start` prints about a mounted run: its id, workdir, pins and menu
/// tokens; the worker's tools and their tokens when it has some; the menu
/// it would have had without the run; how it is isolated; how to unmount it.
pub open spec fn start_report_spec(
    p: PreparedRun,
    adapter: Seq<char>,
    tools: Seq<Seq<char>>,
    tool_estimate: Option<(u64, usize)>,
) -> Seq<Seq<char>> {
    seq![
        "run            "@ + p.run_id@,
        "workdir        "@ + p.workdir@,
        "skills         "@ + crate::text::join_with(pins_of(p.locked@), "  "@),
        "menu_tokens    this run: "@ + decimal(p.menu_tokens as nat),
    ] + match tool_estimate {
        Some((t, u)) => seq![
            "tools          "@ + crate::text::join_with(tools, ", "@) + " ("@ + decimal(tools.len()) + ")"@,
            if u > 0 {
                "tool_tokens    this run: "@ + decimal(t as nat) + " (+"@ + decimal(u as nat) + " unestimated)"@
            } else {
                "tool_tokens    this run: "@ + decimal(t as nat)
            },
        ],
        None => Seq::empty(),
    } + seq![
        if p.without_skills == 0 {
            "without        "@ + decimal(p.without_tokens as nat) + "  (no skills found in "@ + adapter + " skill dirs)"@
        } else {
            "without        ~"@ + decimal(p.without_tokens as nat) + "  ("@ + decimal(p.without_skills as nat) + " skills on "@
                + adapter + " global+project)"@
        },
        "isolation      "@ + crate::adapter::isolation_summary_spec(adapter),
        "unmount        run lunchbox finish "@ + p.run_id@ + "   (auto on --wait exit)"@,
    ]
}

/// What `start` prints about a mounted run (see `start_report_spec`), given
/// the estimate of the worker's tools when it has some.
pub fn start_report(p: &PreparedRun, adapter: &str, tools: &Vec<String>, tool_estimate: Option<(u64, usize)>) -> (lines: Vec<
    String,
>)
    ensures
        views(lines@) == start_report_spec(*p, adapter@, views(tools@), tool_estimate),
{
    let mut lines: Vec<String> = Vec::new();
    let mut a: Vec<char> = Vec::new();
    push_str(&mut a, "run            ");
    push_str(&mut a, p.run_id.as_str());
    lines.push(string_from_chars(&a));
    let mut b: Vec<char> = Vec::new();
    push_str(&mut b, "workdir        ");
    push_str(&mut b, p.workdir.as_str());
    lines.push(string_from_chars(&b));
    let mut pins: Vec<String> = Vec::new();
    let mut i: usize = 0;
    while i < p.locked.len()
        invariant
            0 <= i <= p.locked@.len(),
            pins@.len() == i,
            forall|k: int| 0 <= k < i ==> (#[trigger] pins@[k])@ == pin_of(p.locked@[k]),
        decreases p.locked@.len() - i,
    {
        let mut v: Vec<char> = Vec::new();
        push_str(&mut v, p.locked[i].name.as_str());
        push_str(&mut v, "@");
        push_str(&mut v, p.locked[i].hash.as_str());
        pins.push(string_from_chars(&v));
        i = i + 1;
    }
    assert(views(pins@) =~= pins_of(p.locked@));
    let mut c: Vec<char> = Vec::new();
    push_str(&mut c, "skills         ");
    crate::text::push_joined(&mut c, &pins, "  ");
    lines.push(string_from_chars(&c));
    let mut d: Vec<char> = Vec::new();
    push_str(&mut d, "menu_tokens    this run: ");
    push_decimal(&mut d, p.menu_tokens as u128);
    lines.push(string_from_chars(&d));
    let ghost head = views(lines@);
    match tool_estimate {
        Some((t, u)) => {
            let mut e: Vec<char> = Vec::new();
            push_str(&mut e, "tools          ");
            crate::text::push_joined(&mut e, tools, ", ");
            push_str(&mut e, " (");
            push_decimal(&mut e, tools.len() as u128);
            push_str(&mut e, ")");
            lines.push(string_from_chars(&e));
            let mut f: Vec<char> = Vec::new();
            push_str(&mut f, "tool_tokens    this run: ");
            push_decimal(&mut f, t as u128);
            if u > 0 {
                push_str(&mut f, " (+");
                push_decimal(&mut f, u as u128);
                push_str(&mut f, " unestimated)");
            }
            lines.push(string_from_chars(&f));
        },
        None => {},
    }
    let mut g: Vec<char> = Vec::new();
    if p.without_skills == 0 {
        push_str(&mut g, "without        ");
        push_decimal(&mut g, p.without_tokens as u128);
        push_str(&mut g, "  (no skills found in ");
        push_str(&mut g, adapter);
        push_str(&mut g, " skill dirs)");
    } else {
        push_str(&mut g, "without        ~");
        push_decimal(&mut g, p.without_tokens as u128);
        push_str(&mut g, "  (");
        push_decimal(&mut g, p.without_skills as u128);
        push_str(&mut g, " skills on ");
        push_str(&mut g, adapter);
        push_str(&mut g, " global+project)");
    }
    lines.push(string_from_chars(&g));
    let mut h: Vec<char> = Vec::new();
    push_str(&mut h, "isolation      ");
    push_str(&mut h, crate::adapter::isolation_summary(adapter));
    lines.push(string_from_chars(&h));
    let mut k: Vec<char> = Vec::new();
    push_str(&mut k, "unmount        run lunchbox finish ");
    push_str(&mut k, p.run_id.as_str());
    push_str(&mut k, "   (auto on --wait exit)");
    lines.push(string_from_chars(&k));
    assert(views(lines@) =~= start_report_spec(*p, adapter@, views(tools@), tool_estimate));
    lines
}

/// The first line of `why`: the run and its task.
pub open spec fn recap_head(r: Recap) -> Seq<char> {
    "run       "@ + r.run_id@ + "  task \""@ + r.task@ + "\""@
}

/// The pack lines of the first `n` workers.
pub open spec fn recap_packs(r: Recap, n: nat) -> Seq<Seq<char>> {
    Seq::new(n, |k: int| "packs     worker "@ + r.packs@[k]@)
}

/// What `why` prints: the run and its task, each worker's pack, the menu
/// tokens against the adapter's whole menu, whether the run is unmounted, and
/// how it ended.
pub open spec fn recap_lines_spec(r: Recap) -> Seq<Seq<char>> {
    seq![recap_head(r)] + recap_packs(r, r.packs@.len()) + seq![
        "tokens    this run "@ + decimal(r.menu_tokens as nat) + " vs without ~"@ + decimal(r.without_menu_tokens as nat)
            + " (delta "@ + crate::text::signed_decimal(r.delta as int) + ")"@,
        "unmounted "@ + if r.unmounted { "yes"@ } else { "no"@ },
        "outcome   "@ + r.outcome@,
    ]
}

impl Recap {
    /// What `why` prints (see `recap_lines_spec`).
    pub fn lines(&self) -> (lines: Vec<String>)
        ensures
            views(lines@) == recap_lines_spec(*self),
    {
        let mut lines: Vec<String> = Vec::new();
        let mut a: Vec<char> = Vec::new();
        push_str(&mut a, "run       ");
        push_str(&mut a, self.run_id.as_str());
        push_str(&mut a, "  task \"");
        push_str(&mut a, self.task.as_str());
        push_str(&mut a, "\"");
        lines.push(string_from_chars(&a));
        assert(views(lines@) =~= seq![recap_head(*self)] + recap_packs(*self, 0));
        let mut i: usize = 0;
        while i < self.packs.len()
            invariant
                0 <= i <= self.packs@.len(),
                views(lines@) == seq![recap_head(*self)] + recap_packs(*self, i as nat),
            decreases self.packs@.len() - i,
        {
            let mut v: Vec<char> = Vec::new();
            push_str(&mut v, "packs     worker ");
            push_str(&mut v, self.packs[i].as_str());
            let ghost before = views(lines@);
            lines.push(string_from_chars(&v));
            assert(views(lines@) =~= before.push("packs     worker "@ + self.packs@[i as int]@));
            assert(recap_packs(*self, (i + 1) as nat) =~= recap_packs(*self, i as nat).push(
                "packs     worker "@ + self.packs@[i as int]@,
            ));
            assert(views(lines@) =~= seq![recap_head(*self)] + recap_packs(*self, (i + 1) as nat));
            i = i + 1;
        }
        let mut t: Vec<char> = Vec::new();
        push_str(&mut t, "tokens    this run ");
        push_decimal(&mut t, self.menu_tokens as u128);
        push_str(&mut t, " vs without ~");
        push_decimal(&mut t, self.without_menu_tokens as u128);
        push_str(&mut t, " (delta ");
        crate::text::push_signed_wide(&mut t, self.delta);
        push_str(&mut t, ")");
        lines.push(string_from_chars(&t));
        let mut u: Vec<char> = Vec::new();
        push_str(&mut u, "unmounted ");
        push_str(&mut u, if self.unmounted { "yes" } else { "no" });
        lines.push(string_from_chars(&u));
        let mut o: Vec<char> = Vec::new();
        push_str(&mut o, "outcome   ");
        push_str(&mut o, self.outcome.as_str());
        lines.push(string_from_chars(&o));
        assert(views(lines@) =~= recap_lines_spec(*self));
        lines
    }
}

/// What the wait for the harness sees: a signal to `start` (interrupt or
/// termination), the harness's exit (its code, none when a signal killed
/// it), or neither yet.
#[derive(Debug, Clone, Copy, PartialEq, Eq, Structural)]
pub enum WaitEvent {
    Signal { interrupt: bool },
    Exited { code: Option<i32> },
    StillRunning,
}

/// What `start` does next while it waits: look again, or stop, tearing the
/// run down with an outcome (unless it is kept), terminating the harness
/// when a signal came, and exiting with a code.
#[derive(Debug, Clone, Copy, PartialEq, Eq, Structural)]
pub enum WaitAction {
    Poll,
    Stop { teardown: Option<Outcome>, terminate_child: bool, exit_code: u8 },
}

/// One step of the wait: a signal stops it, terminates the harness and
/// aborts the run (130 for an interrupt, 143 otherwise); the harness's exit
/// stops it and completes the run with the harness's status; otherwise it
/// goes on. With `keep` the run stays mounted.
pub open spec fn wait_spec(keep: bool, event: WaitEvent) -> WaitAction {
    match event {
        WaitEvent::StillRunning => WaitAction::Poll,
        WaitEvent::Signal { interrupt } => WaitAction::Stop {
            teardown: if keep { None } else { Some(Outcome::Aborted) },
            terminate_child: true,
            exit_code: if interrupt { 130u8 } else { 143u8 },
        },
        WaitEvent::Exited { code } => WaitAction::Stop {
            teardown: if keep { None } else { Some(Outcome::Completed) },
            terminate_child: false,
            exit_code: match code {
                Some(x) => if x < 0 {
                    0u8
                } else if x > 255 {
                    255u8
                } else {
                    x as u8
                },
                None => 1u8,
            },
        },
    }
}

/// One step of the wait (see `wait_spec`).
pub fn wait_step(keep: bool, event: WaitEvent) -> (a: WaitAction)
    ensures
        a == wait_spec(keep, event),
{
    match event {
        WaitEvent::StillRunning => WaitAction::Poll,
        WaitEvent::Signal { interrupt } => WaitAction::Stop {
            teardown: if keep { None } else { Some(Outcome::Aborted) },
            terminate_child: true,
            exit_code: signal_exit_code(interrupt),
        },
        WaitEvent::Exited { code } => WaitAction::Stop {
            teardown: if keep { None } else { Some(Outcome::Completed) },
            terminate_child: false,
            exit_code: exit_status(code),
        },
    }
}

/// Whether `start` spawns a harness for the adapter: every adapter but
/// `none` (which only mounts).
pub fn spawns(adapter: &str) -> (b: bool)
    ensures
        b == (adapter@ != "none"@),
{
    !crate::text::str_eq(adapter, "none")
}

/// How `start` goes on once the harness command is known.
#[derive(Debug, Clone, PartialEq)]
pub enum Launch {
    /// Refused with this message.
    Refuse(String),
    /// Print these lines and stop: the quoted command, then how to unmount.
    DryRun(Vec<String>),
    /// Spawn the harness, then wait for it or not.
    Spawn { wait: bool },
}

/// The refusal of an adapter that gave no command.
pub open spec fn no_command_message(adapter: Seq<char>) -> Seq<char> {
    "adapter "@ + adapter + " gave no command to run"@
}

/// The quoted tokens of a command.
pub open spec fn quoted(argv: Seq<Seq<char>>) -> Seq<Seq<char>> {
    Seq::new(argv.len(), |k: int| shell_quote_spec(argv[k]))
}

/// How `start` goes on with the harness command `argv`: an empty command is
/// refused; a dry run prints each token quoted, then how to unmount; else
/// the harness is spawned and waited for as `waits` says.
pub open spec fn launch_spec(adapter: Seq<char>, argv: Seq<Seq<char>>, run_id: Seq<char>, dry_run: bool, wait: bool, no_wait: bool, has_harness_argv: bool, l: Launch) -> bool {
    if argv.len() == 0 {
        l matches Launch::Refuse(m) && m@ == no_command_message(adapter)
    } else if dry_run {
        l matches Launch::DryRun(lines) && views(lines@) == quoted(argv).push("run lunchbox finish "@ + run_id)
    } else {
        l == Launch::Spawn { wait: wait || (!no_wait && has_harness_argv) }
    }
}

/// How `start` goes on with the harness command (see `launch_spec`).
pub fn launch(adapter: &str, argv: &Vec<String>, run_id: &str, dry_run: bool, wait: bool, no_wait: bool, has_harness_argv: bool) -> (l: Launch)
    ensures
        launch_spec(adapter@, views(argv@), run_id@, dry_run, wait, no_wait, has_harness_argv, l),
{
    if argv.len() == 0 {
        let mut m: Vec<char> = Vec::new();
        push_str(&mut m, "adapter ");
        push_str(&mut m, adapter);
        push_str(&mut m, " gave no command to run");
        return Launch::Refuse(string_from_chars(&m));
    }
    if dry_run {
        let mut lines: Vec<String> = Vec::new();
        let mut i: usize = 0;
        while i < argv.len()
            invariant
                0 <= i <= argv@.len(),
                views(lines@) == quoted(views(argv@).take(i as int)),
            decreases argv@.len() - i,
        {
            let ghost before = views(lines@);
            lines.push(shell_quote(argv[i].as_str()));
            assert(views(lines@) =~= before.push(shell_quote_spec(argv@[i as int]@)));
            assert(quoted(views(argv@).take(i + 1)) =~= quoted(views(argv@).take(i as int)).push(
                shell_quote_spec(argv@[i as int]@),
            ));
            i = i + 1;
        }
        assert(views(argv@).take(i as int) =~= views(argv@));
        let mut last: Vec<char> = Vec::new();
        push_str(&mut last, "run lunchbox finish ");
        push_str(&mut last, run_id);
        let ghost before = views(lines@);
        lines.push(string_from_chars(&last));
        assert(views(lines@) =~= before.push("run lunchbox finish "@ + run_id@));
        return Launch::DryRun(lines);
    }
    Launch::Spawn { wait: waits(wait, no_wait, has_harness_argv) }
}

} // verus!
