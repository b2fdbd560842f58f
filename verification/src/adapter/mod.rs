//! Harness adapters: how each agent harness is found, which skill
//! directories it reads by itself, and how it is spawned so that it sees
//! only a run's mounted skills.
pub mod tools;
use crate::config::Config;
use crate::lines::{first_line, lines_spec, next_line, after_first_line};
use crate::paths::{join, join_spec};
use crate::text::{chars_of, push_str, slice_chars, string_from_chars, to_string, views, clone_strings, contains_string};
use vstd::prelude::*;

verus! {

/// What a harness's self-test found: its isolation flags are there, the
/// harness is not installed, or its flags have drifted.
#[derive(Debug, PartialEq, Eq)]
pub enum SelftestOutcome {
    Passed,
    Skipped,
    Failed(String),
}

/// What an adapter needs to know of the machine: `HOME`, the current
/// directory, and which of the adapter's optional skill directories exist.
#[derive(Debug, Clone, PartialEq)]
pub struct Host {
    pub home: Option<String>,
    pub cwd: Option<String>,
    pub existing_dirs: Vec<String>,
}

/// The optional directory `d` when the host has it.
pub open spec fn if_exists(host: Host, d: Seq<char>) -> Seq<Seq<char>> {
    if views(host.existing_dirs@).contains(d) {
        seq![d]
    } else {
        Seq::empty()
    }
}

/// The skill directories every harness reads: `./.agents/skills` (from the
/// current directory when it is known) and `~/.agents/skills` when `HOME` is set.
pub open spec fn base_dirs_spec(host: Host) -> Seq<Seq<char>> {
    seq![
        match host.cwd {
            Some(c) => join_spec(join_spec(c@, ".agents"@), "skills"@),
            None => ".agents/skills"@,
        },
    ] + match host.home {
        Some(h) => seq![join_spec(join_spec(h@, ".agents"@), "skills"@)],
        None => Seq::empty(),
    }
}

fn contains_dir(host: &Host, d: &String) -> (b: bool)
    ensures
        b == views(host.existing_dirs@).contains(d@),
{
    contains_string(&host.existing_dirs, d)
}

/// The skill directories every harness reads, in order (see `base_dirs_spec`).
pub fn pantry_base_dirs(host: &Host) -> (dirs: Vec<String>)
    ensures
        views(dirs@) == base_dirs_spec(*host),
{
    let mut dirs: Vec<String> = Vec::new();
    match &host.cwd {
        Some(c) => {
            let a = join(c.as_str(), ".agents");
            dirs.push(join(a.as_str(), "skills"));
        },
        None => dirs.push(to_string(".agents/skills")),
    }
    match &host.home {
        Some(h) => {
            let a = join(h.as_str(), ".agents");
            dirs.push(join(a.as_str(), "skills"));
        },
        None => {},
    }
    assert(views(dirs@) =~= base_dirs_spec(*host));
    dirs
}

/// A harness adapter.
pub trait Adapter {
    /// The adapter's name.
    spec fn name_spec(&self) -> Seq<char>;

    /// The skill directories the harness reads by itself.
    spec fn skill_dirs_spec(&self, cfg: Config, host: Host) -> Seq<Seq<char>>;

    /// The command line that runs the harness on a workdir (or why it is not spawned).
    spec fn argv_spec(&self, workdir: Seq<char>, skills: Seq<Seq<char>>, user_argv: Seq<Seq<char>>) -> Result<
        Seq<Seq<char>>,
        Seq<char>,
    >;

    /// Where the harness keeps its agent files.
    spec fn agent_dir_spec(&self, home: Option<Seq<char>>) -> Option<Seq<char>>;

    /// What the adapter does, in prose.
    spec fn explain_spec(&self) -> Seq<char>;

    fn name(&self) -> (n: &'static str)
        ensures
            n@ == self.name_spec(),
    ;

    fn skill_dirs(&self, cfg: &Config, host: &Host) -> (dirs: Vec<String>)
        ensures
            views(dirs@) == self.skill_dirs_spec(*cfg, *host),
    ;

    fn isolation_argv(&self, workdir: &str, skills: &[String], user_argv: &[String]) -> (r: Result<Vec<String>, String>)
        ensures
            match (r, self.argv_spec(workdir@, views(skills@), views(user_argv@))) {
                (Ok(a), Ok(b)) => views(a@) == b,
                (Err(a), Err(b)) => a@ == b,
                _ => false,
            },
    ;

    fn agent_dir_hint(&self, home: Option<&str>) -> (d: Option<String>)
        ensures
            match (d, self.agent_dir_spec(crate::config::opt_view(home))) {
                (Some(a), Some(b)) => a@ == b,
                (None, None) => true,
                _ => false,
            },
    ;

    /// Writing per-worker agent files is not part of this build.
    fn write_run_agents(&self, run_dir: &str) -> (r: Result<(), String>)
        ensures
            r matches Err(m) && m@ == "Path B not implemented in this build"@,
    ;

    fn explain(&self) -> (s: String)
        ensures
            s@ == self.explain_spec(),
    ;
}

/// The refusal of writing per-worker agent files.
fn path_b_refusal() -> (r: Result<(), String>)
    ensures
        r matches Err(m) && m@ == "Path B not implemented in this build"@,
{
    Err(to_string("Path B not implemented in this build"))
}

/// The adapter that never spawns: it mounts the workdir and prints it.
#[derive(Debug, Clone, Copy, PartialEq, Eq)]
pub struct NoneAdapter;

/// The `pi` harness, isolated by flags.
#[derive(Debug, Clone, Copy, PartialEq, Eq)]
pub struct PiAdapter;

/// The `omp` harness, isolated by a per-run settings overlay.
#[derive(Debug, Clone, Copy, PartialEq, Eq)]
pub struct OmpAdapter;

/// `pi --no-skills`, then `--skill <workdir>/<skill>` per skill, then the user's argv.
pub open spec fn pi_argv(workdir: Seq<char>, skills: Seq<Seq<char>>, user_argv: Seq<Seq<char>>) -> Seq<Seq<char>>
    decreases skills.len(),
{
    if skills.len() == 0 {
        seq!["pi"@, "--no-skills"@] + user_argv
    } else {
        let before = pi_argv(workdir, skills.drop_last(), Seq::empty());
        before + seq!["--skill"@, join_spec(workdir, skills.last())] + user_argv
    }
}

impl Adapter for NoneAdapter {
    open spec fn name_spec(&self) -> Seq<char> {
        "none"@
    }

    open spec fn skill_dirs_spec(&self, cfg: Config, host: Host) -> Seq<Seq<char>> {
        views(cfg.library_paths@)
    }

    open spec fn argv_spec(&self, workdir: Seq<char>, skills: Seq<Seq<char>>, user_argv: Seq<Seq<char>>) -> Result<
        Seq<Seq<char>>,
        Seq<char>,
    > {
        Err("adapter none never spawns; the workdir is mounted, not spawned"@)
    }

    open spec fn agent_dir_spec(&self, home: Option<Seq<char>>) -> Option<Seq<char>> {
        None
    }

    open spec fn explain_spec(&self) -> Seq<char> {
        "none: mounts the sealed workdir and prints it, never spawns a process. Any argv after -- is stored in the manifest only. Useful for tests and inspection."@
    }

    fn name(&self) -> (n: &'static str) {
        "none"
    }

    fn skill_dirs(&self, cfg: &Config, host: &Host) -> (dirs: Vec<String>) {
        clone_strings(&cfg.library_paths)
    }

    fn isolation_argv(&self, workdir: &str, skills: &[String], user_argv: &[String]) -> (r: Result<Vec<String>, String>) {
        Err(to_string("adapter none never spawns; the workdir is mounted, not spawned"))
    }

    fn agent_dir_hint(&self, home: Option<&str>) -> (d: Option<String>) {
        None
    }

    fn write_run_agents(&self, run_dir: &str) -> (r: Result<(), String>) {
        path_b_refusal()
    }

    fn explain(&self) -> (s: String) {
        to_string("none: mounts the sealed workdir and prints it, never spawns a process. Any argv after -- is stored in the manifest only. Useful for tests and inspection.")
    }
}

impl Adapter for PiAdapter {
    open spec fn name_spec(&self) -> Seq<char> {
        "pi"@
    }

    open spec fn skill_dirs_spec(&self, cfg: Config, host: Host) -> Seq<Seq<char>> {
        base_dirs_spec(host) + match host.home {
            Some(h) => if_exists(host, join_spec(join_spec(join_spec(h@, ".pi"@), "agent"@), "skills"@)),
            None => Seq::empty(),
        }
    }

    open spec fn argv_spec(&self, workdir: Seq<char>, skills: Seq<Seq<char>>, user_argv: Seq<Seq<char>>) -> Result<
        Seq<Seq<char>>,
        Seq<char>,
    > {
        Ok(pi_argv(workdir, skills, user_argv))
    }

    open spec fn agent_dir_spec(&self, home: Option<Seq<char>>) -> Option<Seq<char>> {
        match home {
            Some(h) => Some(join_spec(join_spec(h, ".pi"@), "agent"@)),
            None => None,
        }
    }

    open spec fn explain_spec(&self) -> Seq<char> {
        "pi Path A: spawns `pi --no-skills --skill <workdir>/<skill> ...` with one --skill flag per locked package, followed by the user argv. Discovery of the global skill directories (~/.agents/skills and those of other harnesses) and settings overlays is disabled by --no-skills; only the sealed workdir is passed. Flags only, no settings overlay. Belief verified against pi --help 0.84.4 on 2026-09-06; selftest re-verifies."@
    }

    fn name(&self) -> (n: &'static str) {
        "pi"
    }

    fn skill_dirs(&self, cfg: &Config, host: &Host) -> (dirs: Vec<String>) {
        let mut dirs = pantry_base_dirs(host);
        let ghost base = views(dirs@);
        match &host.home {
            Some(h) => {
                let a = join(h.as_str(), ".pi");
                let b = join(a.as_str(), "agent");
                let pi_dir = join(b.as_str(), "skills");
                if contains_dir(host, &pi_dir) {
                    dirs.push(pi_dir);
                    assert(views(dirs@) =~= base + seq![join_spec(join_spec(join_spec(h@, ".pi"@), "agent"@), "skills"@)]);
                } else {
                    assert(views(dirs@) =~= base + Seq::<Seq<char>>::empty());
                }
            },
            None => {
                assert(views(dirs@) =~= base + Seq::<Seq<char>>::empty());
            },
        }
        dirs
    }

    fn isolation_argv(&self, workdir: &str, skills: &[String], user_argv: &[String]) -> (r: Result<Vec<String>, String>) {
        let mut argv: Vec<String> = Vec::new();
        argv.push(to_string("pi"));
        argv.push(to_string("--no-skills"));
        let ghost sk = views(skills@);
        assert(views(argv@) =~= pi_argv(workdir@, sk.take(0), Seq::empty()));
        let mut i: usize = 0;
        while i < skills.len()
            invariant
                0 <= i <= skills@.len(),
                sk == views(skills@),
                views(argv@) == pi_argv(workdir@, sk.take(i as int), Seq::empty()),
            decreases skills@.len() - i,
        {
            let ghost before = views(argv@);
            argv.push(to_string("--skill"));
            argv.push(join(workdir, skills[i].as_str()));
            proof {
                let next = sk.take(i + 1);
                assert(next.drop_last() =~= sk.take(i as int));
                assert(next.last() == skills@[i as int]@);
                assert(views(argv@) =~= before + seq!["--skill"@, join_spec(workdir@, next.last())] + Seq::<Seq<char>>::empty());
            }
            i = i + 1;
        }
        let ghost before = views(argv@);
        let mut j: usize = 0;
        while j < user_argv.len()
            invariant
                0 <= j <= user_argv@.len(),
                views(argv@) == before + views(user_argv@).take(j as int),
            decreases user_argv@.len() - j,
        {
            let ghost mid = views(argv@);
            argv.push(user_argv[j].clone());
            assert(views(argv@) =~= mid.push(user_argv@[j as int]@));
            assert(views(argv@) =~= before + views(user_argv@).take(j + 1));
            j = j + 1;
        }
        proof {
            assert(sk.take(i as int) =~= sk);
            assert(views(user_argv@).take(j as int) =~= views(user_argv@));
            lemma_pi_argv_append(workdir@, sk, views(user_argv@));
        }
        Ok(argv)
    }

    fn agent_dir_hint(&self, home: Option<&str>) -> (d: Option<String>) {
        match home {
            Some(h) => {
                let a = join(h, ".pi");
                let d = join(a.as_str(), "agent");
                Some(d)
            },
            None => None,
        }
    }

    fn write_run_agents(&self, run_dir: &str) -> (r: Result<(), String>) {
        path_b_refusal()
    }

    fn explain(&self) -> (s: String) {
        to_string("pi Path A: spawns `pi --no-skills --skill <workdir>/<skill> ...` with one --skill flag per locked package, followed by the user argv. Discovery of the global skill directories (~/.agents/skills and those of other harnesses) and settings overlays is disabled by --no-skills; only the sealed workdir is passed. Flags only, no settings overlay. Belief verified against pi --help 0.84.4 on 2026-09-06; selftest re-verifies.")
    }
}

proof fn lemma_pi_argv_append(workdir: Seq<char>, skills: Seq<Seq<char>>, user_argv: Seq<Seq<char>>)
    ensures
        pi_argv(workdir, skills, user_argv) == pi_argv(workdir, skills, Seq::empty()) + user_argv,
    decreases skills.len(),
{
    if skills.len() == 0 {
        assert(seq!["pi"@, "--no-skills"@] + Seq::<Seq<char>>::empty() =~= seq!["pi"@, "--no-skills"@]);
    } else {
        let before = pi_argv(workdir, skills.drop_last(), Seq::empty());
        let mid = seq!["--skill"@, join_spec(workdir, skills.last())];
        assert(before + mid + Seq::<Seq<char>>::empty() =~= before + mid);
    }
}


impl Adapter for OmpAdapter {
    open spec fn name_spec(&self) -> Seq<char> {
        "omp"@
    }

    open spec fn skill_dirs_spec(&self, cfg: Config, host: Host) -> Seq<Seq<char>> {
        base_dirs_spec(host) + match host.home {
            Some(h) => if_exists(host, join_spec(join_spec(join_spec(h@, ".omp"@), "agent"@), "skills"@))
                + if_exists(host, join_spec(join_spec(join_spec(h@, ".omp"@), "agent"@), "managed-skills"@)),
            None => Seq::empty(),
        }
    }

    open spec fn argv_spec(&self, workdir: Seq<char>, skills: Seq<Seq<char>>, user_argv: Seq<Seq<char>>) -> Result<
        Seq<Seq<char>>,
        Seq<char>,
    > {
        Err(omp_unavailable())
    }

    open spec fn agent_dir_spec(&self, home: Option<Seq<char>>) -> Option<Seq<char>> {
        match home {
            Some(h) => Some(join_spec(join_spec(h, ".omp"@), "agent"@)),
            None => None,
        }
    }

    open spec fn explain_spec(&self) -> Seq<char> {
        "omp Path A: spawns `omp --config <run_dir>/omp-config.yml` followed by the user argv. The per-run overlay sets skills.customDirectories to the sealed workdir and turns every other discovery source off (the agents, pi and other harnesses' user and project directories), so the harness sees only the mounted packages."@
    }

    fn name(&self) -> (n: &'static str) {
        "omp"
    }

    fn skill_dirs(&self, cfg: &Config, host: &Host) -> (dirs: Vec<String>) {
        let mut dirs = pantry_base_dirs(host);
        let ghost base = views(dirs@);
        match &host.home {
            Some(h) => {
                let a = join(h.as_str(), ".omp");
                let b = join(a.as_str(), "agent");
                let skills_dir = join(b.as_str(), "skills");
                let managed_dir = join(b.as_str(), "managed-skills");
                let ghost first = if_exists(*host, skills_dir@);
                let ghost second = if_exists(*host, managed_dir@);
                if contains_dir(host, &skills_dir) {
                    dirs.push(skills_dir);
                }
                assert(views(dirs@) =~= base + first);
                if contains_dir(host, &managed_dir) {
                    dirs.push(managed_dir);
                }
                assert(views(dirs@) =~= base + (first + second));
            },
            None => {
                assert(views(dirs@) =~= base + Seq::<Seq<char>>::empty());
            },
        }
        dirs
    }

    fn isolation_argv(&self, workdir: &str, skills: &[String], user_argv: &[String]) -> (r: Result<Vec<String>, String>) {
        Err(to_string("omp adapter arrives after Phase 1"))
    }

    fn agent_dir_hint(&self, home: Option<&str>) -> (d: Option<String>) {
        match home {
            Some(h) => {
                let a = join(h, ".omp");
                Some(join(a.as_str(), "agent"))
            },
            None => None,
        }
    }

    fn write_run_agents(&self, run_dir: &str) -> (r: Result<(), String>) {
        path_b_refusal()
    }

    fn explain(&self) -> (s: String) {
        to_string("omp Path A: spawns `omp --config <run_dir>/omp-config.yml` followed by the user argv. The per-run overlay sets skills.customDirectories to the sealed workdir and turns every other discovery source off (the agents, pi and other harnesses' user and project directories), so the harness sees only the mounted packages.")
    }
}

/// The refusal of the `omp` adapter in this build.
pub open spec fn omp_unavailable() -> Seq<char> {
    "omp adapter arrives after Phase 1"@
}

impl OmpAdapter {
    /// `omp --config <run_dir>/omp-config.yml` followed by the user's argv.
    pub fn spawn_argv(run_dir: &str, user_argv: &[String]) -> (argv: Vec<String>)
        ensures
            views(argv@) == seq!["omp"@, "--config"@, join_spec(run_dir@, "omp-config.yml"@)] + views(user_argv@),
    {
        let mut argv: Vec<String> = Vec::new();
        argv.push(to_string("omp"));
        argv.push(to_string("--config"));
        argv.push(join(run_dir, "omp-config.yml"));
        let ghost before = views(argv@);
        let mut j: usize = 0;
        while j < user_argv.len()
            invariant
                0 <= j <= user_argv@.len(),
                views(argv@) == before + views(user_argv@).take(j as int),
            decreases user_argv@.len() - j,
        {
            let ghost mid = views(argv@);
            argv.push(user_argv[j].clone());
            assert(views(argv@) =~= mid.push(user_argv@[j as int]@));
            assert(views(argv@) =~= before + views(user_argv@).take(j + 1));
            j = j + 1;
        }
        assert(views(user_argv@).take(j as int) =~= views(user_argv@));
        argv
    }
}

/// Which adapter a name selects: `none` and `pi`; `omp` is refused in this
/// build, and any other name is unknown.
pub open spec fn resolve_spec(name: Seq<char>) -> Result<Seq<char>, Seq<char>> {
    if name == "none"@ {
        Ok("none"@)
    } else if name == "pi"@ {
        Ok("pi"@)
    } else if name == "omp"@ {
        Err(omp_unavailable())
    } else {
        Err("unknown adapter '"@ + name + "' (available: none, pi)"@)
    }
}

/// The adapter of a name (see `resolve_spec`).
pub fn resolve_adapter(name: &str) -> (r: Result<Box<dyn Adapter>, String>)
    ensures
        match (r, resolve_spec(name@)) {
            (Ok(a), Ok(n)) => a.name_spec() == n && forall|cfg: Config, host: Host| #[trigger]
                a.skill_dirs_spec(cfg, host) == named_dirs_spec(n, cfg, host),
            (Err(a), Err(b)) => a@ == b,
            _ => false,
        },
{
    if crate::text::str_eq(name, "none") {
        Ok(Box::new(NoneAdapter))
    } else if crate::text::str_eq(name, "pi") {
        Ok(Box::new(PiAdapter))
    } else if crate::text::str_eq(name, "omp") {
        Err(to_string("omp adapter arrives after Phase 1"))
    } else {
        let mut m: Vec<char> = Vec::new();
        push_str(&mut m, "unknown adapter '");
        push_str(&mut m, name);
        push_str(&mut m, "' (available: none, pi)");
        Err(string_from_chars(&m))
    }
}

/// `true` or `false`, as `Display` writes a `bool`.
pub open spec fn bool_text(b: bool) -> Seq<char> {
    if b {
        "true"@
    } else {
        "false"@
    }
}

/// `flag=present` for each flag, joined by `, `.
pub open spec fn flag_report(help: Seq<char>, flags: Seq<Seq<char>>) -> Seq<char>
    decreases flags.len(),
{
    if flags.len() == 0 {
        Seq::empty()
    } else if flags.len() == 1 {
        flags[0] + "="@ + bool_text(crate::text::contains_sub_spec(help, flags[0]))
    } else {
        flag_report(help, flags.drop_last()) + ", "@ + flags.last() + "="@ + bool_text(
            crate::text::contains_sub_spec(help, flags.last()),
        )
    }
}

/// The message of a drifted harness.
pub open spec fn drift_message(binary: Seq<char>, version: Seq<char>, help: Seq<char>, flags: Seq<Seq<char>>) -> Seq<char> {
    binary + " isolation flags drifted ("@ + binary + " "@ + version + ": "@ + flag_report(help, flags) + ")"@
}

/// Runs the self-test of a flag-isolated harness on its version (`None`
/// when it is not installed) and its `--help` text.
pub fn help_flag_selftest(binary: &str, version: Option<&str>, help: &str, flags: &Vec<String>) -> (r: SelftestOutcome)
    ensures
        match (version, r) {
            (None, SelftestOutcome::Skipped) => true,
            (Some(v), SelftestOutcome::Passed) => forall|i: int| 0 <= i < flags@.len() ==> crate::text::contains_sub_spec(help@, #[trigger] flags@[i]@),
            (Some(v), SelftestOutcome::Failed(m)) => (exists|i: int| 0 <= i < flags@.len() && !crate::text::contains_sub_spec(help@, #[trigger] flags@[i]@))
                && m@ == drift_message(binary@, v@, help@, views(flags@)),
            _ => false,
        },
{
    let v = match version {
        None => {
            return SelftestOutcome::Skipped;
        },
        Some(v) => v,
    };
    let ghost fl = views(flags@);
    let mut all = true;
    let mut report: Vec<char> = Vec::new();
    let mut i: usize = 0;
    while i < flags.len()
        invariant
            0 <= i <= flags@.len(),
            fl == views(flags@),
            report@ == flag_report(help@, fl.take(i as int)),
            all == forall|k: int| 0 <= k < i ==> crate::text::contains_sub_spec(help@, #[trigger] flags@[k]@),
        decreases flags@.len() - i,
    {
        let present = crate::text::contains_str(help, flags[i].as_str());
        let ghost before = report@;
        proof {
            assert(fl.take(i + 1).drop_last() =~= fl.take(i as int));
            assert(fl.take(i + 1).last() == flags@[i as int]@);
        }
        if i > 0 {
            push_str(&mut report, ", ");
        }
        push_str(&mut report, flags[i].as_str());
        push_str(&mut report, "=");
        if present {
            push_str(&mut report, "true");
        } else {
            push_str(&mut report, "false");
            all = false;
        }
        proof {
            if i == 0 {
                assert(fl.take(1)[0] == flags@[0]@);
                assert(report@ =~= flag_report(help@, fl.take(1)));
            } else {
                assert(report@ =~= flag_report(help@, fl.take(i + 1)));
            }
            if !present {
                assert(!crate::text::contains_sub_spec(help@, flags@[i as int]@));
            }
        }
        i = i + 1;
    }
    assert(fl.take(i as int) =~= fl);
    if all {
        SelftestOutcome::Passed
    } else {
        let mut m: Vec<char> = Vec::new();
        push_str(&mut m, binary);
        push_str(&mut m, " isolation flags drifted (");
        push_str(&mut m, binary);
        push_str(&mut m, " ");
        push_str(&mut m, v);
        push_str(&mut m, ": ");
        crate::text::push_chars(&mut m, &report);
        push_str(&mut m, ")");
        SelftestOutcome::Failed(string_from_chars(&m))
    }
}

/// Whether `c` is an ASCII digit.
pub open spec fn is_digit(c: char) -> bool {
    '0' <= c && c <= '9'
}

/// Whether `c` may appear in a version number.
pub open spec fn is_version_char(c: char) -> bool {
    is_digit(c) || c == '.'
}

/// The position of the first digit of `s` (its length when there is none).
pub open spec fn first_digit(s: Seq<char>) -> nat
    decreases s.len(),
{
    if s.len() == 0 || is_digit(s[0]) {
        0
    } else {
        1 + first_digit(s.drop_first())
    }
}

/// How many characters from the start of `s` are version characters.
pub open spec fn version_run(s: Seq<char>) -> nat
    decreases s.len(),
{
    if s.len() == 0 || !is_version_char(s[0]) {
        0
    } else {
        1 + version_run(s.drop_first())
    }
}

/// How many `.` characters `s` holds.
pub open spec fn dot_count(s: Seq<char>) -> nat
    decreases s.len(),
{
    if s.len() == 0 {
        0
    } else {
        dot_count(s.drop_last()) + if s.last() == '.' {
            1nat
        } else {
            0nat
        }
    }
}

/// The version in a line: the run of digits and dots that starts at the
/// line's first digit, when it has at least two dots and does not end in a dot.
pub open spec fn extract_semver_spec(line: Seq<char>) -> Option<Seq<char>> {
    let start = first_digit(line);
    if start >= line.len() {
        None
    } else {
        let c = line.subrange(start as int, start as int + version_run(line.skip(start as int)));
        if dot_count(c) >= 2 && c[0] != '.' && c.last() != '.' {
            Some(c)
        } else {
            None
        }
    }
}

proof fn lemma_first_digit(s: Seq<char>)
    ensures
        first_digit(s) <= s.len(),
        first_digit(s) < s.len() ==> is_digit(s[first_digit(s) as int]),
    decreases s.len(),
{
    if s.len() > 0 && !is_digit(s[0]) {
        lemma_first_digit(s.drop_first());
    }
}

proof fn lemma_version_run(s: Seq<char>)
    ensures
        version_run(s) <= s.len(),
        s.len() > 0 && is_version_char(s[0]) ==> version_run(s) > 0,
    decreases s.len(),
{
    if s.len() > 0 && is_version_char(s[0]) {
        lemma_version_run(s.drop_first());
    }
}

/// The version number in one line of `--version` output (see `extract_semver_spec`).
pub fn extract_semver(line: &str) -> (r: Option<String>)
    ensures
        match (r, extract_semver_spec(line@)) {
            (Some(a), Some(b)) => a@ == b,
            (None, None) => true,
            _ => false,
        },
{
    let v = chars_of(line);
    let mut start: usize = 0;
    assert(v@.skip(0) =~= v@);
    while start < v.len() && !(v[start] >= '0' && v[start] <= '9')
        invariant
            0 <= start <= v@.len(),
            first_digit(v@) == start + first_digit(v@.skip(start as int)),
        decreases v@.len() - start,
    {
        assert(v@.skip(start as int).drop_first() =~= v@.skip(start + 1));
        start = start + 1;
    }
    proof {
        lemma_first_digit(v@);
        if start < v@.len() {
            assert(v@.skip(start as int)[0] == v@[start as int]);
        }
    }
    if start == v.len() {
        return None;
    }
    let mut end = start;
    assert(v@.skip(start as int) =~= v@.skip(end as int));
    while end < v.len() && ((v[end] >= '0' && v[end] <= '9') || v[end] == '.')
        invariant
            start <= end <= v@.len(),
            version_run(v@.skip(start as int)) == (end - start) + version_run(v@.skip(end as int)),
        decreases v@.len() - end,
    {
        assert(v@.skip(end as int).drop_first() =~= v@.skip(end + 1));
        end = end + 1;
    }
    proof {
        lemma_version_run(v@.skip(start as int));
        if end < v@.len() {
            assert(v@.skip(end as int)[0] == v@[end as int]);
        }
    }
    let c = slice_chars(&v, start, end);
    let mut dots: usize = 0;
    let mut k: usize = 0;
    while k < c.len()
        invariant
            0 <= k <= c@.len(),
            dots == dot_count(c@.take(k as int)),
            dots <= k,
        decreases c@.len() - k,
    {
        assert(c@.take(k + 1).drop_last() =~= c@.take(k as int));
        if c[k] == '.' {
            dots = dots + 1;
        }
        k = k + 1;
    }
    assert(c@.take(k as int) =~= c@);
    if dots >= 2 && c[0] != '.' && c[c.len() - 1] != '.' {
        Some(string_from_chars(&c))
    } else {
        None
    }
}

/// The first version found in the lines of `text`, line by line.
pub open spec fn first_version(lines: Seq<Seq<char>>) -> Option<Seq<char>>
    decreases lines.len(),
{
    if lines.len() == 0 {
        None
    } else {
        match extract_semver_spec(lines[0]) {
            Some(v) => Some(v),
            None => first_version(lines.drop_first()),
        }
    }
}

/// What `<binary> --version` reports: refused when it exited unsuccessfully
/// (quoting its exit status) or when no line holds a version.
pub open spec fn detect_version_spec(binary: Seq<char>, succeeded: bool, status: Seq<char>, stdout: Seq<char>) -> Result<
    Seq<char>,
    Seq<char>,
> {
    if !succeeded {
        Err("'"@ + binary + " --version' exited with "@ + status)
    } else {
        match first_version(lines_spec(stdout)) {
            Some(v) => Ok(v),
            None => Err("could not parse a semver from '"@ + binary + " --version'"@),
        }
    }
}

/// The version of an installed harness from the outcome of `<binary>
/// --version`: whether it succeeded, its exit status as text, and its output.
pub fn detect_version_from(binary: &str, succeeded: bool, status: &str, stdout: &str) -> (r: Result<String, String>)
    ensures
        match (r, detect_version_spec(binary@, succeeded, status@, stdout@)) {
            (Ok(a), Ok(b)) => a@ == b,
            (Err(a), Err(b)) => a@ == b,
            _ => false,
        },
{
    if !succeeded {
        let mut m: Vec<char> = Vec::new();
        push_str(&mut m, "'");
        push_str(&mut m, binary);
        push_str(&mut m, " --version' exited with ");
        push_str(&mut m, status);
        return Err(string_from_chars(&m));
    }
    let v = chars_of(stdout);
    let mut pos: usize = 0;
    assert(v@.skip(0) =~= v@);
    while pos < v.len()
        invariant
            0 <= pos <= v@.len(),
            first_version(lines_spec(v@)) == first_version(lines_spec(v@.skip(pos as int))),
            v@ == stdout@,
            succeeded,
        decreases v@.len() - pos,
    {
        let (line, next) = next_line(&v, pos);
        let ls = string_from_chars(&line);
        let ghost rest = v@.skip(pos as int);
        assert(lines_spec(rest) == seq![first_line(rest)] + lines_spec(after_first_line(rest)));
        assert((seq![first_line(rest)] + lines_spec(after_first_line(rest)))[0] == first_line(rest));
        assert((seq![first_line(rest)] + lines_spec(after_first_line(rest))).drop_first() =~= lines_spec(after_first_line(rest)));
        match extract_semver(ls.as_str()) {
            Some(found) => {
                assert(first_version(lines_spec(rest)) == extract_semver_spec(first_line(rest)));
                return Ok(found);
            },
            None => {},
        }
        pos = next;
    }
    assert(v@.skip(pos as int) =~= Seq::<char>::empty());
    let mut m: Vec<char> = Vec::new();
    push_str(&mut m, "could not parse a semver from '");
    push_str(&mut m, binary);
    push_str(&mut m, " --version'");
    Err(string_from_chars(&m))
}


/// A skill found in one of the directories a harness reads by itself.
#[derive(Debug, Clone, PartialEq)]
pub struct FoundDirSkill {
    pub name: String,
    pub dir: String,
    pub tokens: u64,
}

impl FoundDirSkill {
    /// A copy of this entry.
    pub fn copy(&self) -> (r: FoundDirSkill)
        ensures
            r == *self,
    {
        FoundDirSkill { name: self.name.clone(), dir: self.dir.clone(), tokens: self.tokens }
    }
}

/// One directory a harness reads: whether it exists and the skills in it.
#[derive(Debug, Clone, PartialEq)]
pub struct DirReport {
    pub dir: String,
    pub exists: bool,
    pub skills: Vec<FoundDirSkill>,
}

/// The report of a directory from what scanning it found (nothing when the
/// scan failed): each skill with its estimated listing tokens.
pub fn dir_report(dir: String, exists: bool, found: &Vec<crate::library::FoundSkill>) -> (r: DirReport)
    ensures
        r.dir == dir,
        r.exists == exists,
        r.skills@.len() == found@.len(),
        forall|i: int| 0 <= i < found@.len() ==> {
            &&& (#[trigger] r.skills@[i]).name == found@[i].name
            &&& r.skills@[i].dir == dir
            &&& r.skills@[i].tokens == crate::tokens::estimate_spec(found@[i].name@.len(), found@[i].description@.len())
        },
{
    let mut skills: Vec<FoundDirSkill> = Vec::new();
    let mut i: usize = 0;
    while i < found.len()
        invariant
            0 <= i <= found@.len(),
            skills@.len() == i,
            forall|k: int| 0 <= k < i ==> {
                &&& (#[trigger] skills@[k]).name == found@[k].name
                &&& skills@[k].dir == dir
                &&& skills@[k].tokens == crate::tokens::estimate_spec(found@[k].name@.len(), found@[k].description@.len())
            },
        decreases found@.len() - i,
    {
        let f = &found[i];
        let tokens = crate::tokens::estimate(f.name.as_str(), f.description.as_str());
        skills.push(FoundDirSkill { name: f.name.clone(), dir: dir.clone(), tokens });
        i = i + 1;
    }
    DirReport { dir, exists, skills }
}

/// All skills of the reports, directory by directory.
pub open spec fn all_found(reports: Seq<DirReport>) -> Seq<FoundDirSkill>
    decreases reports.len(),
{
    if reports.len() == 0 {
        Seq::empty()
    } else {
        all_found(reports.drop_last()) + reports.last().skills@
    }
}

/// The names of the skills.
pub open spec fn found_names(s: Seq<FoundDirSkill>) -> Seq<Seq<char>> {
    s.map_values(|f: FoundDirSkill| f.name@)
}

/// The first skill of each name, in order.
pub open spec fn first_by_name(s: Seq<FoundDirSkill>) -> Seq<FoundDirSkill>
    decreases s.len(),
{
    if s.len() == 0 {
        Seq::empty()
    } else {
        first_by_name(s.drop_last()) + if found_names(s.drop_last()).contains(s.last().name@) {
            Seq::empty()
        } else {
            seq![s.last()]
        }
    }
}

/// The sum of the tokens of the skills.
pub open spec fn found_tokens(s: Seq<FoundDirSkill>) -> nat
    decreases s.len(),
{
    if s.len() == 0 {
        0
    } else {
        found_tokens(s.drop_last()) + s.last().tokens as nat
    }
}

/// The key by which found skills are ordered.
pub open spec fn found_key() -> spec_fn(FoundDirSkill) -> Seq<char> {
    |f: FoundDirSkill| f.name@
}

fn flatten(reports: &[DirReport]) -> (all: Vec<FoundDirSkill>)
    ensures
        all@ == all_found(reports@),
{
    let mut all: Vec<FoundDirSkill> = Vec::new();
    let mut i: usize = 0;
    while i < reports.len()
        invariant
            0 <= i <= reports@.len(),
            all@ == all_found(reports@.take(i as int)),
        decreases reports@.len() - i,
    {
        let skills = &reports[i].skills;
        let ghost before = all@;
        let mut j: usize = 0;
        while j < skills.len()
            invariant
                0 <= j <= skills@.len(),
                all@ == before + skills@.take(j as int),
            decreases skills@.len() - j,
        {
            all.push(skills[j].copy());
            assert(all@ =~= before + skills@.take(j + 1));
            j = j + 1;
        }
        assert(reports@.take(i + 1).drop_last() =~= reports@.take(i as int));
        assert(skills@.take(j as int) =~= skills@);
        i = i + 1;
    }
    assert(reports@.take(i as int) =~= reports@);
    all
}

fn firsts(s: &Vec<FoundDirSkill>) -> (r: Vec<FoundDirSkill>)
    ensures
        r@ == first_by_name(s@),
        found_names(r@).no_duplicates(),
        forall|n: Seq<char>| found_names(r@).contains(n) <==> found_names(s@).contains(n),
{
    let mut r: Vec<FoundDirSkill> = Vec::new();
    let mut names: Vec<String> = Vec::new();
    let mut i: usize = 0;
    while i < s.len()
        invariant
            0 <= i <= s@.len(),
            r@ == first_by_name(s@.take(i as int)),
            views(names@) == found_names(r@),
            found_names(r@).no_duplicates(),
            forall|n: Seq<char>| found_names(r@).contains(n) <==> found_names(s@.take(i as int)).contains(n),
        decreases s@.len() - i,
    {
        let ghost prefix = s@.take(i as int);
        assert(s@.take(i + 1).drop_last() =~= prefix);
        assert(s@.take(i + 1).last() == s@[i as int]);
        assert(found_names(s@.take(i + 1)) =~= found_names(prefix).push(s@[i as int].name@));
        let ghost x = s@[i as int].name@;
        let ghost old_names = found_names(r@);
        let ghost nx = found_names(s@.take(i + 1));
        if contains_string(&names, &s[i].name) {
            assert(r@ =~= first_by_name(prefix) + Seq::<FoundDirSkill>::empty());
            assert forall|n: Seq<char>| found_names(r@).contains(n) <==> nx.contains(n) by {
                if nx.contains(n) {
                    let j = choose|j: int| 0 <= j < nx.len() && nx[j] == n;
                    if j < i {
                        assert(found_names(prefix)[j] == n);
                    }
                }
                if found_names(prefix).contains(n) {
                    let j = choose|j: int| 0 <= j < found_names(prefix).len() && found_names(prefix)[j] == n;
                    assert(nx[j] == n);
                }
            }
        } else {
            r.push(s[i].copy());
            names.push(s[i].name.clone());
            assert(found_names(r@) =~= old_names.push(x));
            assert(views(names@) =~= found_names(r@));
            assert(r@ =~= first_by_name(prefix) + seq![s@[i as int]]);
            assert forall|n: Seq<char>| found_names(r@).contains(n) <==> nx.contains(n) by {
                if nx.contains(n) {
                    let j = choose|j: int| 0 <= j < nx.len() && nx[j] == n;
                    if j < i {
                        assert(found_names(prefix)[j] == n);
                        assert(old_names.contains(n));
                        let m = choose|m: int| 0 <= m < old_names.len() && old_names[m] == n;
                        assert(found_names(r@)[m] == n);
                    } else {
                        assert(found_names(r@)[old_names.len() as int] == n);
                    }
                }
                if found_names(r@).contains(n) {
                    let j = choose|j: int| 0 <= j < found_names(r@).len() && found_names(r@)[j] == n;
                    if j < old_names.len() {
                        assert(old_names[j] == n);
                        assert(old_names.contains(n));
                        assert(found_names(prefix).contains(n));
                        let m = choose|m: int| 0 <= m < found_names(prefix).len() && found_names(prefix)[m] == n;
                        assert(nx[m] == n);
                    } else {
                        assert(nx[i as int] == n);
                    }
                }
            }
            assert forall|a: int, b: int| 0 <= a < b < found_names(r@).len() implies found_names(r@)[a] != found_names(r@)[b] by {
                if b == old_names.len() {
                    assert(old_names[a] == found_names(r@)[a]);
                    assert(old_names.contains(old_names[a]));
                }
            }
        }
        i = i + 1;
    }
    assert(s@.take(i as int) =~= s@);
    r
}

fn sum_found(s: &Vec<FoundDirSkill>) -> (t: u64)
    requires
        found_tokens(s@) <= u64::MAX,
    ensures
        t == found_tokens(s@),
{
    let mut t: u64 = 0;
    let mut i: usize = 0;
    while i < s.len()
        invariant
            0 <= i <= s@.len(),
            found_tokens(s@) <= u64::MAX,
            t == found_tokens(s@.take(i as int)),
        decreases s@.len() - i,
    {
        proof {
            assert(s@.take(i + 1).drop_last() =~= s@.take(i as int));
            lemma_found_tokens_prefix(s@, i + 1);
        }
        t = t + s[i].tokens;
        i = i + 1;
    }
    assert(s@.take(i as int) =~= s@);
    t
}

proof fn lemma_found_tokens_prefix(s: Seq<FoundDirSkill>, n: int)
    requires
        0 <= n <= s.len(),
    ensures
        found_tokens(s.take(n)) <= found_tokens(s),
    decreases s.len() - n,
{
    if n < s.len() {
        lemma_found_tokens_prefix(s, n + 1);
        assert(s.take(n + 1).drop_last() =~= s.take(n));
    } else {
        assert(s.take(n) =~= s);
    }
}

fn sort_found(items: Vec<FoundDirSkill>) -> (res: (Vec<FoundDirSkill>, Ghost<(Seq<int>, Seq<int>)>))
    ensures
        crate::text::rearranges(res.0@, items@, res.1@.0, res.1@.1),
        crate::text::sorted_by(res.0@, found_key()),
{
    let mut keys: Vec<Vec<char>> = Vec::new();
    let mut i: usize = 0;
    while i < items.len()
        invariant
            0 <= i <= items@.len(),
            keys@.len() == i,
            forall|k: int| 0 <= k < i ==> #[trigger] keys@[k]@ == found_key()(items@[k]),
        decreases items@.len() - i,
    {
        keys.push(chars_of(items[i].name.as_str()));
        i = i + 1;
    }
    crate::text::sort_by_keys(items, keys, Ghost(found_key()))
}

/// The union of the skills a harness would list without lunchbox: the first
/// skill of each name across the directories in order, sorted by name, and
/// the sum of their tokens.
pub fn union_from(reports: &[DirReport]) -> (r: (u64, Vec<FoundDirSkill>))
    requires
        found_tokens(first_by_name(all_found(reports@))) <= u64::MAX,
    ensures
        r.0 == found_tokens(first_by_name(all_found(reports@))),
        exists|perm: Seq<int>, inv: Seq<int>| crate::text::rearranges(r.1@, first_by_name(all_found(reports@)), perm, inv),
        crate::text::sorted_by(r.1@, found_key()),
{
    let all = flatten(reports);
    let unique = firsts(&all);
    let total = sum_found(&unique);
    let ghost u = unique@;
    let (sorted, Ghost(pi)) = sort_found(unique);
    let r = (total, sorted);
    assert(crate::text::rearranges(r.1@, first_by_name(all_found(reports@)), pi.0, pi.1));
    r
}

/// What scanning one skill directory gave: whether it is a directory, and
/// the valid packages listed in it (`None` when it could not be scanned).
pub struct DirScan {
    pub exists: bool,
    pub found: Option<Vec<crate::library::FoundSkill>>,
}

/// The packages a scan listed (none when the scan failed).
pub open spec fn scan_found(scan: DirScan) -> Seq<crate::library::FoundSkill> {
    match scan.found {
        Some(f) => f@,
        None => Seq::empty(),
    }
}

/// `r` reports the directory `dir` as `scan` found it: each listed package
/// with its estimated listing tokens.
pub open spec fn report_of(dir: Seq<char>, scan: DirScan, r: DirReport) -> bool {
    &&& r.dir@ == dir
    &&& r.exists == scan.exists
    &&& r.skills@.len() == scan_found(scan).len()
    &&& forall|i: int| 0 <= i < scan_found(scan).len() ==> {
        &&& (#[trigger] r.skills@[i]).name@ == scan_found(scan)[i].name@
        &&& r.skills@[i].dir@ == dir
        &&& r.skills@[i].tokens == crate::tokens::estimate_spec(
            scan_found(scan)[i].name@.len(),
            scan_found(scan)[i].description@.len(),
        )
    }
}

/// `reports` reports the directories `dirs` as `scans` found them, in order.
pub open spec fn reports_of(dirs: Seq<Seq<char>>, scans: Seq<DirScan>, reports: Seq<DirReport>) -> bool {
    &&& reports.len() == dirs.len()
    &&& scans.len() == dirs.len()
    &&& forall|i: int| 0 <= i < dirs.len() ==> report_of(dirs[i], scans[i], #[trigger] reports[i])
}

/// The reports of the adapter's skill directories, from what scanning each
/// of them gave (`scans[i]` for the `i`-th directory).
pub fn scan_dirs<A: Adapter + ?Sized>(adapter: &A, cfg: &Config, host: &Host, scans: &Vec<DirScan>) -> (reports: Vec<DirReport>)
    requires
        scans@.len() == adapter.skill_dirs_spec(*cfg, *host).len(),
    ensures
        reports_of(adapter.skill_dirs_spec(*cfg, *host), scans@, reports@),
{
    let dirs = adapter.skill_dirs(cfg, host);
    let ghost d = adapter.skill_dirs_spec(*cfg, *host);
    let mut reports: Vec<DirReport> = Vec::new();
    let mut i: usize = 0;
    while i < dirs.len()
        invariant
            0 <= i <= dirs@.len(),
            views(dirs@) == d,
            d.len() == scans@.len(),
            reports@.len() == i,
            forall|k: int| 0 <= k < i ==> report_of(d[k], scans@[k], #[trigger] reports@[k]),
        decreases dirs@.len() - i,
    {
        let empty: Vec<crate::library::FoundSkill> = Vec::new();
        let found = match &scans[i].found {
            Some(f) => f,
            None => &empty,
        };
        let r = dir_report(dirs[i].clone(), scans[i].exists, found);
        assert(d[i as int] == dirs@[i as int]@);
        assert(found@ == scan_found(scans@[i as int]));
        reports.push(r);
        i = i + 1;
    }
    reports
}

/// The union of the adapter's menu, from what scanning each of its skill
/// directories gave: `union_from` over their reports.
pub fn union_menu<A: Adapter + ?Sized>(adapter: &A, cfg: &Config, host: &Host, scans: &Vec<DirScan>) -> (r: (u64, Vec<FoundDirSkill>))
    requires
        scans@.len() == adapter.skill_dirs_spec(*cfg, *host).len(),
        forall|reports: Seq<DirReport>| #[trigger]
            reports_of(adapter.skill_dirs_spec(*cfg, *host), scans@, reports) ==> found_tokens(
                first_by_name(all_found(reports)),
            ) <= u64::MAX,
    ensures
        exists|reports: Seq<DirReport>| {
            &&& reports_of(adapter.skill_dirs_spec(*cfg, *host), scans@, reports)
            &&& r.0 == found_tokens(first_by_name(all_found(reports)))
            &&& exists|perm: Seq<int>, inv: Seq<int>| crate::text::rearranges(r.1@, first_by_name(all_found(reports)), perm, inv)
            &&& crate::text::sorted_by(r.1@, found_key())
        },
{
    let reports = scan_dirs(adapter, cfg, host, scans);
    assert(reports_of(adapter.skill_dirs_spec(*cfg, *host), scans@, reports@));
    union_from(reports.as_slice())
}

/// The skill directories of the adapter that `name` selects (see `resolve_spec`).
pub open spec fn named_dirs_spec(name: Seq<char>, cfg: Config, host: Host) -> Seq<Seq<char>> {
    if name == "none"@ {
        NoneAdapter.skill_dirs_spec(cfg, host)
    } else {
        PiAdapter.skill_dirs_spec(cfg, host)
    }
}

/// The tokens of the menu the named harness would list without lunchbox,
/// from what scanning its skill directories gave; 0 when the name selects no adapter.
pub fn without_estimate(adapter_name: &str, cfg: &Config, host: &Host, scans: &Vec<DirScan>) -> (t: u64)
    requires
        resolve_spec(adapter_name@) is Ok ==> {
            &&& scans@.len() == named_dirs_spec(adapter_name@, *cfg, *host).len()
            &&& forall|reports: Seq<DirReport>| #[trigger]
                reports_of(named_dirs_spec(adapter_name@, *cfg, *host), scans@, reports) ==> found_tokens(
                    first_by_name(all_found(reports)),
                ) <= u64::MAX
        },
    ensures
        resolve_spec(adapter_name@) is Err ==> t == 0,
        resolve_spec(adapter_name@) is Ok ==> exists|reports: Seq<DirReport>| #[trigger]
            reports_of(named_dirs_spec(adapter_name@, *cfg, *host), scans@, reports) && t == found_tokens(
                first_by_name(all_found(reports)),
            ),
{
    match resolve_adapter(adapter_name) {
        Ok(adapter) => {
            assert(adapter.skill_dirs_spec(*cfg, *host) == named_dirs_spec(adapter_name@, *cfg, *host));
            let r = union_menu(&*adapter, cfg, host, scans);
            r.0
        },
        Err(_) => 0,
    }
}


/// The two lists hold skills of the same names and tokens, position by position.
pub open spec fn same_names_and_tokens(s: Seq<FoundDirSkill>, t: Seq<FoundDirSkill>) -> bool {
    &&& s.len() == t.len()
    &&& forall|i: int| 0 <= i < s.len() ==> {
        &&& (#[trigger] s[i]).name@ == t[i].name@
        &&& s[i].tokens == t[i].tokens
    }
}

proof fn lemma_all_found_agree(a: Seq<DirReport>, b: Seq<DirReport>)
    requires
        a.len() == b.len(),
        forall|i: int| 0 <= i < a.len() ==> same_names_and_tokens(#[trigger] a[i].skills@, b[i].skills@),
    ensures
        same_names_and_tokens(all_found(a), all_found(b)),
    decreases a.len(),
{
    if a.len() > 0 {
        lemma_all_found_agree(a.drop_last(), b.drop_last());
        assert(same_names_and_tokens(a.last().skills@, b.last().skills@));
        let x = all_found(a.drop_last());
        let y = all_found(b.drop_last());
        assert forall|i: int| 0 <= i < all_found(a).len() implies {
            &&& (#[trigger] all_found(a)[i]).name@ == all_found(b)[i].name@
            &&& all_found(a)[i].tokens == all_found(b)[i].tokens
        } by {
            if i >= x.len() {
                assert(all_found(a)[i] == a.last().skills@[i - x.len()]);
                assert(all_found(b)[i] == b.last().skills@[i - y.len()]);
            }
        }
    }
}

proof fn lemma_first_by_name_agree(s: Seq<FoundDirSkill>, t: Seq<FoundDirSkill>)
    requires
        same_names_and_tokens(s, t),
    ensures
        same_names_and_tokens(first_by_name(s), first_by_name(t)),
    decreases s.len(),
{
    if s.len() > 0 {
        assert(same_names_and_tokens(s.drop_last(), t.drop_last()));
        lemma_first_by_name_agree(s.drop_last(), t.drop_last());
        assert(found_names(s.drop_last()) =~= found_names(t.drop_last()));
        assert(s.last().name@ == t.last().name@);
        let x = first_by_name(s.drop_last());
        let y = first_by_name(t.drop_last());
        assert forall|i: int| 0 <= i < first_by_name(s).len() implies {
            &&& (#[trigger] first_by_name(s)[i]).name@ == first_by_name(t)[i].name@
            &&& first_by_name(s)[i].tokens == first_by_name(t)[i].tokens
        } by {
            if i >= x.len() {
                assert(first_by_name(s)[i] == s.last());
                assert(first_by_name(t)[i] == t.last());
            }
        }
    }
}

proof fn lemma_found_tokens_agree(s: Seq<FoundDirSkill>, t: Seq<FoundDirSkill>)
    requires
        same_names_and_tokens(s, t),
    ensures
        found_tokens(s) == found_tokens(t),
    decreases s.len(),
{
    if s.len() > 0 {
        assert(same_names_and_tokens(s.drop_last(), t.drop_last()));
        lemma_found_tokens_agree(s.drop_last(), t.drop_last());
        assert(s.last().tokens == t[s.len() - 1].tokens);
    }
}

/// The union total is a function of the directories and of what scanning
/// them gave: any two report lists of the same directories and scans give
/// the same total. So the estimate `without_estimate` gives for an adapter's
/// name is the total `union_menu` gives for that adapter on the same scans.
pub proof fn union_total_is_determined(
    dirs: Seq<Seq<char>>,
    scans: Seq<DirScan>,
    a: Seq<DirReport>,
    b: Seq<DirReport>,
)
    requires
        reports_of(dirs, scans, a),
        reports_of(dirs, scans, b),
    ensures
        found_tokens(first_by_name(all_found(a))) == found_tokens(first_by_name(all_found(b))),
{
    assert forall|i: int| 0 <= i < a.len() implies same_names_and_tokens(#[trigger] a[i].skills@, b[i].skills@) by {
        assert(report_of(dirs[i], scans[i], a[i]));
        assert(report_of(dirs[i], scans[i], b[i]));
        assert forall|k: int| 0 <= k < a[i].skills@.len() implies {
            &&& (#[trigger] a[i].skills@[k]).name@ == b[i].skills@[k].name@
            &&& a[i].skills@[k].tokens == b[i].skills@[k].tokens
        } by {
            assert(a[i].skills@[k].name@ == scan_found(scans[i])[k].name@);
            assert(b[i].skills@[k].name@ == scan_found(scans[i])[k].name@);
        }
    }
    lemma_all_found_agree(a, b);
    lemma_first_by_name_agree(all_found(a), all_found(b));
    lemma_found_tokens_agree(first_by_name(all_found(a)), first_by_name(all_found(b)));
}

/// How an adapter keeps the harness to the mount, as `start` reports it.
pub open spec fn isolation_summary_spec(adapter: Seq<char>) -> Seq<char> {
    if adapter == "pi"@ {
        "path A flags applied: --no-skills --skill <workdir>"@
    } else {
        "none — mounted, not spawned"@
    }
}

/// How an adapter keeps the harness to the mount (see `isolation_summary_spec`).
pub fn isolation_summary(adapter: &str) -> (s: &'static str)
    ensures
        s@ == isolation_summary_spec(adapter@),
{
    if crate::text::str_eq(adapter, "pi") {
        "path A flags applied: --no-skills --skill <workdir>"
    } else {
        "none — mounted, not spawned"
    }
}

/// How `adapters` reports a selftest.
pub open spec fn selftest_text(name: Seq<char>, outcome: SelftestOutcome) -> Seq<char> {
    match outcome {
        SelftestOutcome::Passed => "selftest: ok"@,
        SelftestOutcome::Skipped => name + " not found; selftest skipped"@,
        SelftestOutcome::Failed(reason) => "selftest: FAILED — "@ + reason@,
    }
}

/// An adapter's line in `adapters`: its name, its version (or why there is
/// none) and its selftest.
pub open spec fn adapter_line_spec(name: Seq<char>, version: Seq<char>, outcome: SelftestOutcome) -> Seq<char> {
    crate::tui::view::pad(name, 8) + " "@ + crate::tui::view::pad(version, 12) + " "@ + selftest_text(name, outcome)
}

/// An adapter's line in `adapters` (see `adapter_line_spec`).
pub fn adapter_line(name: &str, version: &str, outcome: &SelftestOutcome) -> (s: String)
    ensures
        s@ == adapter_line_spec(name@, version@, *outcome),
{
    let mut v: Vec<char> = Vec::new();
    crate::tui::view::push_padded(&mut v, name, 8);
    crate::text::push_str(&mut v, " ");
    crate::tui::view::push_padded(&mut v, version, 12);
    crate::text::push_str(&mut v, " ");
    match outcome {
        SelftestOutcome::Passed => crate::text::push_str(&mut v, "selftest: ok"),
        SelftestOutcome::Skipped => {
            crate::text::push_str(&mut v, name);
            crate::text::push_str(&mut v, " not found; selftest skipped");
        },
        SelftestOutcome::Failed(reason) => {
            crate::text::push_str(&mut v, "selftest: FAILED — ");
            crate::text::push_str(&mut v, reason.as_str());
        },
    }
    crate::text::string_from_chars(&v)
}

/// How many skills the doctor lists as the fattest.
pub const FATTEST_COUNT: usize = 5;

/// Among the fattest, the skill at position `a` of `union` comes before the
/// one at `b`: it costs more tokens, or as many and comes first.
pub open spec fn heavier(union: Seq<FoundDirSkill>, a: int, b: int) -> bool {
    union[a].tokens > union[b].tokens || (union[a].tokens == union[b].tokens && a < b)
}

/// `picks` are the positions of the fattest skills of `union`, fattest
/// first: as many as `FATTEST_COUNT` allows, each before every skill left out.
pub open spec fn fattest_positions(union: Seq<FoundDirSkill>, picks: Seq<int>) -> bool {
    &&& picks.len() == if union.len() < FATTEST_COUNT {
        union.len()
    } else {
        FATTEST_COUNT as nat
    }
    &&& forall|i: int| 0 <= i < picks.len() ==> 0 <= #[trigger] picks[i] < union.len()
    &&& forall|i: int, j: int| 0 <= i < j < picks.len() ==> heavier(union, #[trigger] picks[i], #[trigger] picks[j])
    &&& forall|i: int, m: int|
        0 <= i < picks.len() && 0 <= m < union.len() && !(#[trigger] picks.contains(m)) ==> heavier(
            union,
            #[trigger] picks[i],
            m,
        )
}

/// The number of `true` flags.
pub open spec fn count_true(s: Seq<bool>) -> nat
    decreases s.len(),
{
    if s.len() == 0 {
        0
    } else {
        count_true(s.drop_last()) + if s.last() {
            1nat
        } else {
            0nat
        }
    }
}

proof fn lemma_count_set(s: Seq<bool>, x: int)
    requires
        0 <= x < s.len(),
        !s[x],
    ensures
        count_true(s.update(x, true)) == count_true(s) + 1,
    decreases s.len(),
{
    if x < s.len() - 1 {
        assert(s.update(x, true).drop_last() =~= s.drop_last().update(x, true));
        lemma_count_set(s.drop_last(), x);
    } else {
        assert(s.update(x, true).drop_last() =~= s.drop_last());
    }
}

proof fn lemma_count_some_false(s: Seq<bool>)
    requires
        count_true(s) < s.len(),
    ensures
        exists|x: int| 0 <= x < s.len() && !s[x],
    decreases s.len(),
{
    if s.last() {
        lemma_count_some_false(s.drop_last());
        let x = choose|x: int| 0 <= x < s.drop_last().len() && !s.drop_last()[x];
        assert(!s[x]);
    } else {
        assert(!s[s.len() - 1]);
    }
}

/// The fattest skills of the union, fattest first (ties in union order).
pub fn fattest(union: &Vec<FoundDirSkill>) -> (r: Vec<FoundDirSkill>)
    ensures
        exists|picks: Seq<int>| {
            &&& fattest_positions(union@, picks)
            &&& r@.len() == picks.len()
            &&& forall|i: int| 0 <= i < picks.len() ==> #[trigger] r@[i] == union@[picks[i]]
        },
{
    let n = union.len();
    let k: usize = if n < FATTEST_COUNT { n } else { FATTEST_COUNT };
    let mut taken: Vec<bool> = Vec::new();
    while taken.len() < n
        invariant
            taken@.len() <= n,
            forall|x: int| 0 <= x < taken@.len() ==> !taken@[x],
            count_true(taken@) == 0,
        decreases n - taken@.len(),
    {
        let ghost before = taken@;
        taken.push(false);
        assert(taken@.drop_last() =~= before);
    }
    let mut out: Vec<FoundDirSkill> = Vec::new();
    let ghost mut picks: Seq<int> = Seq::empty();
    while out.len() < k
        invariant
            n == union@.len(),
            k == (if n < FATTEST_COUNT { n } else { FATTEST_COUNT }),
            taken@.len() == n,
            out@.len() == picks.len(),
            picks.len() <= k,
            count_true(taken@) == picks.len(),
            forall|x: int| 0 <= x < n ==> (taken@[x] <==> picks.contains(x)),
            forall|i: int| 0 <= i < picks.len() ==> 0 <= #[trigger] picks[i] < n,
            forall|i: int| 0 <= i < picks.len() ==> #[trigger] out@[i] == union@[picks[i]],
            forall|i: int, j: int| 0 <= i < j < picks.len() ==> heavier(union@, #[trigger] picks[i], #[trigger] picks[j]),
            forall|i: int, m: int|
                0 <= i < picks.len() && 0 <= m < n && !(#[trigger] picks.contains(m)) ==> heavier(
                    union@,
                    #[trigger] picks[i],
                    m,
                ),
        decreases k - out@.len(),
    {
        let mut best: usize = n;
        let mut idx: usize = 0;
        while idx < n
            invariant
                n == union@.len(),
                taken@.len() == n,
                0 <= idx <= n,
                best == n || (best < idx && !taken@[best as int]),
                best == n ==> forall|x: int| 0 <= x < idx ==> taken@[x],
                best < n ==> forall|x: int|
                    0 <= x < idx && !taken@[x] ==> (x == best || heavier(union@, best as int, x)),
            decreases n - idx,
        {
            if !taken[idx] {
                if best == n || union[idx].tokens > union[best].tokens {
                    best = idx;
                }
            }
            idx = idx + 1;
        }
        proof {
            lemma_count_some_false(taken@);
        }
        assert(best < n);
        proof {
            lemma_count_set(taken@, best as int);
        }
        let ghost old_picks = picks;
        taken.set(best, true);
        out.push(union[best].copy());
        proof {
            picks = picks.push(best as int);
            assert forall|x: int| 0 <= x < n implies (taken@[x] <==> picks.contains(x)) by {
                if x == best as int {
                    assert(picks[picks.len() - 1] == x);
                } else {
                    if picks.contains(x) {
                        let j = choose|j: int| 0 <= j < picks.len() && picks[j] == x;
                        assert(old_picks[j] == x);
                    }
                    if old_picks.contains(x) {
                        let j = choose|j: int| 0 <= j < old_picks.len() && old_picks[j] == x;
                        assert(picks[j] == x);
                    }
                }
            }
            assert forall|i: int, j: int| 0 <= i < j < picks.len() implies heavier(union@, #[trigger] picks[i], #[trigger] picks[j]) by {
                if j == picks.len() - 1 {
                    assert(!old_picks.contains(best as int));
                    assert(old_picks[i] == picks[i]);
                }
            }
            assert forall|i: int, m: int|
                0 <= i < picks.len() && 0 <= m < n && !(#[trigger] picks.contains(m)) implies heavier(
                    union@,
                    #[trigger] picks[i],
                    m,
                ) by {
                assert(m != best as int);
                assert(!old_picks.contains(m)) by {
                    if old_picks.contains(m) {
                        let j = choose|j: int| 0 <= j < old_picks.len() && old_picks[j] == m;
                        assert(picks[j] == m);
                    }
                }
                assert(!taken@[m]);
                if i < old_picks.len() {
                    assert(old_picks[i] == picks[i]);
                }
            }
        }
    }
    assert(picks.len() == k);
    assert(fattest_positions(union@, picks));
    out
}


/// The adapters this build offers, in the order they are listed.
pub fn available_adapters() -> (names: Vec<String>)
    ensures
        views(names@) == seq!["none"@, "pi"@],
{
    let mut names: Vec<String> = Vec::new();
    names.push(to_string("none"));
    names.push(to_string("pi"));
    assert(views(names@) =~= seq!["none"@, "pi"@]);
    names
}

/// The harness binary of an adapter, whose `--version` and `--help` are
/// read: none for `none`, which spawns nothing.
pub open spec fn harness_binary_spec(adapter: Seq<char>) -> Option<Seq<char>> {
    if adapter == "pi"@ {
        Some("pi"@)
    } else if adapter == "omp"@ {
        Some("omp"@)
    } else {
        None
    }
}

pub fn harness_binary(adapter: &str) -> (b: Option<&'static str>)
    ensures
        match (b, harness_binary_spec(adapter@)) {
            (Some(x), Some(y)) => x@ == y,
            (None, None) => true,
            _ => false,
        },
{
    if crate::text::str_eq(adapter, "pi") {
        Some("pi")
    } else if crate::text::str_eq(adapter, "omp") {
        Some("omp")
    } else {
        None
    }
}

/// The flags a harness's `--help` must still offer for its isolation to hold.
pub open spec fn isolation_flags_spec(adapter: Seq<char>) -> Seq<Seq<char>> {
    if adapter == "pi"@ {
        seq!["--no-skills"@, "--skill"@]
    } else if adapter == "omp"@ {
        seq!["--config"@]
    } else {
        Seq::empty()
    }
}

pub fn isolation_flags(adapter: &str) -> (flags: Vec<String>)
    ensures
        views(flags@) == isolation_flags_spec(adapter@),
{
    let mut flags: Vec<String> = Vec::new();
    if crate::text::str_eq(adapter, "pi") {
        flags.push(to_string("--no-skills"));
        flags.push(to_string("--skill"));
        assert(views(flags@) =~= seq!["--no-skills"@, "--skill"@]);
    } else if crate::text::str_eq(adapter, "omp") {
        flags.push(to_string("--config"));
        assert(views(flags@) =~= seq!["--config"@]);
    } else {
        assert(views(flags@) =~= Seq::<Seq<char>>::empty());
    }
    flags
}

/// The skills of `s` named `n`, in order.
pub open spec fn same_name(s: Seq<FoundDirSkill>, n: Seq<char>) -> Seq<FoundDirSkill>
    decreases s.len(),
{
    if s.len() == 0 {
        Seq::empty()
    } else {
        same_name(s.drop_last(), n) + if s.last().name@ == n {
            seq![s.last()]
        } else {
            Seq::empty()
        }
    }
}

proof fn lemma_same_name(s: Seq<FoundDirSkill>, n: Seq<char>)
    ensures
        forall|k: int| 0 <= k < same_name(s, n).len() ==> (#[trigger] same_name(s, n)[k]).name@ == n,
        found_names(s).contains(n) ==> same_name(s, n).len() > 0,
    decreases s.len(),
{
    if s.len() > 0 {
        lemma_same_name(s.drop_last(), n);
        let p = same_name(s.drop_last(), n);
        assert forall|k: int| 0 <= k < same_name(s, n).len() implies (#[trigger] same_name(s, n)[k]).name@ == n by {
            if k < p.len() {
                assert(same_name(s, n)[k] == p[k]);
            }
        }
        if found_names(s).contains(n) && !found_names(s.drop_last()).contains(n) {
            let k = choose|k: int| 0 <= k < found_names(s).len() && found_names(s)[k] == n;
            if k < s.len() - 1 {
                assert(found_names(s.drop_last())[k] == n);
            }
        }
    }
}

fn named_in(s: &Vec<FoundDirSkill>, name: &String) -> (g: Vec<FoundDirSkill>)
    ensures
        g@ == same_name(s@, name@),
{
    let mut g: Vec<FoundDirSkill> = Vec::new();
    let mut i: usize = 0;
    while i < s.len()
        invariant
            0 <= i <= s@.len(),
            g@ == same_name(s@.take(i as int), name@),
        decreases s@.len() - i,
    {
        assert(s@.take(i + 1).drop_last() =~= s@.take(i as int));
        assert(s@.take(i + 1).last() == s@[i as int]);
        let ghost before = g@;
        if s[i].name.eq(name) {
            g.push(s[i].copy());
            assert(g@ =~= before + seq![s@[i as int]]);
        } else {
            assert(g@ =~= before + Seq::<FoundDirSkill>::empty());
        }
        i = i + 1;
    }
    assert(s@.take(i as int) =~= s@);
    g
}

/// The key by which groups are ordered: the name they share.
pub open spec fn group_key() -> spec_fn(Vec<FoundDirSkill>) -> Seq<char> {
    |g: Vec<FoundDirSkill>| if g@.len() > 0 {
        g@[0].name@
    } else {
        Seq::empty()
    }
}

/// `groups` are the skills of `skills` that share a name with another,
/// grouped by name: one group per repeated name, in name order, each holding
/// every skill of that name in order.
pub open spec fn duplicate_groups(skills: Seq<FoundDirSkill>, groups: Seq<Vec<FoundDirSkill>>) -> bool {
    &&& forall|i: int| 0 <= i < groups.len() ==> {
        &&& (#[trigger] groups[i])@.len() > 1
        &&& groups[i]@ == same_name(skills, groups[i]@[0].name@)
    }
    &&& forall|i: int, j: int| 0 <= i < j < groups.len() ==> crate::text::chars_lt(
        (#[trigger] groups[i])@[0].name@,
        (#[trigger] groups[j])@[0].name@,
    )
    &&& forall|k: int| 0 <= k < skills.len() && #[trigger] same_name(skills, skills[k].name@).len() > 1 ==> exists|i: int|
        0 <= i < groups.len() && (#[trigger] groups[i])@[0].name@ == skills[k].name@
}

/// The skills that share a name with another, grouped by name (see `duplicate_groups`).
pub fn duplicates(skills: &Vec<FoundDirSkill>) -> (groups: Vec<Vec<FoundDirSkill>>)
    ensures
        duplicate_groups(skills@, groups@),
{
    let unique = firsts(skills);
    let mut picked: Vec<Vec<FoundDirSkill>> = Vec::new();
    let mut keys: Vec<Vec<char>> = Vec::new();
    let mut i: usize = 0;
    while i < unique.len()
        invariant
            0 <= i <= unique@.len(),
            found_names(unique@).no_duplicates(),
            forall|n: Seq<char>| found_names(unique@).contains(n) <==> found_names(skills@).contains(n),
            keys@.len() == picked@.len(),
            forall|k: int| 0 <= k < picked@.len() ==> #[trigger] keys@[k]@ == group_key()(picked@[k]),
            forall|k: int| 0 <= k < picked@.len() ==> {
                &&& (#[trigger] picked@[k])@.len() > 1
                &&& picked@[k]@ == same_name(skills@, picked@[k]@[0].name@)
            },
            forall|k: int| 0 <= k < picked@.len() ==> exists|u: int| 0 <= u < i && #[trigger] found_names(unique@)[u] == (#[trigger] picked@[k])@[0].name@,
            forall|k1: int, k2: int| 0 <= k1 < k2 < picked@.len() ==> (#[trigger] picked@[k1])@[0].name@ != (#[trigger] picked@[k2])@[0].name@,
            forall|u: int| 0 <= u < i && #[trigger] same_name(skills@, found_names(unique@)[u]).len() > 1 ==> exists|k: int|
                0 <= k < picked@.len() && (#[trigger] picked@[k])@[0].name@ == found_names(unique@)[u],
        decreases unique@.len() - i,
    {
        let g = named_in(skills, &unique[i].name);
        proof {
            lemma_same_name(skills@, unique@[i as int].name@);
            assert(found_names(unique@)[i as int] == unique@[i as int].name@);
        }
        if g.len() > 1 {
            let key = chars_of(g[0].name.as_str());
            let ghost gv = g@;
            let ghost old_picked = picked@;
            proof {
                assert forall|k: int| 0 <= k < old_picked.len() implies (#[trigger] old_picked[k])@[0].name@ != gv[0].name@ by {
                    let u = choose|u: int| 0 <= u < i && found_names(unique@)[u] == old_picked[k]@[0].name@;
                    assert(found_names(unique@)[u] != found_names(unique@)[i as int]);
                }
            }
            picked.push(g);
            keys.push(key);
            assert(picked@[picked@.len() - 1]@ == gv);
            assert(found_names(unique@)[i as int] == gv[0].name@);
            assert forall|k: int| 0 <= k < old_picked.len() implies picked@[k] == old_picked[k] by {}
            assert forall|uu: int| 0 <= uu < i + 1 && #[trigger] same_name(skills@, found_names(unique@)[uu]).len() > 1 implies exists|k: int|
                0 <= k < picked@.len() && (#[trigger] picked@[k])@[0].name@ == found_names(unique@)[uu] by {
                if uu < i {
                    let k = choose|k: int| 0 <= k < old_picked.len() && (#[trigger] old_picked[k])@[0].name@ == found_names(unique@)[uu];
                    assert(picked@[k] == old_picked[k]);
                } else {
                    assert(picked@[old_picked.len() as int]@[0].name@ == found_names(unique@)[uu]);
                }
            }
        } else {
            assert forall|uu: int| 0 <= uu < i + 1 && #[trigger] same_name(skills@, found_names(unique@)[uu]).len() > 1 implies exists|k: int|
                0 <= k < picked@.len() && (#[trigger] picked@[k])@[0].name@ == found_names(unique@)[uu] by {
                if uu == i {
                    assert(g@.len() <= 1);
                }
            }
        }
        i = i + 1;
    }
    let ghost items = picked@;
    let (sorted, Ghost(pi)) = crate::text::sort_by_keys(picked, keys, Ghost(group_key()));
    proof {
        let (perm, inv) = pi;
        assert forall|a: int| 0 <= a < sorted@.len() implies {
            &&& (#[trigger] sorted@[a])@.len() > 1
            &&& sorted@[a]@ == same_name(skills@, sorted@[a]@[0].name@)
        } by {
            assert(sorted@[a] == items[perm[a]]);
        }
        assert forall|a: int, b: int| 0 <= a < b < sorted@.len() implies crate::text::chars_lt(
            (#[trigger] sorted@[a])@[0].name@,
            (#[trigger] sorted@[b])@[0].name@,
        ) by {
            let pa = perm[a];
            let pb = perm[b];
            assert(sorted@[a] == items[pa]);
            assert(sorted@[b] == items[pb]);
            assert(crate::text::chars_le(group_key()(sorted@[a]), group_key()(sorted@[b])));
            assert(pa != pb);
            if pa < pb {
                assert(items[pa]@[0].name@ != items[pb]@[0].name@);
            } else {
                assert(items[pb]@[0].name@ != items[pa]@[0].name@);
            }
            crate::text::lemma_chars_lt_total(items[pa]@[0].name@, items[pb]@[0].name@);
        }
        assert forall|k: int| 0 <= k < skills@.len() && #[trigger] same_name(skills@, skills@[k].name@).len() > 1 implies exists|j: int|
            0 <= j < sorted@.len() && (#[trigger] sorted@[j])@[0].name@ == skills@[k].name@ by {
            let n = skills@[k].name@;
            assert(found_names(skills@)[k] == n);
            assert(found_names(skills@).contains(n));
            let u = choose|u: int| 0 <= u < found_names(unique@).len() && found_names(unique@)[u] == n;
            assert(same_name(skills@, found_names(unique@)[u]).len() > 1);
            let kk = choose|kk: int| 0 <= kk < items.len() && (#[trigger] items[kk])@[0].name@ == found_names(unique@)[u];
            let j = inv[kk];
            assert(sorted@[j] == items[kk]);
        }
    }
    sorted
}

} // verus!
