//! Configuration: a global layer (`~/.lunchbox/config.toml`) and a project
//! layer (`./lunchbox.toml`) merged over built-in defaults.
use crate::paths::{is_absolute, is_absolute_spec, join, join_spec};
use crate::text::{
    chars_eq, chars_of, clone_strings, contains_string, dedup_spec, dedup_strings, push_str,
    slice_chars, string_from_chars, to_string, views};
use vstd::prelude::*;

verus! {

/// How the packages of a run reach its workdir.
#[derive(Debug, Clone, Copy, PartialEq, Eq, Structural)]
pub enum MountMode {
    Symlink,
    Copy,
}

impl Default for MountMode {
    fn default() -> (m: Self)
        ensures
            m == MountMode::Symlink,
    {
        MountMode::Symlink
    }
}

impl MountMode {
    /// The lowercase name of the mode, as configuration files spell it.
    pub open spec fn name_spec(self) -> Seq<char> {
        match self {
            MountMode::Symlink => "symlink"@,
            MountMode::Copy => "copy"@,
        }
    }

    pub fn as_str(self) -> (s: &'static str)
        ensures
            s@ == self.name_spec(),
    {
        match self {
            MountMode::Symlink => "symlink",
            MountMode::Copy => "copy",
        }
    }
}

/// The merged configuration that a command runs with.
#[derive(Debug, Clone, PartialEq)]
pub struct Config {
    pub library_paths: Vec<String>,
    pub default_adapter: String,
    pub mount_mode: MountMode,
    pub scan_command: String,
    pub allow: Vec<String>,
    pub deny: Vec<String>,
    pub max_menu_tokens: u64,
    pub fail_on_budget: bool,
    pub runs_dir: String,
}

impl Config {
    /// The built-in defaults.
    pub open spec fn is_default(self) -> bool {
        &&& self.library_paths@.len() == 0
        &&& self.default_adapter@ == "pi"@
        &&& self.mount_mode == MountMode::Symlink
        &&& self.scan_command@.len() == 0
        &&& self.allow@.len() == 0
        &&& self.deny@.len() == 0
        &&& self.max_menu_tokens == 2000
        &&& !self.fail_on_budget
        &&& self.runs_dir@ == "~/.lunchbox/runs"@
    }
}

impl Default for Config {
    fn default() -> (c: Self)
        ensures
            c.is_default(),
    {
        Config {
            library_paths: Vec::new(),
            default_adapter: to_string("pi"),
            mount_mode: MountMode::Symlink,
            scan_command: String::new(),
            allow: Vec::new(),
            deny: Vec::new(),
            max_menu_tokens: 2000,
            fail_on_budget: false,
            runs_dir: to_string("~/.lunchbox/runs"),
        }
    }
}

/// One configuration file: each key it sets, and `None` for the keys it leaves out.
#[derive(Debug, Clone, PartialEq)]
pub struct Layer {
    pub library_paths: Option<Vec<String>>,
    pub default_adapter: Option<String>,
    pub mount_mode: Option<MountMode>,
    pub scan_command: Option<String>,
    pub allow: Option<Vec<String>>,
    pub deny: Option<Vec<String>>,
    pub max_menu_tokens: Option<u64>,
    pub fail_on_budget: Option<bool>,
    pub runs_dir: Option<String>,
}

impl Layer {
    /// A layer that sets nothing, as an absent file gives.
    pub open spec fn is_empty(self) -> bool {
        &&& self.library_paths is None
        &&& self.default_adapter is None
        &&& self.mount_mode is None
        &&& self.scan_command is None
        &&& self.allow is None
        &&& self.deny is None
        &&& self.max_menu_tokens is None
        &&& self.fail_on_budget is None
        &&& self.runs_dir is None
    }
}

impl Default for Layer {
    fn default() -> (l: Self)
        ensures
            l.is_empty(),
    {
        Layer {
            library_paths: None,
            default_adapter: None,
            mount_mode: None,
            scan_command: None,
            allow: None,
            deny: None,
            max_menu_tokens: None,
            fail_on_budget: None,
            runs_dir: None,
        }
    }
}

/// The allow and deny lists of one configuration file.
#[derive(Debug, Clone, PartialEq)]
pub struct LayerReport {
    pub path: String,
    pub exists: bool,
    pub allow: Vec<String>,
    pub deny: Vec<String>,
}

/// Which policy list of a layer.
#[derive(Debug, Clone, Copy, PartialEq, Eq, Structural)]
pub enum List {
    Allow,
    Deny,
}

impl List {
    pub open spec fn name_spec(self) -> Seq<char> {
        match self {
            List::Allow => "allow"@,
            List::Deny => "deny"@,
        }
    }

    /// The key of the list in a configuration file.
    pub fn as_str(self) -> (s: &'static str)
        ensures
            s@ == self.name_spec(),
    {
        match self {
            List::Allow => "allow",
            List::Deny => "deny",
        }
    }
}

/// The policy lists of one configuration file as it was read.
pub fn layer_report(path: &str, exists: bool, layer: &Layer) -> (r: LayerReport)
    ensures
        r.path@ == path@,
        r.exists == exists,
        r.allow@ == match layer.allow {
            Some(a) => a@,
            None => Seq::empty(),
        },
        r.deny@ == match layer.deny {
            Some(d) => d@,
            None => Seq::empty(),
        },
{
    LayerReport {
        path: to_string(path),
        exists,
        allow: match &layer.allow {
            Some(a) => clone_strings(a),
            None => Vec::new(),
        },
        deny: match &layer.deny {
            Some(d) => clone_strings(d),
            None => Vec::new(),
        },
    }
}

/// The refusal when `HOME` is unknown.
pub open spec fn home_unset_message() -> Seq<char> {
    "HOME is not set; cannot locate the lunchbox directory"@
}

/// `~/.lunchbox`, given the value of `HOME`.
pub fn lunchbox_home(home: Option<&str>) -> (r: Result<String, String>)
    ensures
        match home {
            Some(h) => r is Ok && r->Ok_0@ == join_spec(h@, ".lunchbox"@),
            None => r is Err && r->Err_0@ == home_unset_message(),
        },
{
    match home {
        Some(h) => Ok(join(h, ".lunchbox")),
        None => Err(to_string("HOME is not set; cannot locate the lunchbox directory")),
    }
}

/// The global configuration file, `~/.lunchbox/config.toml`.
pub fn global_path(home: Option<&str>) -> (r: Result<String, String>)
    ensures
        match home {
            Some(h) => r is Ok && r->Ok_0@ == join_spec(join_spec(h@, ".lunchbox"@), "config.toml"@),
            None => r is Err && r->Err_0@ == home_unset_message(),
        },
{
    let dir = lunchbox_home(home)?;
    Ok(join(dir.as_str(), "config.toml"))
}

/// The project configuration file, `lunchbox.toml` in the working directory.
pub fn project_path() -> (p: String)
    ensures
        p@ == "lunchbox.toml"@,
{
    to_string("lunchbox.toml")
}

/// The value that a key takes: the project's, else the global's, else the default.
pub open spec fn pick_spec<T>(global: Option<T>, project: Option<T>, default: T) -> T {
    match project {
        Some(p) => p,
        None => match global {
            Some(g) => g,
            None => default,
        },
    }
}

fn pick<T>(global: Option<T>, project: Option<T>, default: T) -> (r: T)
    ensures
        r == pick_spec(global, project, default),
{
    match project {
        Some(p) => p,
        None => match global {
            Some(g) => g,
            None => default,
        },
    }
}

/// The effective allow list: one side's list when the other side's is empty,
/// else the global entries that the project also allows, in global order.
pub open spec fn merge_allow_spec(global: Seq<Seq<char>>, project: Seq<Seq<char>>) -> Seq<Seq<char>> {
    if global.len() == 0 {
        project
    } else if project.len() == 0 {
        global
    } else {
        global.filter(|name: Seq<char>| project.contains(name))
    }
}

fn merge_allow(global: Vec<String>, project: Vec<String>) -> (r: Vec<String>)
    ensures
        views(r@) == merge_allow_spec(views(global@), views(project@)),
{
    if global.len() == 0 {
        return project;
    }
    if project.len() == 0 {
        return global;
    }
    let ghost g = views(global@);
    let ghost p = views(project@);
    let ghost pred = |name: Seq<char>| p.contains(name);
    let mut out: Vec<String> = Vec::new();
    let mut i: usize = 0;
    while i < global.len()
        invariant
            0 <= i <= global@.len(),
            g == views(global@),
            p == views(project@),
            pred == (|name: Seq<char>| p.contains(name)),
            views(out@) == g.take(i as int).filter(pred),
        decreases global@.len() - i,
    {
        let keep = contains_string(&project, &global[i]);
        proof {
            reveal_with_fuel(Seq::<_>::filter, 1);
            assert(g.take(i + 1).drop_last() =~= g.take(i as int));
            assert(g.take(i + 1).last() == global@[i as int]@);
        }
        if keep {
            let ghost before = views(out@);
            out.push(global[i].clone());
            assert(views(out@) =~= before.push(global@[i as int]@));
        }
        i = i + 1;
    }
    assert(g.take(i as int) =~= g);
    out
}

/// `~` or a leading `~/` replaced by `home`.
pub open spec fn expand_tilde_spec(path: Seq<char>, home: Seq<char>) -> Seq<char> {
    if path == "~"@ {
        home
    } else if path.len() >= 2 && path[0] == '~' && path[1] == '/' {
        join_spec(home, path.skip(2))
    } else {
        path
    }
}

/// `path` with a leading `~` expanded to `home`.
pub fn expand_tilde(path: &str, home: &str) -> (r: String)
    ensures
        r@ == expand_tilde_spec(path@, home@),
{
    let v = chars_of(path);
    let tilde = chars_of("~");
    if chars_eq(&v, &tilde) {
        return to_string(home);
    }
    if v.len() >= 2 && v[0] == '~' && v[1] == '/' {
        let rest = string_from_chars(&slice_chars(&v, 2, v.len()));
        assert(rest@ =~= v@.skip(2));
        return join(home, rest.as_str());
    }
    to_string(path)
}

/// `path` with `~` expanded when `HOME` is known, and made absolute against the
/// working directory when it is relative and the working directory is known.
pub open spec fn absolutize_spec(path: Seq<char>, home: Option<Seq<char>>, cwd: Option<Seq<char>>) -> Seq<char> {
    let expanded = match home {
        Some(h) => expand_tilde_spec(path, h),
        None => path,
    };
    if is_absolute_spec(expanded) {
        expanded
    } else {
        match cwd {
            Some(c) => join_spec(c, expanded),
            None => expanded,
        }
    }
}

pub open spec fn opt_view(o: Option<&str>) -> Option<Seq<char>> {
    match o {
        Some(s) => Some(s@),
        None => None,
    }
}

/// `path` expanded and made absolute (see `absolutize_spec`).
pub fn absolutize(path: &str, home: Option<&str>, cwd: Option<&str>) -> (r: String)
    ensures
        r@ == absolutize_spec(path@, opt_view(home), opt_view(cwd)),
{
    let expanded = match home {
        Some(h) => expand_tilde(path, h),
        None => to_string(path),
    };
    if is_absolute(expanded.as_str()) {
        expanded
    } else {
        match cwd {
            Some(c) => join(c, expanded.as_str()),
            None => expanded,
        }
    }
}

/// Every path of `paths` made absolute.
pub fn absolutize_all(paths: &Vec<String>, home: Option<&str>, cwd: Option<&str>) -> (r: Vec<String>)
    ensures
        r@.len() == paths@.len(),
        forall|i: int| 0 <= i < paths@.len() ==> #[trigger] r@[i]@ == absolutize_spec(paths@[i]@, opt_view(home), opt_view(cwd)),
{
    let mut r: Vec<String> = Vec::new();
    let mut i: usize = 0;
    while i < paths.len()
        invariant
            0 <= i <= paths@.len(),
            r@.len() == i,
            forall|j: int| 0 <= j < i ==> #[trigger] r@[j]@ == absolutize_spec(paths@[j]@, opt_view(home), opt_view(cwd)),
        decreases paths@.len() - i,
    {
        r.push(absolutize(paths[i].as_str(), home, cwd));
        i = i + 1;
    }
    r
}

/// The configuration that two layers give: the project's scalars win over
/// the global's, which win over the defaults; `library_paths` lists the
/// project's paths before the global's; `deny` is the union of both lists
/// without repeats, global entries first; `allow` is as `merge_allow_spec`.
pub open spec fn merge_spec(global: Layer, project: Layer, c: Config) -> bool {
    let no_paths = Seq::<String>::empty();
    let no_names = Seq::<String>::empty();
    &&& views(c.library_paths@) == views(
        match project.library_paths {
            Some(p) => p@,
            None => no_paths,
        } + match global.library_paths {
            Some(g) => g@,
            None => no_paths,
        },
    )
    &&& c.default_adapter@ == pick_spec(
        match global.default_adapter {
            Some(a) => Some(a@),
            None => None,
        },
        match project.default_adapter {
            Some(a) => Some(a@),
            None => None,
        },
        "pi"@,
    )
    &&& c.mount_mode == pick_spec(global.mount_mode, project.mount_mode, MountMode::Symlink)
    &&& c.scan_command@ == pick_spec(
        match global.scan_command {
            Some(s) => Some(s@),
            None => None,
        },
        match project.scan_command {
            Some(s) => Some(s@),
            None => None,
        },
        Seq::empty(),
    )
    &&& views(c.allow@) == merge_allow_spec(
        views(
            match global.allow {
                Some(a) => a@,
                None => no_names,
            },
        ),
        views(
            match project.allow {
                Some(a) => a@,
                None => no_names,
            },
        ),
    )
    &&& views(c.deny@) == dedup_spec(
        views(
            match global.deny {
                Some(d) => d@,
                None => no_names,
            },
        ) + views(
            match project.deny {
                Some(d) => d@,
                None => no_names,
            },
        ),
    )
    &&& c.max_menu_tokens == pick_spec(global.max_menu_tokens, project.max_menu_tokens, 2000)
    &&& c.fail_on_budget == pick_spec(global.fail_on_budget, project.fail_on_budget, false)
    &&& c.runs_dir@ == pick_spec(
        match global.runs_dir {
            Some(r) => Some(r@),
            None => None,
        },
        match project.runs_dir {
            Some(r) => Some(r@),
            None => None,
        },
        "~/.lunchbox/runs"@,
    )
}

/// Each scalar key of the merged configuration is the project layer's value
/// when the project sets it, else the global layer's when that sets it, else
/// the default: the project layer wins over the global one.
pub proof fn merge_project_wins(global: Layer, project: Layer, c: Config)
    requires
        merge_spec(global, project, c),
    ensures
        project.default_adapter matches Some(p) ==> c.default_adapter@ == p@,
        project.default_adapter is None ==> (global.default_adapter matches Some(g) ==> c.default_adapter@ == g@),
        project.default_adapter is None && global.default_adapter is None ==> c.default_adapter@ == "pi"@,
        project.scan_command matches Some(p) ==> c.scan_command@ == p@,
        project.scan_command is None ==> (global.scan_command matches Some(g) ==> c.scan_command@ == g@),
        project.scan_command is None && global.scan_command is None ==> c.scan_command@ == Seq::<char>::empty(),
        project.runs_dir matches Some(p) ==> c.runs_dir@ == p@,
        project.runs_dir is None ==> (global.runs_dir matches Some(g) ==> c.runs_dir@ == g@),
        project.runs_dir is None && global.runs_dir is None ==> c.runs_dir@ == "~/.lunchbox/runs"@,
        project.mount_mode matches Some(p) ==> c.mount_mode == p,
        project.mount_mode is None ==> (global.mount_mode matches Some(g) ==> c.mount_mode == g),
        project.mount_mode is None && global.mount_mode is None ==> c.mount_mode == MountMode::Symlink,
        project.max_menu_tokens matches Some(p) ==> c.max_menu_tokens == p,
        project.max_menu_tokens is None ==> (global.max_menu_tokens matches Some(g) ==> c.max_menu_tokens == g),
        project.max_menu_tokens is None && global.max_menu_tokens is None ==> c.max_menu_tokens == 2000u64,
        project.fail_on_budget matches Some(p) ==> c.fail_on_budget == p,
        project.fail_on_budget is None ==> (global.fail_on_budget matches Some(g) ==> c.fail_on_budget == g),
        project.fail_on_budget is None && global.fail_on_budget is None ==> c.fail_on_budget == false,
{
}

/// Merges the global and project layers over the defaults (see `merge_spec`).
/// The denied names are never repeated.
pub fn merge(global: Layer, project: Layer) -> (c: Config)
    ensures
        merge_spec(global, project, c),
        views(c.deny@).no_duplicates(),
        project.default_adapter matches Some(p) ==> c.default_adapter@ == p@,
        project.default_adapter is None ==> (global.default_adapter matches Some(g) ==> c.default_adapter@ == g@),
        project.default_adapter is None && global.default_adapter is None ==> c.default_adapter@ == "pi"@,
        project.scan_command matches Some(p) ==> c.scan_command@ == p@,
        project.scan_command is None ==> (global.scan_command matches Some(g) ==> c.scan_command@ == g@),
        project.scan_command is None && global.scan_command is None ==> c.scan_command@ == Seq::<char>::empty(),
        project.runs_dir matches Some(p) ==> c.runs_dir@ == p@,
        project.runs_dir is None ==> (global.runs_dir matches Some(g) ==> c.runs_dir@ == g@),
        project.runs_dir is None && global.runs_dir is None ==> c.runs_dir@ == "~/.lunchbox/runs"@,
        project.mount_mode matches Some(p) ==> c.mount_mode == p,
        project.mount_mode is None ==> (global.mount_mode matches Some(g) ==> c.mount_mode == g),
        project.mount_mode is None && global.mount_mode is None ==> c.mount_mode == MountMode::Symlink,
        project.max_menu_tokens matches Some(p) ==> c.max_menu_tokens == p,
        project.max_menu_tokens is None ==> (global.max_menu_tokens matches Some(g) ==> c.max_menu_tokens == g),
        project.max_menu_tokens is None && global.max_menu_tokens is None ==> c.max_menu_tokens == 2000u64,
        project.fail_on_budget matches Some(p) ==> c.fail_on_budget == p,
        project.fail_on_budget is None ==> (global.fail_on_budget matches Some(g) ==> c.fail_on_budget == g),
        project.fail_on_budget is None && global.fail_on_budget is None ==> c.fail_on_budget == false,
{
    let ghost g0 = global;
    let ghost p0 = project;
    let mut library_paths = match project.library_paths {
        Some(p) => p,
        None => Vec::new(),
    };
    let mut global_paths = match global.library_paths {
        Some(g) => g,
        None => Vec::new(),
    };
    library_paths.append(&mut global_paths);
    let default_adapter = match (global.default_adapter, project.default_adapter) {
        (_, Some(a)) => a,
        (Some(a), None) => a,
        (None, None) => to_string("pi"),
    };
    let scan_command = match (global.scan_command, project.scan_command) {
        (_, Some(s)) => s,
        (Some(s), None) => s,
        (None, None) => String::new(),
    };
    let runs_dir = match (global.runs_dir, project.runs_dir) {
        (_, Some(r)) => r,
        (Some(r), None) => r,
        (None, None) => to_string("~/.lunchbox/runs"),
    };
    let global_allow = match global.allow {
        Some(a) => a,
        None => Vec::new(),
    };
    let project_allow = match project.allow {
        Some(a) => a,
        None => Vec::new(),
    };
    let mut deny = match global.deny {
        Some(d) => d,
        None => Vec::new(),
    };
    let mut project_deny = match project.deny {
        Some(d) => d,
        None => Vec::new(),
    };
    let ghost gd = views(deny@);
    let ghost pd = views(project_deny@);
    deny.append(&mut project_deny);
    assert(views(deny@) =~= gd + pd);
    let c = Config {
        library_paths,
        default_adapter,
        mount_mode: pick(global.mount_mode, project.mount_mode, MountMode::Symlink),
        scan_command,
        allow: merge_allow(global_allow, project_allow),
        deny: dedup_strings(deny),
        max_menu_tokens: pick(global.max_menu_tokens, project.max_menu_tokens, 2000),
        fail_on_budget: pick(global.fail_on_budget, project.fail_on_budget, false),
        runs_dir,
    };
    c
}

impl Config {
    /// `library_paths` made absolute and `runs_dir` with `~` expanded.
    pub fn expand_paths(&mut self, home: &str)
        ensures
            final(self).library_paths@.len() == old(self).library_paths@.len(),
            forall|i: int| 0 <= i < old(self).library_paths@.len() ==> #[trigger] final(self).library_paths@[i]@
                == absolutize_spec(old(self).library_paths@[i]@, Some(home@), None),
            final(self).runs_dir@ == expand_tilde_spec(old(self).runs_dir@, home@),
            final(self).default_adapter == old(self).default_adapter,
            final(self).mount_mode == old(self).mount_mode,
            final(self).scan_command == old(self).scan_command,
            final(self).allow == old(self).allow,
            final(self).deny == old(self).deny,
            final(self).max_menu_tokens == old(self).max_menu_tokens,
            final(self).fail_on_budget == old(self).fail_on_budget,
    {
        self.library_paths = absolutize_all(&self.library_paths, Some(home), None);
        self.runs_dir = expand_tilde(self.runs_dir.as_str(), home);
    }

    /// The configuration of the two layers, with its paths expanded against
    /// `home` (what `Config::load` gives once both files are read).
    pub fn from_layers(global: Layer, project: Layer, home: &str) -> (c: Config)
        ensures
            exists|m: Config| merge_spec(global, project, m) && c.library_paths@.len() == m.library_paths@.len()
                && (forall|i: int| 0 <= i < m.library_paths@.len() ==> #[trigger] c.library_paths@[i]@
                == absolutize_spec(m.library_paths@[i]@, Some(home@), None))
                && c.runs_dir@ == expand_tilde_spec(m.runs_dir@, home@)
                && c.default_adapter == m.default_adapter && c.mount_mode == m.mount_mode
                && c.scan_command == m.scan_command && c.allow == m.allow && c.deny == m.deny
                && c.max_menu_tokens == m.max_menu_tokens && c.fail_on_budget == m.fail_on_budget,
    {
        let mut c = merge(global, project);
        let ghost m = c;
        c.expand_paths(home);
        c
    }

    /// The library roots searched for pins, in order: the `--library` paths
    /// (made absolute), the configured `library_paths`, the managed pantry
    /// roots, then `./.agents/skills` and `~/.agents/skills`.
    pub fn search_roots(
        &self,
        cli_libraries: &Vec<String>,
        home: Option<&str>,
        cwd: Option<&str>,
        pantry_roots: Vec<String>,
    ) -> (roots: Vec<String>)
        ensures
            views(roots@) == search_roots_spec(
                views(cli_libraries@),
                views(self.library_paths@),
                views(pantry_roots@),
                opt_view(home),
                opt_view(cwd),
            ),
            ({
                let n: int = (cli_libraries@.len() + self.library_paths@.len() + pantry_roots@.len()) as int;
                &&& roots@.len() == n + 1 + if home is Some { 1int } else { 0int }
                &&& roots@[n]@ == absolutize_spec(".agents/skills"@, opt_view(home), opt_view(cwd))
                &&& home matches Some(h) ==> roots@[n + 1]@ == join_spec(join_spec(h@, ".agents"@), "skills"@)
            }),
    {
                proof {
            lemma_project_agents_before_home(
                views(cli_libraries@),
                views(self.library_paths@),
                views(pantry_roots@),
                opt_view(home),
                opt_view(cwd),
            );
        }
        let mut roots = absolutize_all(cli_libraries, home, cwd);
        let ghost first = views(roots@);
        assert(first =~= views(cli_libraries@).map_values(|p: Seq<char>| absolutize_spec(p, opt_view(home), opt_view(cwd))));
        let mut configured = clone_strings(&self.library_paths);
        roots.append(&mut configured);
        let mut pantry = pantry_roots;
        let ghost mid = views(roots@);
        roots.append(&mut pantry);
        let ghost before = views(roots@);
        roots.push(absolutize(".agents/skills", home, cwd));
        if let Some(h) = home {
            let agents = join(h, ".agents");
            roots.push(join(agents.as_str(), "skills"));
        }
        assert(views(roots@) =~= search_roots_spec(
            views(cli_libraries@),
            views(self.library_paths@),
            views(pantry_roots@),
            opt_view(home),
            opt_view(cwd),
        ));
        roots
    }
}

/// The library roots of `Config::search_roots`.
pub open spec fn search_roots_spec(
    cli: Seq<Seq<char>>,
    configured: Seq<Seq<char>>,
    pantry: Seq<Seq<char>>,
    home: Option<Seq<char>>,
    cwd: Option<Seq<char>>,
) -> Seq<Seq<char>> {
    cli.map_values(|p: Seq<char>| absolutize_spec(p, home, cwd)) + configured + pantry + seq![
        absolutize_spec(".agents/skills"@, home, cwd),
    ] + match home {
        Some(h) => seq![join_spec(join_spec(h, ".agents"@), "skills"@)],
        None => Seq::empty(),
    }
}


/// After the pantry roots come the working directory's `.agents/skills`,
/// then, when `HOME` is known, `~/.agents/skills`, and nothing else: a skill
/// that the project's `.agents/skills` holds shadows the home copy.
pub proof fn lemma_project_agents_before_home(
    cli: Seq<Seq<char>>,
    configured: Seq<Seq<char>>,
    pantry: Seq<Seq<char>>,
    home: Option<Seq<char>>,
    cwd: Option<Seq<char>>,
)
    ensures
        ({
            let roots = search_roots_spec(cli, configured, pantry, home, cwd);
            let n: int = (cli.len() + configured.len() + pantry.len()) as int;
            &&& roots.len() == n + 1 + if home is Some { 1int } else { 0int }
            &&& roots[n] == absolutize_spec(".agents/skills"@, home, cwd)
            &&& home matches Some(h) ==> roots[n + 1] == join_spec(join_spec(h, ".agents"@), "skills"@)
        }),
{
    let roots = search_roots_spec(cli, configured, pantry, home, cwd);
    let a = cli.map_values(|p: Seq<char>| absolutize_spec(p, home, cwd));
    let head = a + configured + pantry;
    let tail = seq![absolutize_spec(".agents/skills"@, home, cwd)] + match home {
        Some(h) => seq![join_spec(join_spec(h, ".agents"@), "skills"@)],
        None => Seq::<Seq<char>>::empty(),
    };
    assert(roots =~= head + tail);
    assert(head.len() == cli.len() + configured.len() + pantry.len());
    assert(roots[head.len() as int] == tail[0]);
    if home is Some {
        assert(roots[head.len() as int + 1] == tail[1]);
    }
}

/// The `--library` roots are searched before the configured `library_paths`,
/// and those before the managed pantry roots: a skill name that both a
/// configured path and a pantry hold is found in the configured path first.
pub proof fn lemma_configured_before_pantry(
    cli: Seq<Seq<char>>,
    configured: Seq<Seq<char>>,
    pantry: Seq<Seq<char>>,
    home: Option<Seq<char>>,
    cwd: Option<Seq<char>>,
    i: int,
    j: int,
)
    requires
        0 <= i < configured.len(),
        0 <= j < pantry.len(),
    ensures
        ({
            let roots = search_roots_spec(cli, configured, pantry, home, cwd);
            &&& roots[cli.len() + i] == configured[i]
            &&& roots[cli.len() + configured.len() + j] == pantry[j]
            &&& cli.len() + i < cli.len() + configured.len() + j
            &&& forall|c: int| 0 <= c < cli.len() ==> roots[c] == absolutize_spec(#[trigger] cli[c], home, cwd)
        }),
{
    let roots = search_roots_spec(cli, configured, pantry, home, cwd);
    let a = cli.map_values(|p: Seq<char>| absolutize_spec(p, home, cwd));
    assert(roots == a + configured + pantry + (seq![absolutize_spec(".agents/skills"@, home, cwd)] + match home {
        Some(h) => seq![join_spec(join_spec(h, ".agents"@), "skills"@)],
        None => Seq::<Seq<char>>::empty(),
    })) by {
        assert(roots =~= a + configured + pantry + (seq![absolutize_spec(".agents/skills"@, home, cwd)] + match home {
            Some(h) => seq![join_spec(join_spec(h, ".agents"@), "skills"@)],
            None => Seq::<Seq<char>>::empty(),
        }));
    }
    assert((a + configured + pantry)[cli.len() + i] == configured[i]);
}

/// What the list `key` of a layer file holds, as `toml_edit` reads the file:
/// the parse error; `None` when the key is absent; `Some(None)` when it is not
/// an array; else each entry's string (`None` for an entry that is not a string).
pub uninterp spec fn toml_list_spec(text: Seq<char>, key: Seq<char>) -> Result<Option<Option<Seq<Option<Seq<char>>>>>, Seq<char>>;

/// The view of a list lookup.
pub open spec fn lookup_view(r: Result<Option<Option<Vec<Option<String>>>>, String>) -> Result<
    Option<Option<Seq<Option<Seq<char>>>>>,
    Seq<char>,
> {
    match r {
        Err(e) => Err(e@),
        Ok(None) => Ok(None),
        Ok(Some(None)) => Ok(Some(None)),
        Ok(Some(Some(v))) => Ok(Some(Some(v@.map_values(|o: Option<String>| opt_string_spec(o))))),
    }
}

/// The view of an optional string.
pub open spec fn opt_string_spec(o: Option<String>) -> Option<Seq<char>> {
    match o {
        Some(s) => Some(s@),
        None => None,
    }
}

/// `toml_edit`: parses `text` as a `DocumentMut` and reads the top-level
/// item `key` as an array of values, each by `Value::as_str`. The result is
/// named by `toml_list_spec`, not stated.
#[verifier::external_body]
fn toml_list(text: &str, key: &str) -> (r: Result<Option<Option<Vec<Option<String>>>>, String>)
    ensures
        lookup_view(r) == toml_list_spec(text@, key@),
{
    match text.parse::<toml_edit::DocumentMut>() {
        Err(e) => Err(e.to_string()),
        Ok(doc) => Ok(match doc.as_table().get(key) {
            None => None,
            Some(item) => Some(item.as_array().map(|a| a.iter().map(|v| v.as_str().map(|s| s.to_string())).collect())),
        }),
    }
}

/// The text of a layer file after `toml_edit` appended `entry` to the array
/// `key` (inserted empty first when absent): the parse error, `None` when
/// `key` holds something other than an array, else the document rendered back.
pub uninterp spec fn toml_pushed_spec(text: Seq<char>, key: Seq<char>, entry: Seq<char>) -> Result<Option<Seq<char>>, Seq<char>>;

/// The view of an edit's outcome.
pub open spec fn edit_view(r: Result<Option<String>, String>) -> Result<Option<Seq<char>>, Seq<char>> {
    match r {
        Err(e) => Err(e@),
        Ok(o) => Ok(opt_string_spec(o)),
    }
}

/// `toml_edit`: parses `text` as a `DocumentMut`, takes the entry `key` of its
/// table (`Entry::or_insert` with an empty array), pushes `entry` with
/// `Array::push` and renders the document with `to_string`. Named by
/// `toml_pushed_spec`, not stated.
#[verifier::external_body]
fn toml_pushed(text: &str, key: &str, entry: &str) -> (r: Result<Option<String>, String>)
    ensures
        edit_view(r) == toml_pushed_spec(text@, key@, entry@),
{
    let mut doc: toml_edit::DocumentMut = match text.parse() {
        Ok(doc) => doc,
        Err(e) => return Err(toml_edit::TomlError::to_string(&e)),
    };
    let item = doc.as_table_mut().entry(key).or_insert(toml_edit::value(toml_edit::Array::new()));
    match item.as_array_mut() {
        None => return Ok(None),
        Some(entries) => entries.push(entry),
    }
    Ok(Some(doc.to_string()))
}

/// Whether a list entry stays when `entry` is removed: it is not that string.
fn keeps_entry(value: Option<&str>, entry: &str) -> (b: bool)
    ensures
        b == !(value matches Some(v) && v@ == entry@),
{
    match value {
        Some(v) => !crate::text::str_eq(v, entry),
        None => true,
    }
}

/// The text of a layer file after `toml_edit` removed every string `entry`
/// from the array `key` (nothing when `key` holds no array): the parse
/// error, else the document rendered back.
pub uninterp spec fn toml_removed_spec(text: Seq<char>, key: Seq<char>, entry: Seq<char>) -> Result<Seq<char>, Seq<char>>;

/// `toml_edit`: parses `text` as a `DocumentMut`, and when its item `key` is
/// an array keeps (`Array::retain`) the values that are not the string
/// `entry`; renders the document with `to_string`. Named by
/// `toml_removed_spec`, not stated.
#[verifier::external_body]
fn toml_removed(text: &str, key: &str, entry: &str) -> (r: Result<String, String>)
    ensures
        match (r, toml_removed_spec(text@, key@, entry@)) {
            (Ok(a), Ok(b)) => a@ == b,
            (Err(a), Err(b)) => a@ == b,
            _ => false,
        },
{
    let mut doc: toml_edit::DocumentMut = match text.parse() {
        Ok(doc) => doc,
        Err(e) => return Err(toml_edit::TomlError::to_string(&e)),
    };
    if let Some(item) = doc.as_table_mut().get_mut(key) {
        if let Some(entries) = item.as_array_mut() {
            entries.retain(|v| keeps_entry(v.as_str(), entry));
        }
    }
    Ok(doc.to_string())
}

/// The refusal of a layer file that does not parse.
pub open spec fn parse_failure(path: Seq<char>, e: Seq<char>) -> Seq<char> {
    "failed to parse config at "@ + path + ": "@ + e
}

/// The refusal of a list key that holds no list.
pub open spec fn not_a_list(path: Seq<char>, key: Seq<char>) -> Seq<char> {
    "'"@ + key + "' in "@ + path + " is not a list"@
}

fn parse_failure_message(path: &str, e: &str) -> (m: String)
    ensures
        m@ == parse_failure(path@, e@),
{
    let mut m: Vec<char> = Vec::new();
    push_str(&mut m, "failed to parse config at ");
    push_str(&mut m, path);
    push_str(&mut m, ": ");
    push_str(&mut m, e);
    string_from_chars(&m)
}

fn not_a_list_message(path: &str, key: &str) -> (m: String)
    ensures
        m@ == not_a_list(path@, key@),
{
    let mut m: Vec<char> = Vec::new();
    push_str(&mut m, "'");
    push_str(&mut m, key);
    push_str(&mut m, "' in ");
    push_str(&mut m, path);
    push_str(&mut m, " is not a list");
    string_from_chars(&m)
}

/// Whether `entry` is among the string entries.
fn lists_entry(entries: &Vec<Option<String>>, entry: &str) -> (b: bool)
    ensures
        b == entries@.map_values(|o: Option<String>| opt_string_spec(o)).contains(Some(entry@)),
{
    let ghost v = entries@.map_values(|o: Option<String>| opt_string_spec(o));
    let mut i: usize = 0;
    while i < entries.len()
        invariant
            0 <= i <= entries@.len(),
            v == entries@.map_values(|o: Option<String>| opt_string_spec(o)),
            forall|k: int| 0 <= k < i ==> v[k] != Some(entry@),
        decreases entries@.len() - i,
    {
        match &entries[i] {
            Some(s) => {
                if crate::text::str_eq(s.as_str(), entry) {
                    assert(v[i as int] == Some(entry@));
                    return true;
                }
            },
            None => {},
        }
        i = i + 1;
    }
    proof {
        if v.contains(Some(entry@)) {
            let k = choose|k: int| 0 <= k < v.len() && v[k] == Some(entry@);
            assert(v[k] != Some(entry@));
        }
    }
    false
}

/// The text of a layer file: empty when the file does not exist.
pub open spec fn layer_text(text: Option<&str>) -> Seq<char> {
    match text {
        Some(t) => t@,
        None => Seq::empty(),
    }
}

/// What appending `entry` to the list `key` does to a layer file at `path`
/// with the text `text`: the text to write, `None` when the entry is already
/// listed and nothing changes, or the refusal of a text that does not parse
/// or of a key that holds no list.
pub open spec fn append_spec(path: Seq<char>, text: Seq<char>, key: Seq<char>, entry: Seq<char>) -> Result<Option<Seq<char>>, Seq<char>> {
    match toml_list_spec(text, key) {
        Err(e) => Err(parse_failure(path, e)),
        Ok(Some(None)) => Err(not_a_list(path, key)),
        Ok(Some(Some(items))) if items.contains(Some(entry)) => Ok(None),
        _ => match toml_pushed_spec(text, key, entry) {
            Ok(Some(out)) => Ok(Some(out)),
            Ok(None) => Err(not_a_list(path, key)),
            Err(e) => Err(parse_failure(path, e)),
        },
    }
}

/// An entry already listed is not appended again: appending to a text whose
/// list holds the entry writes nothing, so the file keeps its text byte for
/// byte. In particular a second append of the same entry writes nothing
/// once the text the first append wrote lists it.
pub proof fn append_of_listed_entry_writes_nothing(
    path: Seq<char>,
    text: Seq<char>,
    key: Seq<char>,
    entry: Seq<char>,
    items: Seq<Option<Seq<char>>>,
)
    requires
        toml_list_spec(text, key) == Ok::<_, Seq<char>>(Some(Some(items))),
        items.contains(Some(entry)),
    ensures
        append_spec(path, text, key, entry) == Ok::<_, Seq<char>>(None::<Seq<char>>),
{
}

/// What appending `entry` to the list `list` does to a layer file with the
/// text `text` (`None` when the file does not exist, read as empty): see
/// `append_spec`.
pub fn append_layer_text(path: &str, text: Option<&str>, list: List, entry: &str) -> (r: Result<Option<String>, String>)
    ensures
        edit_view(r) == append_spec(path@, layer_text(text), list.name_spec(), entry@),
{
    let t: &str = match text {
        Some(t) => t,
        None => "",
    };
    proof {
        reveal_strlit("");
        assert(t@ =~= layer_text(text));
    }
    let key = list.as_str();
    match toml_list(t, key) {
        Err(e) => return Err(parse_failure_message(path, e.as_str())),
        Ok(Some(None)) => return Err(not_a_list_message(path, key)),
        Ok(Some(Some(items))) => {
            if lists_entry(&items, entry) {
                return Ok(None);
            }
        },
        Ok(None) => {},
    }
    match toml_pushed(t, key, entry) {
        Ok(Some(out)) => Ok(Some(out)),
        Ok(None) => Err(not_a_list_message(path, key)),
        Err(e) => Err(parse_failure_message(path, e.as_str())),
    }
}

/// What removing `entry` from the list `list` does to a layer file with the
/// text `text`: the text to write (`None` when the file does not exist and
/// there is nothing to do), or the refusal of a text that does not parse.
pub fn remove_layer_text(path: &str, text: Option<&str>, list: List, entry: &str) -> (r: Result<Option<String>, String>)
    ensures
        match text {
            None => r matches Ok(None),
            Some(t) => match toml_removed_spec(t@, list.name_spec(), entry@) {
                Ok(out) => r matches Ok(Some(o)) && o@ == out,
                Err(e) => r matches Err(m) && m@ == parse_failure(path@, e),
            },
        },
{
    match text {
        None => Ok(None),
        Some(t) => match toml_removed(t, list.as_str(), entry) {
            Ok(out) => Ok(Some(out)),
            Err(e) => Err(parse_failure_message(path, e.as_str())),
        },
    }
}

} // verus!
