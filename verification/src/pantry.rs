//! Managed pantries: skill repositories cloned under `~/.lunchbox/pantry`,
//! their names, the subdirectory that holds their skills, and the messages
//! of adding and updating them.
use crate::paths::{is_absolute, is_absolute_spec, join, join_spec};
use crate::resolve::{stderr_excerpt, stderr_excerpt_spec};
use crate::text::{
    chars_of, ends_with, ends_with_spec, join_with, push_joined, push_signed, push_str,
    signed_decimal, slice_chars, string_from_chars, trim_chars, trim_spec, views, find_char_spec,
    lemma_find_char,
};
use vstd::prelude::*;

verus! {

/// The pieces of `s` between `/` separators, empty pieces included.
pub open spec fn slash_pieces(s: Seq<char>) -> Seq<Seq<char>>
    decreases s.len(),
{
    let k = find_char_spec(s, '/');
    if k >= s.len() {
        seq![s]
    } else {
        seq![s.take(k as int)] + slash_pieces(s.skip(k as int + 1))
    }
}

/// Whether every component of the path `s` is a plain name, as
/// `Path::components` reads it on Unix: no root, no leading `.` component,
/// and no `..` component (a `.` after the first piece is normalized away).
pub open spec fn all_normal_spec(s: Seq<char>) -> bool {
    let p = slash_pieces(s);
    &&& !is_absolute_spec(s)
    &&& p[0] != seq!['.']
    &&& forall|i: int| 0 <= i < p.len() ==> #[trigger] p[i] != seq!['.', '.']
}

/// Whether the path `s` has a named component at all.
pub open spec fn has_component_spec(s: Seq<char>) -> bool {
    let p = slash_pieces(s);
    exists|i: int| 0 <= i < p.len() && (#[trigger] p[i]).len() > 0 && p[i] != seq!['.']
}

/// A `--path` value is a relative subdirectory with only plain components.
pub open spec fn is_subdir_spec(s: Seq<char>) -> bool {
    all_normal_spec(s) && has_component_spec(s)
}

/// A pantry name: not empty, not hidden, and only plain components.
pub open spec fn is_plain_component_spec(s: Seq<char>) -> bool {
    s.len() > 0 && s[0] != '.' && all_normal_spec(s)
}

/// The index of the first `/` at or after `from` (the length when there is none).
fn find_slash_from(v: &Vec<char>, from: usize) -> (k: usize)
    requires
        from <= v@.len(),
    ensures
        k == from + find_char_spec(v@.skip(from as int), '/'),
        k <= v@.len(),
{
    proof {
        lemma_find_char(v@.skip(from as int), '/');
    }
    let mut i = from;
    while i < v.len() && v[i] != '/'
        invariant
            from <= i <= v@.len(),
            find_char_spec(v@.skip(from as int), '/') == (i - from) + find_char_spec(v@.skip(i as int), '/'),
        decreases v@.len() - i,
    {
        assert(v@.skip(i as int).drop_first() =~= v@.skip(i + 1));
        i = i + 1;
    }
    proof {
        if i < v@.len() {
            assert(v@.skip(i as int)[0] == '/');
        } else {
            assert(v@.skip(i as int).len() == 0);
        }
    }
    i
}

/// The views of a list of character vectors.
pub open spec fn char_views(s: Seq<Vec<char>>) -> Seq<Seq<char>> {
    s.map_values(|p: Vec<char>| p@)
}

fn pieces_of(v: &Vec<char>) -> (r: Vec<Vec<char>>)
    ensures
        char_views(r@) == slash_pieces(v@),
{
    let mut r: Vec<Vec<char>> = Vec::new();
    let mut start: usize = 0;
    let mut done = false;
    assert(v@.skip(0) =~= v@);
    while !done
        invariant
            start <= v@.len(),
            !done ==> slash_pieces(v@) == char_views(r@) + slash_pieces(v@.skip(start as int)),
            done ==> slash_pieces(v@) == char_views(r@),
        decreases v@.len() - start + if done { 0int } else { 1int },
    {
        let k = find_slash_from(v, start);
        let piece = slice_chars(v, start, k);
        let ghost rest = v@.skip(start as int);
        let ghost before = char_views(r@);
        assert(piece@ =~= rest.take(k - start));
        r.push(piece);
        assert(char_views(r@) =~= before + seq![rest.take(k - start)]);
        if k == v.len() {
            done = true;
        } else {
            assert(rest.skip(k - start + 1) =~= v@.skip(k + 1));
            start = k + 1;
        }
    }
    r
}

fn is_dot(p: &Vec<char>) -> (b: bool)
    ensures
        b == (p@ == seq!['.']),
{
    let b = p.len() == 1 && p[0] == '.';
    proof {
        if b {
            assert(p@ =~= seq!['.']);
        }
    }
    b
}

fn is_dot_dot(p: &Vec<char>) -> (b: bool)
    ensures
        b == (p@ == seq!['.', '.']),
{
    let b = p.len() == 2 && p[0] == '.' && p[1] == '.';
    proof {
        if b {
            assert(p@ =~= seq!['.', '.']);
        }
    }
    b
}

fn all_normal(s: &str) -> (b: bool)
    ensures
        b == all_normal_spec(s@),
{
    let v = chars_of(s);
    if is_absolute(s) {
        return false;
    }
    let pieces = pieces_of(&v);
    let ghost p = slash_pieces(v@);
    assert(p.len() > 0);
    assert(pieces@.len() == p.len());
    assert(char_views(pieces@)[0] == p[0]);
    if is_dot(&pieces[0]) {
        return false;
    }
    let mut i: usize = 0;
    while i < pieces.len()
        invariant
            0 <= i <= pieces@.len(),
            char_views(pieces@) == p,
            p == slash_pieces(s@),
            !is_absolute_spec(s@),
            p[0] != seq!['.'],
            forall|k: int| 0 <= k < i ==> #[trigger] p[k] != seq!['.', '.'],
        decreases pieces@.len() - i,
    {
        assert(char_views(pieces@)[i as int] == pieces@[i as int]@);
        if is_dot_dot(&pieces[i]) {
            assert(p[i as int] == seq!['.', '.']);
            return false;
        }
        i = i + 1;
    }
    true
}

fn has_component(s: &str) -> (b: bool)
    ensures
        b == has_component_spec(s@),
{
    let v = chars_of(s);
    let pieces = pieces_of(&v);
    let ghost p = slash_pieces(v@);
    let mut i: usize = 0;
    while i < pieces.len()
        invariant
            0 <= i <= pieces@.len(),
            char_views(pieces@) == p,
            p == slash_pieces(s@),
            forall|k: int| 0 <= k < i ==> !((#[trigger] p[k]).len() > 0 && p[k] != seq!['.']),
        decreases pieces@.len() - i,
    {
        assert(char_views(pieces@)[i as int] == pieces@[i as int]@);
        if pieces[i].len() > 0 && !is_dot(&pieces[i]) {
            assert(p[i as int].len() > 0 && p[i as int] != seq!['.']);
            return true;
        }
        i = i + 1;
    }
    false
}

/// Whether `name` can name a pantry directory.
pub fn is_plain_component(name: &str) -> (b: bool)
    ensures
        b == is_plain_component_spec(name@),
{
    let v = chars_of(name);
    v.len() > 0 && v[0] != '.' && all_normal(name)
}

/// The refusal of a `--path` value that is not a relative subdirectory.
pub open spec fn subdir_message() -> Seq<char> {
    "--path must be a relative subdirectory without '.' or '..' components"@
}

/// Checks a `--path` value (see `is_subdir_spec`).
pub fn validate_subdir(sub: &str) -> (r: Result<(), String>)
    ensures
        r is Ok <==> is_subdir_spec(sub@),
        r matches Err(m) ==> m@ == subdir_message(),
{
    if all_normal(sub) && has_component(sub) {
        Ok(())
    } else {
        Err(crate::text::to_string("--path must be a relative subdirectory without '.' or '..' components"))
    }
}

/// `s` without its trailing `/` characters.
pub open spec fn trim_trailing_slashes(s: Seq<char>) -> Seq<char>
    decreases s.len(),
{
    if s.len() > 0 && s.last() == '/' {
        trim_trailing_slashes(s.drop_last())
    } else {
        s
    }
}

/// What follows the last `/` or `:` of `s` (all of `s` when it has neither).
pub open spec fn last_segment(s: Seq<char>) -> Seq<char>
    decreases s.len(),
{
    if s.len() == 0 {
        Seq::empty()
    } else if s.last() == '/' || s.last() == ':' {
        Seq::empty()
    } else {
        last_segment(s.drop_last()).push(s.last())
    }
}

/// `s` without a `.git` suffix.
pub open spec fn strip_git(s: Seq<char>) -> Seq<char> {
    if ends_with_spec(s, ".git"@) {
        s.take(s.len() - 4)
    } else {
        s
    }
}

/// The pantry name a URL suggests: its last path component, without a
/// trailing `/` and without `.git`.
pub open spec fn url_name(url: Seq<char>) -> Seq<char> {
    strip_git(last_segment(trim_trailing_slashes(url)))
}

/// The pantry name of a repository URL, refused when it is not a plain name.
pub fn name_from_url(url: &str) -> (r: Result<String, String>)
    ensures
        is_plain_component_spec(url_name(url@)) ==> (r matches Ok(n) && n@ == url_name(url@)),
        !is_plain_component_spec(url_name(url@)) ==> (r matches Err(m) && m@ == "cannot derive a pantry name from '"@
            + url@ + "' (got '"@ + url_name(url@)
            + "'); the URL's last path component must be a plain directory name"@),
{
    let v = chars_of(url);
    let mut end = v.len();
    assert(v@.take(end as int) =~= v@);
    while end > 0 && v[end - 1] == '/'
        invariant
            0 <= end <= v@.len(),
            trim_trailing_slashes(v@) == trim_trailing_slashes(v@.take(end as int)),
        decreases end,
    {
        assert(v@.take(end as int).drop_last() =~= v@.take(end - 1));
        end = end - 1;
    }
    let ghost t = v@.take(end as int);
    assert(trim_trailing_slashes(t) == t);
    let mut j = end;
    assert(t.subrange(end as int, end as int) =~= Seq::<char>::empty());
    assert(t.take(end as int) =~= t);
    while j > 0 && v[j - 1] != '/' && v[j - 1] != ':'
        invariant
            0 <= j <= end <= v@.len(),
            t == v@.take(end as int),
            last_segment(t) == last_segment(t.take(j as int)) + t.subrange(j as int, end as int),
        decreases j,
    {
        assert(t.take(j as int).drop_last() =~= t.take(j - 1));
        assert(t.subrange(j - 1, end as int) =~= seq![t[j - 1]] + t.subrange(j as int, end as int));
        j = j - 1;
    }
    assert(last_segment(t.take(j as int)) =~= Seq::<char>::empty());
    let last = slice_chars(&v, j, end);
    assert(last@ =~= last_segment(t));
    proof {
        reveal_strlit(".git");
    }
    let name = if ends_with(&last, ".git") {
        slice_chars(&last, 0, last.len() - 4)
    } else {
        last
    };
    assert(name@ =~= url_name(url@));
    let name_string = string_from_chars(&name);
    if is_plain_component(name_string.as_str()) {
        Ok(name_string)
    } else {
        let mut m: Vec<char> = Vec::new();
        push_str(&mut m, "cannot derive a pantry name from '");
        push_str(&mut m, url);
        push_str(&mut m, "' (got '");
        push_str(&mut m, name_string.as_str());
        push_str(&mut m, "'); the URL's last path component must be a plain directory name");
        Err(string_from_chars(&m))
    }
}

/// A directory entry whose name starts with `.` is hidden.
pub open spec fn is_hidden_spec(name: Seq<char>) -> bool {
    name.len() > 0 && name[0] == '.'
}

/// Whether an entry of this name is hidden (and skipped).
pub fn is_hidden(name: &str) -> (b: bool)
    ensures
        b == is_hidden_spec(name@),
{
    let v = chars_of(name);
    v.len() > 0 && v[0] == '.'
}


/// A managed pantry: its name, the clone, the directory of its skills, and
/// the subdirectory recorded with `--path`, if any.
#[derive(Debug, Clone, PartialEq)]
pub struct ManagedPantry {
    pub name: String,
    pub repo: String,
    pub root: String,
    pub path_override: Option<String>,
}

/// What `add` reports: the pantry, its skill root and how many skills it holds.
#[derive(Debug, Clone, PartialEq)]
pub struct Added {
    pub name: String,
    pub root: String,
    pub skills: usize,
}

/// A managed pantry as `doctor` and the menu show it: its root and skill
/// count when its root can be found, else why not.
#[derive(Debug, Clone, PartialEq)]
pub struct PantryStatus {
    pub name: String,
    pub repo: String,
    pub root: Option<String>,
    pub skills: usize,
    pub error: Option<String>,
}

impl PantryStatus {
    /// The pantry's line in the doctor report: its name, then its skill count
    /// and root, or why it is broken.
    pub open spec fn summary_spec(self) -> Seq<char> {
        "  "@ + crate::tui::view::pad(self.name@, 16) + match self.root {
            Some(r) => " "@ + crate::text::decimal(self.skills as nat) + " skills  "@ + r@,
            None => match self.error {
                Some(e) => " broken: "@ + e@,
                None => " broken"@,
            },
        }
    }

    /// The pantry's line in the doctor report (see `summary_spec`).
    pub fn summary_line(&self) -> (s: String)
        ensures
            s@ == self.summary_spec(),
    {
        let mut v: Vec<char> = Vec::new();
        push_str(&mut v, "  ");
        crate::tui::view::push_padded(&mut v, self.name.as_str(), 16);
        match &self.root {
            Some(r) => {
                push_str(&mut v, " ");
                crate::text::push_decimal(&mut v, self.skills as u128);
                push_str(&mut v, " skills  ");
                push_str(&mut v, r.as_str());
            },
            None => match &self.error {
                Some(e) => {
                    push_str(&mut v, " broken: ");
                    push_str(&mut v, e.as_str());
                },
                None => push_str(&mut v, " broken"),
            },
        }
        string_from_chars(&v)
    }
}

/// The refusal when `HOME` is not set.
pub open spec fn pantry_home_unset() -> Seq<char> {
    "HOME is not set; cannot locate the managed pantry"@
}

/// The directory of managed pantries: `~/.lunchbox/pantry`.
pub fn pantry_home(home: Option<&str>) -> (r: Result<String, String>)
    ensures
        match home {
            Some(h) => r matches Ok(p) && p@ == join_spec(join_spec(h@, ".lunchbox"@), "pantry"@),
            None => r matches Err(m) && m@ == pantry_home_unset(),
        },
{
    match home {
        Some(h) => {
            let base = join(h, ".lunchbox");
            Ok(join(base.as_str(), "pantry"))
        },
        None => Err(crate::text::to_string("HOME is not set; cannot locate the managed pantry")),
    }
}

/// The file that records a pantry's `--path`: `<name>.path` beside the clones.
pub fn override_file(pantry_home: &str, name: &str) -> (p: String)
    ensures
        p@ == join_spec(pantry_home@, name@ + ".path"@),
{
    let file = crate::text::concat(name, ".path");
    join(pantry_home, file.as_str())
}

/// The recorded `--path` in an override file's text: the text trimmed.
pub fn override_from_text(text: &str) -> (sub: String)
    ensures
        sub@ == trim_spec(text@),
{
    let v = chars_of(text);
    let t = trim_chars(&v);
    string_from_chars(&t)
}

/// An entry of a pantry clone: its name, whether it is a directory, and
/// whether it holds skill packages (`<name>/SKILL.md` children).
#[derive(Debug, Clone, PartialEq)]
pub struct RepoEntry {
    pub name: String,
    pub is_dir: bool,
    pub has_skills: bool,
}

/// The subdirectories of `repo` that hold skill packages, hidden ones skipped,
/// in entry order.
pub open spec fn candidate_subdirs(repo: Seq<char>, entries: Seq<RepoEntry>) -> Seq<Seq<char>>
    decreases entries.len(),
{
    if entries.len() == 0 {
        Seq::empty()
    } else {
        let e = entries.last();
        candidate_subdirs(repo, entries.drop_last()) + if e.is_dir && !is_hidden_spec(e.name@) && e.has_skills {
            seq![join_spec(repo, e.name@)]
        } else {
            Seq::empty()
        }
    }
}

/// The candidate skill roots of a clone: the clone itself when it holds skill
/// packages, then its subdirectories that do.
pub open spec fn candidate_roots(repo: Seq<char>, repo_has_skills: bool, entries: Seq<RepoEntry>) -> Seq<Seq<char>> {
    (if repo_has_skills {
        seq![repo]
    } else {
        Seq::empty()
    }) + candidate_subdirs(repo, entries)
}

/// The skill root of a managed pantry. A recorded `--path` decides when it
/// is valid and holds skill packages; otherwise the one candidate root is
/// taken, and none or several are refused.
pub open spec fn pantry_root_spec(
    name: Seq<char>,
    repo: Seq<char>,
    path_override: Option<Seq<char>>,
    override_has_skills: bool,
    repo_has_skills: bool,
    entries: Seq<RepoEntry>,
) -> Result<Seq<char>, Seq<char>> {
    match path_override {
        Some(sub) => if !is_subdir_spec(sub) {
            Err("managed pantry '"@ + name + "' has an invalid recorded path: "@ + subdir_message())
        } else if !override_has_skills {
            Err("managed pantry '"@ + name + "': no Skill packages under '"@ + sub + "' in "@ + repo)
        } else {
            Ok(join_spec(repo, sub))
        },
        None => {
            let c = candidate_roots(repo, repo_has_skills, entries);
            if c.len() == 1 {
                Ok(c[0])
            } else if c.len() == 0 {
                Err("managed pantry '"@ + name + "': no Skill packages found in "@ + repo
                    + " (expected <name>/SKILL.md packages at the repository root or in a single subdirectory); re-add with --path <subdir> or remove the directory"@)
            } else {
                Err("managed pantry '"@ + name + "': multiple candidate skill roots in "@ + repo + ": "@
                    + join_with(c, ", "@) + "; re-add with --path <subdir>"@)
            }
        },
    }
}

/// Finds the skill root of a managed pantry from what its clone holds:
/// whether `repo` joined with the recorded path holds skill packages (when
/// a valid path is recorded), whether `repo` itself does, and its entries.
pub fn detect_pantry_root(
    name: &str,
    repo: &str,
    path_override: Option<&str>,
    override_has_skills: bool,
    repo_has_skills: bool,
    entries: &Vec<RepoEntry>,
) -> (r: Result<String, String>)
    ensures
        match (r, pantry_root_spec(name@, repo@, crate::config::opt_view(path_override), override_has_skills, repo_has_skills, entries@)) {
            (Ok(a), Ok(b)) => a@ == b,
            (Err(a), Err(b)) => a@ == b,
            _ => false,
        },
{
    match path_override {
        Some(sub) => {
            if validate_subdir(sub).is_err() {
                let mut m: Vec<char> = Vec::new();
                push_str(&mut m, "managed pantry '");
                push_str(&mut m, name);
                push_str(&mut m, "' has an invalid recorded path: --path must be a relative subdirectory without '.' or '..' components");
                assert(m@ =~= "managed pantry '"@ + name@ + "' has an invalid recorded path: "@ + subdir_message()) by {
                    reveal_strlit("' has an invalid recorded path: --path must be a relative subdirectory without '.' or '..' components");
                    reveal_strlit("' has an invalid recorded path: ");
                    reveal_strlit("--path must be a relative subdirectory without '.' or '..' components");
                }
                return Err(string_from_chars(&m));
            }
            if !override_has_skills {
                let mut m: Vec<char> = Vec::new();
                push_str(&mut m, "managed pantry '");
                push_str(&mut m, name);
                push_str(&mut m, "': no Skill packages under '");
                push_str(&mut m, sub);
                push_str(&mut m, "' in ");
                push_str(&mut m, repo);
                return Err(string_from_chars(&m));
            }
            Ok(join(repo, sub))
        },
        None => {
            let mut candidates: Vec<String> = Vec::new();
            if repo_has_skills {
                candidates.push(crate::text::to_string(repo));
            }
            let ghost first = views(candidates@);
            assert(first =~= if repo_has_skills { seq![repo@] } else { Seq::<Seq<char>>::empty() });
            let mut i: usize = 0;
            while i < entries.len()
                invariant
                    0 <= i <= entries@.len(),
                    views(candidates@) == first + candidate_subdirs(repo@, entries@.take(i as int)),
                decreases entries@.len() - i,
            {
                let e = &entries[i];
                proof {
                    assert(entries@.take(i + 1).drop_last() =~= entries@.take(i as int));
                }
                let ghost before = views(candidates@);
                if e.is_dir && !is_hidden(e.name.as_str()) && e.has_skills {
                    candidates.push(join(repo, e.name.as_str()));
                    assert(views(candidates@) =~= before + seq![join_spec(repo@, e.name@)]);
                } else {
                    assert(views(candidates@) =~= before + Seq::<Seq<char>>::empty());
                }
                i = i + 1;
            }
            assert(entries@.take(i as int) =~= entries@);
            assert(views(candidates@) == candidate_roots(repo@, repo_has_skills, entries@));
            if candidates.len() == 1 {
                Ok(candidates[0].clone())
            } else if candidates.len() == 0 {
                let mut m: Vec<char> = Vec::new();
                push_str(&mut m, "managed pantry '");
                push_str(&mut m, name);
                push_str(&mut m, "': no Skill packages found in ");
                push_str(&mut m, repo);
                push_str(&mut m, " (expected <name>/SKILL.md packages at the repository root or in a single subdirectory); re-add with --path <subdir> or remove the directory");
                Err(string_from_chars(&m))
            } else {
                let mut m: Vec<char> = Vec::new();
                push_str(&mut m, "managed pantry '");
                push_str(&mut m, name);
                push_str(&mut m, "': multiple candidate skill roots in ");
                push_str(&mut m, repo);
                push_str(&mut m, ": ");
                push_joined(&mut m, &candidates, ", ");
                push_str(&mut m, "; re-add with --path <subdir>");
                Err(string_from_chars(&m))
            }
        },
    }
}

/// The names of the pantry clones among the entries of the pantry
/// directory: directories that are not hidden, in entry order.
pub open spec fn pantry_names(entries: Seq<(String, bool)>) -> Seq<Seq<char>>
    decreases entries.len(),
{
    if entries.len() == 0 {
        Seq::empty()
    } else {
        let e = entries.last();
        pantry_names(entries.drop_last()) + if e.1 && !is_hidden_spec(e.0@) {
            seq![e.0@]
        } else {
            Seq::empty()
        }
    }
}

/// The pantry clones among the entries (name, is-directory), sorted by name.
pub fn pantry_dirs(entries: &Vec<(String, bool)>) -> (names: Vec<String>)
    ensures
        exists|perm: Seq<int>, inv: Seq<int>| crate::text::rearranges(views(names@), pantry_names(entries@), perm, inv),
        crate::text::sorted_chars(views(names@)),
{
    let mut names: Vec<String> = Vec::new();
    let mut keys: Vec<Vec<char>> = Vec::new();
    let mut i: usize = 0;
    while i < entries.len()
        invariant
            0 <= i <= entries@.len(),
            views(names@) == pantry_names(entries@.take(i as int)),
            keys@.len() == names@.len(),
            forall|k: int| 0 <= k < names@.len() ==> #[trigger] keys@[k]@ == names@[k]@,
        decreases entries@.len() - i,
    {
        let e = &entries[i];
        proof {
            assert(entries@.take(i + 1).drop_last() =~= entries@.take(i as int));
        }
        let ghost before = views(names@);
        if e.1 && !is_hidden(e.0.as_str()) {
            keys.push(chars_of(e.0.as_str()));
            names.push(e.0.clone());
            assert(views(names@) =~= before + seq![e.0@]);
        } else {
            assert(views(names@) =~= before + Seq::<Seq<char>>::empty());
        }
        i = i + 1;
    }
    assert(entries@.take(i as int) =~= entries@);
    let ghost key = |s: String| s@;
    let ghost items = names@;
    let (sorted, Ghost(pi)) = crate::text::sort_by_keys(names, keys, Ghost(key));
    proof {
        crate::text::lemma_views_rearranges(sorted@, items, pi.0, pi.1);
        assert forall|a: int, b: int| 0 <= a < b < views(sorted@).len() implies crate::text::chars_le(
            #[trigger] views(sorted@)[a],
            #[trigger] views(sorted@)[b],
        ) by {
            assert(crate::text::chars_le(key(sorted@[a]), key(sorted@[b])));
        }
    }
    sorted
}

/// The status of a pantry from the outcome of finding its root and the
/// number of skills found there.
pub fn pantry_status(name: String, repo: String, root: Result<String, String>, skills: usize) -> (s: PantryStatus)
    ensures
        s.name == name,
        s.repo == repo,
        match root {
            Ok(r) => s.root == Some(r) && s.skills == skills && s.error is None,
            Err(e) => s.root is None && s.skills == 0 && s.error == Some(e),
        },
{
    match root {
        Ok(r) => PantryStatus { name, repo, root: Some(r), skills, error: None },
        Err(e) => PantryStatus { name, repo, root: None, skills: 0, error: Some(e) },
    }
}

/// Where `add` clones a repository: the pantry name from the URL (refused
/// when it is not plain), the `--path` checked, and the clone directory under
/// the pantry directory (refused when `HOME` is not set).
pub fn plan_add(url: &str, path: Option<&str>, home: Option<&str>) -> (r: Result<(String, String), String>)
    ensures
        match r {
            Ok((name, repo)) => {
                &&& is_plain_component_spec(url_name(url@))
                &&& name@ == url_name(url@)
                &&& (path matches Some(sub) ==> is_subdir_spec(sub@))
                &&& home matches Some(h) && repo@ == join_spec(join_spec(join_spec(h@, ".lunchbox"@), "pantry"@), name@)
            },
            Err(m) => if !is_plain_component_spec(url_name(url@)) {
                m@ == "cannot derive a pantry name from '"@ + url@ + "' (got '"@ + url_name(url@)
                    + "'); the URL's last path component must be a plain directory name"@
            } else if path matches Some(sub) && !is_subdir_spec(sub@) {
                m@ == subdir_message()
            } else {
                home is None && m@ == pantry_home_unset()
            },
        },
{
    let name = match name_from_url(url) {
        Ok(n) => n,
        Err(m) => return Err(m),
    };
    match path {
        Some(sub) => match validate_subdir(sub) {
            Ok(()) => {},
            Err(m) => return Err(m),
        },
        None => {},
    }
    let home_dir = match pantry_home(home) {
        Ok(h) => h,
        Err(m) => return Err(m),
    };
    let repo = join(home_dir.as_str(), name.as_str());
    Ok((name, repo))
}

/// The refusal to add a pantry whose clone directory exists.
pub fn already_exists_message(name: &str, repo: &str) -> (m: String)
    ensures
        m@ == "managed pantry '"@ + name@ + "' already exists at "@ + repo@,
{
    let mut v: Vec<char> = Vec::new();
    push_str(&mut v, "managed pantry '");
    push_str(&mut v, name);
    push_str(&mut v, "' already exists at ");
    push_str(&mut v, repo);
    string_from_chars(&v)
}

/// The exit code a message quotes: the process's own, or -1 when it was
/// ended by a signal.
pub open spec fn exit_code_text(code: Option<i32>) -> Seq<char> {
    match code {
        Some(c) => signed_decimal(c as int),
        None => signed_decimal(-1),
    }
}

/// The refusal when `git clone` fails.
pub fn clone_failure_message(url: &str, repo: &str, code: Option<i32>, stderr: &str) -> (m: String)
    ensures
        m@ == "failed to clone '"@ + url@ + "' into "@ + repo@ + " (exit "@ + exit_code_text(code) + ")"@
            + stderr_excerpt_spec(stderr@),
{
    let mut v: Vec<char> = Vec::new();
    push_str(&mut v, "failed to clone '");
    push_str(&mut v, url);
    push_str(&mut v, "' into ");
    push_str(&mut v, repo);
    push_str(&mut v, " (exit ");
    push_signed(&mut v, match code {
        Some(c) => c,
        None => -1,
    });
    push_str(&mut v, ")");
    let excerpt = stderr_excerpt(stderr);
    push_str(&mut v, excerpt.as_str());
    string_from_chars(&v)
}

/// The refusal when `git pull` fails for a pantry.
pub fn update_failure_message(name: &str, code: Option<i32>, stderr: &str) -> (m: String)
    ensures
        m@ == "failed to update managed pantry '"@ + name@ + "' (exit "@ + exit_code_text(code) + ")"@
            + stderr_excerpt_spec(stderr@),
{
    let mut v: Vec<char> = Vec::new();
    push_str(&mut v, "failed to update managed pantry '");
    push_str(&mut v, name);
    push_str(&mut v, "' (exit ");
    push_signed(&mut v, match code {
        Some(c) => c,
        None => -1,
    });
    push_str(&mut v, ")");
    let excerpt = stderr_excerpt(stderr);
    push_str(&mut v, excerpt.as_str());
    string_from_chars(&v)
}

/// The pantries that `update` pulls: the one named `want` (refused when
/// there is none), else all, by position.
pub fn select_pantries(names: &Vec<String>, want: Option<&str>) -> (r: Result<Vec<usize>, String>)
    ensures
        match want {
            Some(w) => match r {
                Ok(sel) => sel@.len() == 1 && sel@[0] < names@.len() && names@[sel@[0] as int]@ == w@
                    && forall|k: int| 0 <= k < sel@[0] ==> (#[trigger] names@[k])@ != w@,
                Err(m) => (forall|k: int| 0 <= k < names@.len() ==> (#[trigger] names@[k])@ != w@)
                    && m@ == "no managed pantry named '"@ + w@ + "'"@,
            },
            None => r matches Ok(sel) && sel@.len() == names@.len() && forall|k: int| 0 <= k < sel@.len() ==> #[trigger] sel@[k] == k,
        },
{
    match want {
        Some(w) => {
            let mut i: usize = 0;
            while i < names.len()
                invariant
                    0 <= i <= names@.len(),
                    want == Some(w),
                    forall|k: int| 0 <= k < i ==> (#[trigger] names@[k])@ != w@,
                decreases names@.len() - i,
            {
                if crate::text::str_eq(names[i].as_str(), w) {
                    let mut sel: Vec<usize> = Vec::new();
                    sel.push(i);
                    assert(sel@[0] == i);
                    assert(names@[i as int]@ == w@);
                    return Ok(sel);
                }
                i = i + 1;
            }
            let mut m: Vec<char> = Vec::new();
            push_str(&mut m, "no managed pantry named '");
            push_str(&mut m, w);
            push_str(&mut m, "'");
            Err(string_from_chars(&m))
        },
        None => {
            let mut sel: Vec<usize> = Vec::new();
            let mut i: usize = 0;
            while i < names.len()
                invariant
                    0 <= i <= names@.len(),
                    sel@.len() == i,
                    forall|k: int| 0 <= k < i ==> #[trigger] sel@[k] == k,
                decreases names@.len() - i,
            {
                sel.push(i);
                i = i + 1;
            }
            Ok(sel)
        },
    }
}


/// What the filesystem holds for one pantry clone: its directory name, the
/// recorded `--path` (trimmed), whether the clone joined with that path holds
/// skill packages, whether the clone itself does, and the clone's entries.
pub struct PantryProbe {
    pub name: String,
    pub path_override: Option<String>,
    pub override_has_skills: bool,
    pub repo_has_skills: bool,
    pub entries: Vec<RepoEntry>,
}

/// The recorded `--path` of a probe, as a view.
pub open spec fn probe_override(p: PantryProbe) -> Option<Seq<char>> {
    match p.path_override {
        Some(o) => Some(o@),
        None => None,
    }
}

/// The skill root of a probed clone under the pantry directory `home`.
pub open spec fn probe_root(home: Seq<char>, p: PantryProbe) -> Result<Seq<char>, Seq<char>> {
    pantry_root_spec(
        p.name@,
        join_spec(home, p.name@),
        probe_override(p),
        p.override_has_skills,
        p.repo_has_skills,
        p.entries@,
    )
}

/// The skill roots of the probed clones in order, or the first refusal.
pub open spec fn probe_roots(home: Seq<char>, probes: Seq<PantryProbe>) -> Result<Seq<Seq<char>>, Seq<char>>
    decreases probes.len(),
{
    if probes.len() == 0 {
        Ok(Seq::empty())
    } else {
        match probe_roots(home, probes.drop_last()) {
            Err(e) => Err(e),
            Ok(roots) => match probe_root(home, probes.last()) {
                Ok(r) => Ok(roots.push(r)),
                Err(e) => Err(e),
            },
        }
    }
}

fn probe_override_str(p: &PantryProbe) -> (o: Option<&str>)
    ensures
        crate::config::opt_view(o) == probe_override(*p),
{
    match &p.path_override {
        Some(s) => Some(s.as_str()),
        None => None,
    }
}

/// The managed pantries, from the probes of their clones under the pantry
/// directory `home` (in the order given, which callers take sorted by name):
/// each with its skill root, or the first pantry whose root cannot be found.
pub fn managed_pantries(home: &str, probes: &Vec<PantryProbe>) -> (r: Result<Vec<ManagedPantry>, String>)
    ensures
        match (r, probe_roots(home@, probes@)) {
            (Ok(v), Ok(roots)) => {
                &&& v@.len() == probes@.len()
                &&& roots.len() == probes@.len()
                &&& forall|i: int| 0 <= i < v@.len() ==> {
                    &&& (#[trigger] v@[i]).name@ == probes@[i].name@
                    &&& v@[i].repo@ == join_spec(home@, probes@[i].name@)
                    &&& v@[i].root@ == roots[i]
                    &&& v@[i].path_override == probes@[i].path_override
                }
            },
            (Err(a), Err(b)) => a@ == b,
            _ => false,
        },
{
    let mut out: Vec<ManagedPantry> = Vec::new();
    let ghost mut roots: Seq<Seq<char>> = Seq::empty();
    let mut i: usize = 0;
    while i < probes.len()
        invariant
            0 <= i <= probes@.len(),
            probe_roots(home@, probes@.take(i as int)) == Ok::<Seq<Seq<char>>, Seq<char>>(roots),
            out@.len() == i,
            roots.len() == i,
            forall|k: int| 0 <= k < i ==> {
                &&& (#[trigger] out@[k]).name@ == probes@[k].name@
                &&& out@[k].repo@ == join_spec(home@, probes@[k].name@)
                &&& out@[k].root@ == roots[k]
                &&& out@[k].path_override == probes@[k].path_override
            },
        decreases probes@.len() - i,
    {
        let p = &probes[i];
        assert(probes@.take(i + 1).drop_last() =~= probes@.take(i as int));
        assert(probes@.take(i + 1).last() == probes@[i as int]);
        let repo = join(home, p.name.as_str());
        let root = detect_pantry_root(
            p.name.as_str(),
            repo.as_str(),
            probe_override_str(p),
            p.override_has_skills,
            p.repo_has_skills,
            &p.entries,
        );
        match root {
            Ok(root) => {
                proof {
                    roots = roots.push(root@);
                }
                out.push(ManagedPantry {
                    name: p.name.clone(),
                    repo,
                    root,
                    path_override: p.path_override.clone(),
                });
            },
            Err(e) => {
                proof {
                    lemma_probe_roots_err(home@, probes@, i as int + 1);
                }
                return Err(e);
            },
        }
        i = i + 1;
    }
    assert(probes@.take(i as int) =~= probes@);
    Ok(out)
}

/// A refusal among the first `n` probes is the refusal of all of them.
proof fn lemma_probe_roots_err(home: Seq<char>, probes: Seq<PantryProbe>, n: int)
    requires
        0 <= n <= probes.len(),
        probe_roots(home, probes.take(n)) is Err,
    ensures
        probe_roots(home, probes) == probe_roots(home, probes.take(n)),
    decreases probes.len() - n,
{
    if n < probes.len() {
        assert(probes.take(n + 1).drop_last() =~= probes.take(n));
        lemma_probe_roots_err(home, probes, n + 1);
    } else {
        assert(probes.take(n) =~= probes);
    }
}

/// The skill roots of the managed pantries, in the order of the probes.
pub fn resolve_roots(home: &str, probes: &Vec<PantryProbe>) -> (r: Result<Vec<String>, String>)
    ensures
        match (r, probe_roots(home@, probes@)) {
            (Ok(v), Ok(roots)) => views(v@) == roots,
            (Err(a), Err(b)) => a@ == b,
            _ => false,
        },
{
    let pantries = managed_pantries(home, probes);
    match pantries {
        Ok(v) => {
            let ghost roots = probe_roots(home@, probes@)->Ok_0;
            let mut out: Vec<String> = Vec::new();
            let mut i: usize = 0;
            while i < v.len()
                invariant
                    0 <= i <= v@.len(),
                    roots.len() == v@.len(),
                    forall|k: int| 0 <= k < v@.len() ==> (#[trigger] v@[k]).root@ == roots[k],
                    views(out@) == roots.take(i as int),
                decreases v@.len() - i,
            {
                let ghost before = views(out@);
                let root = v[i].root.clone();
                assert(root@ == roots[i as int]);
                out.push(root);
                assert(views(out@) =~= before.push(roots[i as int]));
                assert(roots.take(i + 1) =~= roots.take(i as int).push(roots[i as int]));
                i = i + 1;
            }
            assert(roots.take(i as int) =~= roots);
            Ok(out)
        },
        Err(e) => Err(e),
    }
}

/// The status of each probed pantry: its root and the number of skills
/// `counts[i]` found there when the root can be found, else why not.
pub fn pantry_statuses(home: &str, probes: &Vec<PantryProbe>, counts: &Vec<usize>) -> (s: Vec<PantryStatus>)
    requires
        counts@.len() == probes@.len(),
    ensures
        s@.len() == probes@.len(),
        forall|i: int| 0 <= i < s@.len() ==> {
            &&& (#[trigger] s@[i]).name@ == probes@[i].name@
            &&& s@[i].repo@ == join_spec(home@, probes@[i].name@)
            &&& match probe_root(home@, probes@[i]) {
                Ok(root) => (s@[i].root matches Some(r) && r@ == root) && s@[i].skills == counts@[i] && s@[i].error is None,
                Err(e) => s@[i].root is None && s@[i].skills == 0 && (s@[i].error matches Some(m) && m@ == e),
            }
        },
{
    let mut out: Vec<PantryStatus> = Vec::new();
    let mut i: usize = 0;
    while i < probes.len()
        invariant
            0 <= i <= probes@.len(),
            counts@.len() == probes@.len(),
            out@.len() == i,
            forall|k: int| 0 <= k < i ==> {
                &&& (#[trigger] out@[k]).name@ == probes@[k].name@
                &&& out@[k].repo@ == join_spec(home@, probes@[k].name@)
                &&& match probe_root(home@, probes@[k]) {
                    Ok(root) => (out@[k].root matches Some(r) && r@ == root) && out@[k].skills == counts@[k]
                        && out@[k].error is None,
                    Err(e) => out@[k].root is None && out@[k].skills == 0 && (out@[k].error matches Some(m) && m@ == e),
                }
            },
        decreases probes@.len() - i,
    {
        let p = &probes[i];
        let repo = join(home, p.name.as_str());
        let root = detect_pantry_root(
            p.name.as_str(),
            repo.as_str(),
            probe_override_str(p),
            p.override_has_skills,
            p.repo_has_skills,
            &p.entries,
        );
        out.push(pantry_status(p.name.clone(), repo, root, counts[i]));
        i = i + 1;
    }
    out
}

} // verus!
