//! The menu's manifests screens: the named manifests found in the discovery
//! directories, and one manifest in detail.
use crate::library::ListedSkill;
use crate::run::{base_name, base_names, entry_base_name, ManifestInput};
use crate::text::{chars_le, chars_of, sorted_by, clone_strings, contains_string, dedup_spec, rearranges, sort_by_keys, views};
use crate::text::{decimal, join_with, push_decimal, push_joined, push_str};
use crate::tui::menu::Action;
use crate::tui::view::{
    blank, field_label, field_label_text, line_view, lines_view, marker, marker_str, one, pad, push_line, push_padded, text_from,
    text_of, two, Seg, Tone};
use crate::tui::{Key, KeyPress};
use vstd::prelude::*;

verus! {

/// How a discovered manifest reads: valid, with its task, its workers (name,
/// pack, tools) and the estimated tokens of its skills; or why it is broken.
#[derive(Debug, Clone, PartialEq)]
pub enum ManifestState {
    Valid { task: String, workers: Vec<(String, Vec<String>, Option<Vec<String>>)>, tokens: u64 },
    Broken(String),
}

/// A named manifest found in a discovery directory.
#[derive(Debug, Clone, PartialEq)]
pub struct DiscoveredManifest {
    pub name: String,
    pub path: String,
    pub state: ManifestState,
}

/// A `.toml` file of a discovery directory: its stem, its path, and what
/// reading it as a manifest gave.
#[derive(Debug, PartialEq)]
pub struct ManifestFile {
    pub name: String,
    pub path: String,
    pub parsed: Result<ManifestInput, String>,
}

/// The skill names a manifest pins, each once, in order.
pub open spec fn pinned_names(input: ManifestInput) -> Seq<Seq<char>> {
    dedup_spec(base_names(crate::run::all_pins(input.workers@)))
}

/// The tokens of a skill in the union (`None` when it is not there).
pub open spec fn union_tokens(skills: Seq<ListedSkill>, name: Seq<char>) -> Option<u64>
    decreases skills.len(),
{
    if skills.len() == 0 {
        None
    } else if skills[0].name@ == name {
        Some(skills[0].tokens)
    } else {
        union_tokens(skills.drop_first(), name)
    }
}

/// The tokens of the named skills that the union knows.
pub open spec fn names_tokens(names: Seq<Seq<char>>, skills: Seq<ListedSkill>) -> nat
    decreases names.len(),
{
    if names.len() == 0 {
        0
    } else {
        names_tokens(names.drop_last(), skills) + match union_tokens(skills, names.last()) {
            Some(t) => t as nat,
            None => 0,
        }
    }
}

/// The estimated tokens of a manifest: the union's tokens of each skill it pins.
pub open spec fn manifest_tokens_spec(input: ManifestInput, skills: Seq<ListedSkill>) -> nat {
    names_tokens(pinned_names(input), skills)
}

fn lookup_union(skills: &Vec<ListedSkill>, name: &String) -> (r: Option<u64>)
    ensures
        r == union_tokens(skills@, name@),
{
    let mut i: usize = 0;
    assert(skills@.skip(0) =~= skills@);
    while i < skills.len()
        invariant
            0 <= i <= skills@.len(),
            union_tokens(skills@, name@) == union_tokens(skills@.skip(i as int), name@),
        decreases skills@.len() - i,
    {
        assert(skills@.skip(i as int)[0] == skills@[i as int]);
        assert(skills@.skip(i as int).drop_first() =~= skills@.skip(i + 1));
        if skills[i].name.eq(name) {
            return Some(skills[i].tokens);
        }
        i = i + 1;
    }
    None
}

proof fn lemma_names_tokens_prefix(names: Seq<Seq<char>>, skills: Seq<ListedSkill>, n: int)
    requires
        0 <= n <= names.len(),
    ensures
        names_tokens(names.take(n), skills) <= names_tokens(names, skills),
    decreases names.len() - n,
{
    if n < names.len() {
        lemma_names_tokens_prefix(names, skills, n + 1);
        assert(names.take(n + 1).drop_last() =~= names.take(n));
    } else {
        assert(names.take(n) =~= names);
    }
}

/// The estimated tokens of a manifest (see `manifest_tokens_spec`).
pub fn manifest_tokens(input: &ManifestInput, skills: &Vec<ListedSkill>) -> (t: u64)
    requires
        manifest_tokens_spec(*input, skills@) <= u64::MAX,
    ensures
        t == manifest_tokens_spec(*input, skills@),
{
    let ws = &input.workers;
    let mut bases: Vec<String> = Vec::new();
    let mut i: usize = 0;
    while i < ws.len()
        invariant
            0 <= i <= ws@.len(),
            views(bases@) == base_names(crate::run::all_pins(ws@.take(i as int))),
        decreases ws@.len() - i,
    {
        let pack = &ws[i].pack;
        let ghost before = views(bases@);
        let mut j: usize = 0;
        while j < pack.len()
            invariant
                0 <= j <= pack@.len(),
                views(bases@) == before + base_names(views(pack@).take(j as int)),
            decreases pack@.len() - j,
        {
            let b = entry_base_name(&pack[j]);
            let ghost mid = views(bases@);
            bases.push(b);
            assert(views(bases@) =~= mid.push(base_name(pack@[j as int]@)));
            assert(base_names(views(pack@).take(j + 1)) =~= base_names(views(pack@).take(j as int)).push(
                base_name(pack@[j as int]@),
            ));
            j = j + 1;
        }
        proof {
            assert(ws@.take(i + 1).drop_last() =~= ws@.take(i as int));
            assert(views(pack@).take(j as int) =~= views(pack@));
            let prev = crate::run::all_pins(ws@.take(i as int));
            assert(base_names(prev + views(pack@)) =~= base_names(prev) + base_names(views(pack@)));
        }
        i = i + 1;
    }
    assert(ws@.take(i as int) =~= ws@);
    let names = crate::text::dedup_strings(bases);
    let ghost nv = views(names@);
    assert(nv == pinned_names(*input));
    let mut total: u64 = 0;
    let mut k: usize = 0;
    while k < names.len()
        invariant
            0 <= k <= names@.len(),
            nv == views(names@),
            names_tokens(nv, skills@) <= u64::MAX,
            total == names_tokens(nv.take(k as int), skills@),
        decreases names@.len() - k,
    {
        proof {
            assert(nv.take(k + 1).drop_last() =~= nv.take(k as int));
            assert(nv.take(k + 1).last() == names@[k as int]@);
            lemma_names_tokens_prefix(nv, skills@, k + 1);
        }
        match lookup_union(skills, &names[k]) {
            Some(t) => {
                total = total + t;
            },
            None => {},
        }
        k = k + 1;
    }
    assert(nv.take(k as int) =~= nv);
    total
}


/// The tokens of the skills whose names are among `names`.
pub open spec fn chosen_tokens(skills: Seq<ListedSkill>, names: Seq<Seq<char>>) -> nat
    decreases skills.len(),
{
    if skills.len() == 0 {
        0
    } else {
        chosen_tokens(skills.drop_last(), names) + if names.contains(skills.last().name@) {
            skills.last().tokens as nat
        } else {
            0
        }
    }
}

/// The tokens of the skills named `x`.
pub open spec fn named_tokens(skills: Seq<ListedSkill>, x: Seq<char>) -> nat
    decreases skills.len(),
{
    if skills.len() == 0 {
        0
    } else {
        named_tokens(skills.drop_last(), x) + if skills.last().name@ == x {
            skills.last().tokens as nat
        } else {
            0
        }
    }
}

proof fn lemma_chosen_bound(skills: Seq<ListedSkill>, names: Seq<Seq<char>>)
    ensures
        chosen_tokens(skills, names) <= crate::tui::preview::listing_sum(skills),
    decreases skills.len(),
{
    if skills.len() > 0 {
        lemma_chosen_bound(skills.drop_last(), names);
    }
}

proof fn lemma_chosen_push(skills: Seq<ListedSkill>, names: Seq<Seq<char>>, x: Seq<char>)
    requires
        !names.contains(x),
    ensures
        chosen_tokens(skills, names.push(x)) == chosen_tokens(skills, names) + named_tokens(skills, x),
    decreases skills.len(),
{
    if skills.len() > 0 {
        lemma_chosen_push(skills.drop_last(), names, x);
        let n = skills.last().name@;
        assert(names.push(x).contains(n) <==> (names.contains(n) || n == x)) by {
            if names.push(x).contains(n) {
                let k = choose|k: int| 0 <= k < names.push(x).len() && names.push(x)[k] == n;
                if k < names.len() {
                    assert(names[k] == n);
                }
            }
            if names.contains(n) {
                let k = choose|k: int| 0 <= k < names.len() && names[k] == n;
                assert(names.push(x)[k] == n);
            }
            if n == x {
                assert(names.push(x)[names.len() as int] == n);
            }
        }
    }
}

proof fn lemma_lookup_last(skills: Seq<ListedSkill>, x: Seq<char>)
    requires
        skills.len() > 0,
    ensures
        union_tokens(skills, x) == match union_tokens(skills.drop_last(), x) {
            Some(t) => Some(t),
            None => if skills.last().name@ == x {
                Some(skills.last().tokens)
            } else {
                None
            },
        },
    decreases skills.len(),
{
    let p = skills.drop_last();
    if skills.len() == 1 {
        assert(p.len() == 0);
        assert(union_tokens(p, x) is None);
        assert(skills.last() == skills[0]);
        assert(skills.drop_first().len() == 0);
        assert(union_tokens(skills.drop_first(), x) is None);
    } else if skills[0].name@ == x {
        assert(p[0] == skills[0]);
        assert(union_tokens(p, x) == Some(skills[0].tokens));
    } else {
        let t = skills.drop_first();
        lemma_lookup_last(t, x);
        assert(t.drop_last() =~= p.drop_first());
        assert(p[0] == skills[0]);
        assert(union_tokens(p, x) == union_tokens(p.drop_first(), x));
        assert(t.last() == skills.last());
        assert(union_tokens(skills, x) == union_tokens(t, x));
    }
}

proof fn lemma_named_is_lookup(skills: Seq<ListedSkill>, x: Seq<char>)
    requires
        listed_names_view(skills).no_duplicates(),
    ensures
        named_tokens(skills, x) == match union_tokens(skills, x) {
            Some(t) => t as nat,
            None => 0,
        },
        union_tokens(skills, x) is None ==> !listed_names_view(skills).contains(x),
    decreases skills.len(),
{
    if skills.len() > 0 {
        let p = skills.drop_last();
        assert(listed_names_view(p) =~= listed_names_view(skills).drop_last());
        lemma_named_is_lookup(p, x);
        lemma_lookup_last(skills, x);
        if skills.last().name@ == x && union_tokens(p, x) is Some {
            lemma_lookup_some(p, x);
            let k = choose|k: int| 0 <= k < p.len() && p[k].name@ == x;
            assert(listed_names_view(skills)[k] == listed_names_view(skills)[skills.len() - 1]);
        }
        if union_tokens(skills, x) is None {
            assert forall|k: int| 0 <= k < listed_names_view(skills).len() implies listed_names_view(skills)[k] != x by {
                if k < p.len() {
                    assert(listed_names_view(p)[k] == listed_names_view(skills)[k]);
                    assert(!listed_names_view(p).contains(x));
                }
            }
        }
    }
}

proof fn lemma_lookup_some(skills: Seq<ListedSkill>, x: Seq<char>)
    ensures
        union_tokens(skills, x) is Some ==> exists|k: int| 0 <= k < skills.len() && skills[k].name@ == x,
    decreases skills.len(),
{
    if skills.len() > 0 && skills[0].name@ != x {
        lemma_lookup_some(skills.drop_first(), x);
        if union_tokens(skills, x) is Some {
            let k = choose|k: int| 0 <= k < skills.drop_first().len() && skills.drop_first()[k].name@ == x;
            assert(skills[k + 1].name@ == x);
        }
    }
}

/// The names of the listed skills.
pub open spec fn listed_names_view(s: Seq<ListedSkill>) -> Seq<Seq<char>> {
    s.map_values(|l: ListedSkill| l.name@)
}

/// With distinct names on both sides, the tokens of some named skills are
/// the tokens of the skills chosen by those names.
proof fn lemma_names_tokens_chosen(names: Seq<Seq<char>>, skills: Seq<ListedSkill>)
    requires
        names.no_duplicates(),
        listed_names_view(skills).no_duplicates(),
    ensures
        names_tokens(names, skills) == chosen_tokens(skills, names),
    decreases names.len(),
{
    if names.len() == 0 {
        lemma_chosen_empty(skills, names);
    } else {
        let p = names.drop_last();
        assert(p.no_duplicates());
        lemma_names_tokens_chosen(p, skills);
        assert(!p.contains(names.last())) by {
            if p.contains(names.last()) {
                let k = choose|k: int| 0 <= k < p.len() && p[k] == names.last();
                assert(names[k] == names[names.len() - 1]);
            }
        }
        lemma_chosen_push(skills, p, names.last());
        assert(p.push(names.last()) =~= names);
        lemma_named_is_lookup(skills, names.last());
    }
}

proof fn lemma_chosen_empty(skills: Seq<ListedSkill>, names: Seq<Seq<char>>)
    requires
        names.len() == 0,
    ensures
        chosen_tokens(skills, names) == 0,
    decreases skills.len(),
{
    if skills.len() > 0 {
        lemma_chosen_empty(skills.drop_last(), names);
    }
}

/// The tokens of a manifest never exceed the tokens of the whole union when
/// the union names each skill once.
pub proof fn lemma_manifest_tokens_bound(input: ManifestInput, skills: Seq<ListedSkill>)
    requires
        listed_names_view(skills).no_duplicates(),
    ensures
        manifest_tokens_spec(input, skills) <= crate::tui::preview::listing_sum(skills),
{
    let names = pinned_names(input);
    crate::text::lemma_remove_duplicates_no_duplicates(base_names(crate::run::all_pins(input.workers@)), Seq::empty());
    lemma_names_tokens_chosen(names, skills);
    lemma_chosen_bound(skills, names);
}

/// How a manifest file reads: broken when it could not be read or fails
/// validation, else valid with its task, workers and tokens.
pub open spec fn state_matches(s: ManifestState, parsed: Result<ManifestInput, String>, skills: Seq<ListedSkill>) -> bool {
    match parsed {
        Err(e) => s == ManifestState::Broken(e),
        Ok(input) => match crate::run::validate_spec(input) {
            Err(m) => s matches ManifestState::Broken(b) && b@ == m,
            Ok(()) => match s {
                ManifestState::Valid { task, workers, tokens } => {
                    &&& task == input.task
                    &&& tokens == manifest_tokens_spec(input, skills)
                    &&& workers@.len() == input.workers@.len()
                    &&& forall|i: int| 0 <= i < workers@.len() ==> (#[trigger] workers@[i]).0 == input.workers@[i].name
                        && workers@[i].1@ == input.workers@[i].pack@ && crate::run::tools_view(workers@[i].2)
                        == crate::run::tools_view(input.workers@[i].tools)
                },
                ManifestState::Broken(_) => false,
            },
        },
    }
}

/// How a manifest file reads (see `state_matches`).
pub fn manifest_state(parsed: &Result<ManifestInput, String>, skills: &Vec<ListedSkill>) -> (s: ManifestState)
    requires
        listed_names_view(skills@).no_duplicates(),
        crate::tui::preview::listing_sum(skills@) <= u64::MAX,
    ensures
        state_matches(s, *parsed, skills@),
{
    match parsed {
        Err(e) => ManifestState::Broken(e.clone()),
        Ok(input) => match input.validate() {
            Err(m) => ManifestState::Broken(m),
            Ok(_) => {
                proof {
                    lemma_manifest_tokens_bound(*input, skills@);
                }
                let tokens = manifest_tokens(input, skills);
                let mut workers: Vec<(String, Vec<String>, Option<Vec<String>>)> = Vec::new();
                let mut i: usize = 0;
                while i < input.workers.len()
                    invariant
                        0 <= i <= input.workers@.len(),
                        workers@.len() == i,
                        forall|k: int| 0 <= k < i ==> (#[trigger] workers@[k]).0 == input.workers@[k].name
                            && workers@[k].1@ == input.workers@[k].pack@ && crate::run::tools_view(workers@[k].2)
                            == crate::run::tools_view(input.workers@[k].tools),
                    decreases input.workers@.len() - i,
                {
                    let w = &input.workers[i];
                    let tools = match &w.tools {
                        Some(t) => Some(clone_strings(t)),
                        None => None,
                    };
                    workers.push((w.name.clone(), clone_strings(&w.pack), tools));
                    i = i + 1;
                }
                ManifestState::Valid { task: input.task.clone(), workers, tokens }
            },
        },
    }
}

/// The key by which the files of a directory are ordered: their paths.
pub open spec fn file_key() -> spec_fn(ManifestFile) -> Seq<char> {
    |f: ManifestFile| f.path@
}

/// The names of the discovered manifests.
pub open spec fn found_names(found: Seq<DiscoveredManifest>) -> Seq<Seq<char>> {
    found.map_values(|m: DiscoveredManifest| m.name@)
}

/// No two discovered manifests share a name.
pub open spec fn distinct_found(found: Seq<DiscoveredManifest>) -> bool {
    forall|a: int, b: int| 0 <= a < b < found.len() ==> (#[trigger] found[a]).name@ != (#[trigger] found[b]).name@
}

/// The entry comes from one of the files: same name and path, and the state
/// that file reads as.
pub open spec fn from_files(entry: DiscoveredManifest, files: Seq<ManifestFile>, skills: Seq<ListedSkill>) -> bool {
    exists|g: int|
        0 <= g < files.len() && (#[trigger] files[g]).name == entry.name && files[g].path == entry.path && state_matches(
            entry.state,
            files[g].parsed,
            skills,
        )
}

fn absorb_dir(
    found: &mut Vec<DiscoveredManifest>,
    names: &mut Vec<String>,
    files: Vec<ManifestFile>,
    skills: &Vec<ListedSkill>,
)
    requires
        listed_names_view(skills@).no_duplicates(),
        crate::tui::preview::listing_sum(skills@) <= u64::MAX,
        views(old(names)@) == found_names(old(found)@),
        distinct_found(old(found)@),
    ensures
        views(final(names)@) == found_names(final(found)@),
        distinct_found(final(found)@),
        old(found)@.len() <= final(found)@.len(),
        forall|k: int| 0 <= k < old(found)@.len() ==> final(found)@[k] == old(found)@[k],
        forall|g: int| 0 <= g < files@.len() ==> found_names(final(found)@).contains((#[trigger] files@[g]).name@),
        forall|k: int| old(found)@.len() <= k < final(found)@.len() ==> from_files(#[trigger] final(found)@[k], files@, skills@)
            && !found_names(old(found)@).contains(final(found)@[k].name@),
        forall|a: int, b: int| old(found)@.len() <= a < b < final(found)@.len() ==> chars_le(
            (#[trigger] final(found)@[a]).path@,
            (#[trigger] final(found)@[b]).path@,
        ),
{
    let ghost fs = files@;
    let ghost start = found@;
    let mut keys: Vec<Vec<char>> = Vec::new();
    let mut k: usize = 0;
    while k < files.len()
        invariant
            0 <= k <= files@.len(),
            keys@.len() == k,
            forall|m: int| 0 <= m < k ==> #[trigger] keys@[m]@ == file_key()(files@[m]),
        decreases files@.len() - k,
    {
        keys.push(chars_of(files[k].path.as_str()));
        k = k + 1;
    }
    let (sorted, Ghost(pi)) = sort_by_keys(files, keys, Ghost(file_key()));
    let ghost perm = pi.0;
    let ghost inv = pi.1;
    let mut j: usize = 0;
    while j < sorted.len()
        invariant
            0 <= j <= sorted@.len(),
            rearranges(sorted@, fs, perm, inv),
            listed_names_view(skills@).no_duplicates(),
            crate::tui::preview::listing_sum(skills@) <= u64::MAX,
            views(names@) == found_names(found@),
            distinct_found(found@),
            start.len() <= found@.len(),
            forall|k: int| 0 <= k < start.len() ==> found@[k] == start[k],
            forall|m: int| 0 <= m < j ==> found_names(found@).contains((#[trigger] sorted@[m]).name@),
            forall|k: int| start.len() <= k < found@.len() ==> from_files(#[trigger] found@[k], fs, skills@)
                && !found_names(start).contains(found@[k].name@),
            sorted_by(sorted@, file_key()),
            forall|a: int, b: int| start.len() <= a < b < found@.len() ==> chars_le(
                (#[trigger] found@[a]).path@,
                (#[trigger] found@[b]).path@,
            ),
            forall|a: int, m: int| start.len() <= a < found@.len() && j <= m < sorted@.len() ==> chars_le(
                (#[trigger] found@[a]).path@,
                (#[trigger] sorted@[m]).path@,
            ),
        decreases sorted@.len() - j,
    {
        let f = &sorted[j];
        let ghost g = perm[j as int];
        assert(sorted@[j as int] == fs[g]);
        let ghost old_found = found@;
        let ghost old_names = found_names(old_found);
        if !contains_string(names, &f.name) {
            let state = manifest_state(&f.parsed, skills);
            let entry = DiscoveredManifest { name: f.name.clone(), path: f.path.clone(), state };
            let ghost ev = entry;
            found.push(entry);
            names.push(f.name.clone());
            proof {
                assert(ev.path@ == sorted@[j as int].path@);
                assert forall|a: int, b: int| start.len() <= a < b < found@.len() implies chars_le(
                    (#[trigger] found@[a]).path@,
                    (#[trigger] found@[b]).path@,
                ) by {
                    if b == old_found.len() {
                        assert(found@[a] == old_found[a]);
                        assert(chars_le(old_found[a].path@, sorted@[j as int].path@));
                    } else {
                        assert(found@[a] == old_found[a]);
                        assert(found@[b] == old_found[b]);
                    }
                }
                assert forall|a: int, m: int| start.len() <= a < found@.len() && j + 1 <= m < sorted@.len() implies chars_le(
                    (#[trigger] found@[a]).path@,
                    (#[trigger] sorted@[m]).path@,
                ) by {
                    if a == old_found.len() {
                        assert(chars_le(file_key()(sorted@[j as int]), file_key()(sorted@[m])));
                    } else {
                        assert(found@[a] == old_found[a]);
                    }
                }
            }
            proof {
                assert(found_names(found@) =~= old_names.push(ev.name@));
                assert(views(names@) =~= found_names(found@));
                assert forall|a: int, b: int| 0 <= a < b < found@.len() implies (#[trigger] found@[a]).name@ != (#[trigger] found@[b]).name@ by {
                    if b == old_found.len() {
                        assert(old_names[a] == found@[a].name@);
                        assert(old_names.contains(old_names[a]));
                    }
                }
                assert(from_files(ev, fs, skills@));
                assert(!found_names(start).contains(ev.name@)) by {
                    if found_names(start).contains(ev.name@) {
                        let k = choose|k: int| 0 <= k < found_names(start).len() && found_names(start)[k] == ev.name@;
                        assert(old_names[k] == ev.name@);
                    }
                }
                assert forall|k: int| start.len() <= k < found@.len() implies from_files(#[trigger] found@[k], fs, skills@)
                    && !found_names(start).contains(found@[k].name@) by {
                    if k < old_found.len() {
                        assert(found@[k] == old_found[k]);
                    }
                }
                assert forall|m: int| 0 <= m < j + 1 implies found_names(found@).contains((#[trigger] sorted@[m]).name@) by {
                    if m < j {
                        assert(old_names.contains(sorted@[m].name@));
                        let k = choose|k: int| 0 <= k < old_names.len() && old_names[k] == sorted@[m].name@;
                        assert(found_names(found@)[k] == sorted@[m].name@);
                    } else {
                        assert(found_names(found@)[old_found.len() as int] == sorted@[m].name@);
                    }
                }
            }
        }
        j = j + 1;
    }
    proof {
        assert forall|gg: int| 0 <= gg < fs.len() implies found_names(found@).contains((#[trigger] fs[gg]).name@) by {
            let m = inv[gg];
            assert(sorted@[m] == fs[gg]);
        }
    }
}

/// The entries come directory by directory, in path order within each:
/// entry `k` comes from directory `dir_of[k]`.
pub open spec fn dir_order(found: Seq<DiscoveredManifest>, dirs: Seq<Vec<ManifestFile>>, dir_of: Seq<int>, skills: Seq<ListedSkill>) -> bool {
    &&& dir_of.len() == found.len()
    &&& forall|k: int| 0 <= k < found.len() ==> 0 <= #[trigger] dir_of[k] < dirs.len() && from_files(found[k], dirs[dir_of[k]]@, skills)
    &&& forall|a: int, b: int| 0 <= a < b < found.len() ==> #[trigger] dir_of[a] <= #[trigger] dir_of[b]
    &&& forall|a: int, b: int| 0 <= a < b < found.len() && dir_of[a] == dir_of[b] ==> chars_le(
        (#[trigger] found[a]).path@,
        (#[trigger] found[b]).path@,
    )
}

/// The named manifests of the discovery directories (their `.toml` files,
/// directory by directory): each name once, taken from the first directory
/// that has it.
pub fn discover(dirs: Vec<Vec<ManifestFile>>, skills: &Vec<ListedSkill>) -> (found: Vec<DiscoveredManifest>)
    requires
        listed_names_view(skills@).no_duplicates(),
        crate::tui::preview::listing_sum(skills@) <= u64::MAX,
    ensures
        distinct_found(found@),
        forall|d: int, f: int| 0 <= d < dirs@.len() && 0 <= f < dirs@[d]@.len() ==> found_names(found@).contains(
            (#[trigger] dirs@[d]@[f]).name@,
        ),
        forall|k: int| 0 <= k < found@.len() ==> exists|d: int| 0 <= d < dirs@.len() && from_files(#[trigger] found@[k], dirs@[d]@, skills@)
            && forall|e: int, g: int| 0 <= e < d && 0 <= g < dirs@[e]@.len() ==> (#[trigger] dirs@[e]@[g]).name@ != found@[k].name@,
        exists|dir_of: Seq<int>| dir_order(found@, dirs@, dir_of, skills@),
{
    let ghost ds = dirs@;
    let total = dirs.len();
    let mut found: Vec<DiscoveredManifest> = Vec::new();
    let mut names: Vec<String> = Vec::new();
    let mut rest = dirs;
    let mut d: usize = 0;
    let ghost mut dir_of: Seq<int> = Seq::empty();
    assert(views(names@) =~= found_names(found@));
    while rest.len() > 0
        invariant
            total == ds.len(),
            d + rest@.len() == ds.len(),
            rest@ == ds.skip(d as int),
            listed_names_view(skills@).no_duplicates(),
            crate::tui::preview::listing_sum(skills@) <= u64::MAX,
            views(names@) == found_names(found@),
            distinct_found(found@),
            forall|e: int, g: int| 0 <= e < d && 0 <= g < ds[e]@.len() ==> found_names(found@).contains(
                (#[trigger] ds[e]@[g]).name@,
            ),
            forall|k: int| 0 <= k < found@.len() ==> exists|e: int| 0 <= e < d && from_files(#[trigger] found@[k], ds[e]@, skills@)
                && forall|e2: int, g2: int| 0 <= e2 < e && 0 <= g2 < ds[e2]@.len() ==> (#[trigger] ds[e2]@[g2]).name@ != found@[k].name@,
            dir_order(found@, ds, dir_of, skills@),
            forall|k: int| 0 <= k < found@.len() ==> dir_of[k] < d,
        decreases rest@.len(),
    {
        let files = rest.remove(0);
        assert(files == ds[d as int]);
        assert(rest@ =~= ds.skip(d + 1));
        let ghost before = found@;
        absorb_dir(&mut found, &mut names, files, skills);
        proof {
            let old_dir_of = dir_of;
            dir_of = old_dir_of + Seq::new((found@.len() - before.len()) as nat, |_i: int| d as int);
            assert forall|k: int| 0 <= k < found@.len() implies 0 <= #[trigger] dir_of[k] < ds.len() && from_files(
                found@[k],
                ds[dir_of[k]]@,
                skills@,
            ) by {
                if k < before.len() {
                    assert(found@[k] == before[k]);
                } else {
                    assert(dir_of[k] == d);
                }
            }
            assert forall|a: int, b: int| 0 <= a < b < found@.len() implies #[trigger] dir_of[a] <= #[trigger] dir_of[b] by {
                if b < before.len() {
                } else if a < before.len() {
                    assert(old_dir_of[a] < d);
                }
            }
            assert forall|a: int, b: int| 0 <= a < b < found@.len() && dir_of[a] == dir_of[b] implies chars_le(
                (#[trigger] found@[a]).path@,
                (#[trigger] found@[b]).path@,
            ) by {
                if b < before.len() {
                    assert(found@[a] == before[a]);
                    assert(found@[b] == before[b]);
                } else if a < before.len() {
                    assert(old_dir_of[a] < d);
                }
            }
        }
        proof {
            assert forall|e: int, g: int| 0 <= e < d + 1 && 0 <= g < ds[e]@.len() implies found_names(found@).contains(
                (#[trigger] ds[e]@[g]).name@,
            ) by {
                if e < d {
                    assert(found_names(before).contains(ds[e]@[g].name@));
                    let k = choose|k: int| 0 <= k < found_names(before).len() && found_names(before)[k] == ds[e]@[g].name@;
                    assert(found_names(found@)[k] == ds[e]@[g].name@);
                }
            }
            assert forall|k: int| 0 <= k < found@.len() implies exists|e: int| 0 <= e < d + 1 && from_files(#[trigger] found@[k], ds[e]@, skills@)
                && forall|e2: int, g2: int| 0 <= e2 < e && 0 <= g2 < ds[e2]@.len() ==> (#[trigger] ds[e2]@[g2]).name@ != found@[k].name@ by {
                if k < before.len() {
                    assert(found@[k] == before[k]);
                } else {
                    assert(from_files(found@[k], ds[d as int]@, skills@));
                    assert forall|e2: int, g2: int| 0 <= e2 < d && 0 <= g2 < ds[e2]@.len() implies (#[trigger] ds[e2]@[g2]).name@ != found@[k].name@ by {
                        assert(found_names(before).contains(ds[e2]@[g2].name@));
                    }
                }
            }
        }
        d = d + 1;
    }
    found
}


/// The workers of a valid manifest as (name, pack, tools).
pub open spec fn rows_view(rows: Seq<(String, Vec<String>, Option<Vec<String>>)>) -> Seq<(Seq<char>, Seq<Seq<char>>, Option<Seq<Seq<char>>>)> {
    rows.map_values(|r: (String, Vec<String>, Option<Vec<String>>)| (r.0@, views(r.1@), crate::run::tools_view(r.2)))
}

/// Two states read the same.
pub open spec fn same_state(a: ManifestState, b: ManifestState) -> bool {
    match (a, b) {
        (ManifestState::Valid { task: t1, workers: w1, tokens: k1 }, ManifestState::Valid { task: t2, workers: w2, tokens: k2 }) =>
            t1 == t2 && k1 == k2 && rows_view(w1@) == rows_view(w2@),
        (ManifestState::Broken(e1), ManifestState::Broken(e2)) => e1 == e2,
        _ => false,
    }
}

impl DiscoveredManifest {
    /// A copy of this entry.
    pub fn copy(&self) -> (r: DiscoveredManifest)
        ensures
            r.name == self.name,
            r.path == self.path,
            same_state(r.state, self.state),
    {
        let state = match &self.state {
            ManifestState::Broken(e) => ManifestState::Broken(e.clone()),
            ManifestState::Valid { task, workers, tokens } => {
                let mut rows: Vec<(String, Vec<String>, Option<Vec<String>>)> = Vec::new();
                let mut i: usize = 0;
                while i < workers.len()
                    invariant
                        0 <= i <= workers@.len(),
                        rows_view(rows@) == rows_view(workers@.take(i as int)),
                    decreases workers@.len() - i,
                {
                    let w = &workers[i];
                    let tools = match &w.2 {
                        Some(t) => Some(clone_strings(t)),
                        None => None,
                    };
                    let row = (w.0.clone(), clone_strings(&w.1), tools);
                    let ghost before = rows_view(rows@);
                    rows.push(row);
                    assert(rows_view(rows@) =~= before.push((workers@[i as int].0@, views(workers@[i as int].1@), crate::run::tools_view(workers@[i as int].2))));
                    assert(workers@.take(i + 1) =~= workers@.take(i as int).push(workers@[i as int]));
                    assert(rows_view(workers@.take(i + 1)) =~= rows_view(workers@.take(i as int)).push((workers@[i as int].0@, views(workers@[i as int].1@), crate::run::tools_view(workers@[i as int].2))));
                    i = i + 1;
                }
                assert(workers@.take(i as int) =~= workers@);
                ManifestState::Valid { task: task.clone(), workers: rows, tokens: *tokens }
            },
        };
        DiscoveredManifest { name: self.name.clone(), path: self.path.clone(), state }
    }
}

/// The manifests screen: what was discovered and the cursor.
#[derive(Debug, Clone, PartialEq)]
pub struct ManifestsState {
    pub manifests: Vec<DiscoveredManifest>,
    pub cursor: usize,
}

impl ManifestsState {
    /// The screen over what `discover` finds, with the cursor on the first.
    pub fn build(dirs: Vec<Vec<ManifestFile>>, skills: &Vec<ListedSkill>) -> (s: Self)
        requires
            listed_names_view(skills@).no_duplicates(),
            crate::tui::preview::listing_sum(skills@) <= u64::MAX,
        ensures
            s.cursor == 0,
            distinct_found(s.manifests@),
            forall|d: int, f: int| 0 <= d < dirs@.len() && 0 <= f < dirs@[d]@.len() ==> found_names(s.manifests@).contains(
                (#[trigger] dirs@[d]@[f]).name@,
            ),
            forall|k: int| 0 <= k < s.manifests@.len() ==> exists|d: int| 0 <= d < dirs@.len() && from_files(
                #[trigger] s.manifests@[k],
                dirs@[d]@,
                skills@,
            ) && forall|e: int, g: int| 0 <= e < d && 0 <= g < dirs@[e]@.len() ==> (#[trigger] dirs@[e]@[g]).name@
                != s.manifests@[k].name@,
    {
        ManifestsState { manifests: discover(dirs, skills), cursor: 0 }
    }
}

/// What a pressed key does on the manifests screen (see `handle_key`).
pub open spec fn manifests_key_post(o: ManifestsState, f: ManifestsState, key: KeyPress, a: Action) -> bool {
    let k = key.key;
    let n = o.manifests@.len();
    if k == Key::Char('q') {
        a == Action::Quit && f == o
    } else if k == Key::Esc {
        a == Action::Pop && f == o
    } else if key.is_plain_char('n') {
        a == Action::NewEditor && f == o
    } else if n == 0 {
        a == Action::Continue && f == o
    } else if key.is_up() {
        a == Action::Continue && f.manifests == o.manifests && f.cursor == if o.cursor > 0 {
            o.cursor - 1
        } else {
            0
        }
    } else if key.is_down() {
        a == Action::Continue && f.manifests == o.manifests && f.cursor == if o.cursor < n - 1 {
            o.cursor + 1
        } else {
            n - 1
        }
    } else if k == Key::Enter {
        f == o && (a matches Action::Detail(m) && m.name == o.manifests@[o.cursor as int].name && m.path
            == o.manifests@[o.cursor as int].path)
    } else if key.is_plain_char('e') {
        f == o && (a matches Action::EditManifest(m) && m.name == o.manifests@[o.cursor as int].name && m.path
            == o.manifests@[o.cursor as int].path)
    } else {
        a == Action::Continue && f == o
    }
}

/// What a key does on the manifests screen: `q` quits and Escape goes back;
/// `n` starts a new manifest; with manifests listed, up/`k` and down/`j`
/// move, Enter shows the one under the cursor and `e` edits it.
pub fn handle_key(state: &mut ManifestsState, key: &KeyPress) -> (a: Action)
    requires
        old(state).manifests@.len() == 0 || old(state).cursor < old(state).manifests@.len(),
    ensures
        final(state).manifests == old(state).manifests,
        final(state).manifests@.len() == 0 || final(state).cursor < final(state).manifests@.len(),
        !key.press ==> a == Action::Continue && *final(state) == *old(state),
        key.press ==> manifests_key_post(*old(state), *final(state), *key, a),
{
    if !key.press {
        return Action::Continue;
    }
    match key.key {
        Key::Char(c) => if c == 'q' {
            return Action::Quit;
        },
        Key::Esc => {
            return Action::Pop;
        },
        _ => {},
    }
    if key.plain_char('n') {
        return Action::NewEditor;
    }
    if state.manifests.len() == 0 {
        return Action::Continue;
    }
    let max = state.manifests.len() - 1;
    if key.up() {
        state.cursor = if state.cursor > 0 { state.cursor - 1 } else { 0 };
        return Action::Continue;
    }
    if key.down() {
        state.cursor = if state.cursor < max { state.cursor + 1 } else { max };
        return Action::Continue;
    }
    if key.key == Key::Enter {
        return Action::Detail(state.manifests[state.cursor].copy());
    }
    if key.plain_char('e') {
        return Action::EditManifest(state.manifests[state.cursor].copy());
    }
    Action::Continue
}

/// One manifest in detail, with the union's tokens to price its pins.
#[derive(Debug, Clone, PartialEq)]
pub struct ManifestDetailState {
    pub manifest: DiscoveredManifest,
    pub tokens: Vec<ListedSkill>,
}

impl ManifestDetailState {
    pub fn new(manifest: DiscoveredManifest, tokens: Vec<ListedSkill>) -> (s: Self)
        ensures
            s.manifest == manifest,
            s.tokens == tokens,
    {
        ManifestDetailState { manifest, tokens }
    }
}

/// The tokens shown beside a pin in the detail view: its skill's, when the
/// union knows the skill.
pub fn pin_tokens(state: &ManifestDetailState, pin: &String) -> (t: Option<u64>)
    ensures
        t == union_tokens(state.tokens@, base_name(pin@)),
{
    let base = entry_base_name(pin);
    lookup_union(&state.tokens, &base)
}

/// What a key does on the detail view: `q` quits and Escape goes back.
pub fn handle_detail_key(key: &KeyPress) -> (a: Action)
    ensures
        key.press && key.key == Key::Char('q') ==> a == Action::Quit,
        key.press && key.key == Key::Esc ==> a == Action::Pop,
        !(key.press && (key.key == Key::Char('q') || key.key == Key::Esc)) ==> a == Action::Continue,
{
    if !key.press {
        return Action::Continue;
    }
    match key.key {
        Key::Char(c) => if c == 'q' {
            Action::Quit
        } else {
            Action::Continue
        },
        Key::Esc => Action::Pop,
        _ => Action::Continue,
    }
}


/// Distinct names cost at most all the tokens of a union that names each
/// skill once.
pub proof fn lemma_distinct_names_bound(names: Seq<Seq<char>>, skills: Seq<ListedSkill>)
    requires
        names.no_duplicates(),
        listed_names_view(skills).no_duplicates(),
    ensures
        names_tokens(names, skills) <= crate::tui::preview::listing_sum(skills),
{
    lemma_names_tokens_chosen(names, skills);
    lemma_chosen_bound(skills, names);
}


/// The tokens of a skill in the union (see `union_tokens`).
pub fn lookup_union_pub(skills: &Vec<ListedSkill>, name: &String) -> (r: Option<u64>)
    ensures
        r == union_tokens(skills@, name@),
{
    lookup_union(skills, name)
}

/// The tokens of a prefix of the names never exceed the tokens of all of them.
pub proof fn lemma_names_tokens_prefix_pub(names: Seq<Seq<char>>, skills: Seq<ListedSkill>, n: int)
    requires
        0 <= n <= names.len(),
    ensures
        names_tokens(names.take(n), skills) <= names_tokens(names, skills),
{
    lemma_names_tokens_prefix(names, skills, n);
}

/// A manifest's row on the list: name, task, workers and tokens, bold under
/// the cursor; a broken one with its error.
pub open spec fn manifest_row(m: DiscoveredManifest, here: bool) -> Seq<(Seq<char>, Tone)> {
    seq![
        (marker(here), Tone::Plain),
        match m.state {
            ManifestState::Valid { task, workers, tokens } => (
                pad(m.name@, 20) + " "@ + pad(task@, 24) + " "@ + decimal(workers@.len()) + " workers  ~"@ + decimal(
                    tokens as nat,
                ) + " tokens"@,
                if here { Tone::Bold } else { Tone::Plain },
            ),
            ManifestState::Broken(error) => (pad(m.name@, 20) + " error: "@ + error@, Tone::Bad),
        },
    ]
}

/// The rows of the first `n` manifests.
pub open spec fn manifest_rows(s: ManifestsState, n: nat) -> Seq<Seq<(Seq<char>, Tone)>> {
    Seq::new(n, |k: int| manifest_row(s.manifests@[k], k == s.cursor))
}

/// The manifests screen: a row per manifest, or where they were looked for
/// and how to start one.
pub open spec fn manifests_screen(s: ManifestsState) -> Seq<Seq<(Seq<char>, Tone)>> {
    manifest_rows(s, s.manifests@.len()) + if s.manifests@.len() == 0 {
        seq![
            seq![("No manifests found"@, Tone::Bold)],
            seq![("looked in ./lunchbox/manifests and ~/.lunchbox/manifests"@, Tone::Dim)],
            Seq::empty(),
            seq![("n"@, Tone::Good), ("  new manifest here"@, Tone::Plain)],
        ]
    } else {
        Seq::empty()
    }
}

fn manifest_row_exec(m: &DiscoveredManifest, here: bool) -> (l: Vec<Seg>)
    ensures
        line_view(l@) == manifest_row(*m, here),
{
    let mut v: Vec<char> = Vec::new();
    push_padded(&mut v, m.name.as_str(), 20);
    match &m.state {
        ManifestState::Valid { task, workers, tokens } => {
            push_str(&mut v, " ");
            push_padded(&mut v, task.as_str(), 24);
            push_str(&mut v, " ");
            push_decimal(&mut v, workers.len() as u128);
            push_str(&mut v, " workers  ~");
            push_decimal(&mut v, *tokens as u128);
            push_str(&mut v, " tokens");
            two(text_of(marker_str(here)), Tone::Plain, text_from(&v), if here { Tone::Bold } else { Tone::Plain })
        },
        ManifestState::Broken(error) => {
            push_str(&mut v, " error: ");
            push_str(&mut v, error.as_str());
            two(text_of(marker_str(here)), Tone::Plain, text_from(&v), Tone::Bad)
        },
    }
}

/// The manifests screen (see `manifests_screen`).
pub fn render(state: &ManifestsState) -> (lines: Vec<Vec<Seg>>)
    ensures
        lines_view(lines@) == manifests_screen(*state),
{
    let mut lines: Vec<Vec<Seg>> = Vec::new();
    let mut i: usize = 0;
    while i < state.manifests.len()
        invariant
            0 <= i <= state.manifests@.len(),
            lines_view(lines@) == manifest_rows(*state, i as nat),
        decreases state.manifests@.len() - i,
    {
        push_line(&mut lines, manifest_row_exec(&state.manifests[i], i == state.cursor));
        assert(manifest_rows(*state, (i + 1) as nat) =~= manifest_rows(*state, i as nat).push(
            manifest_row(state.manifests@[i as int], i == state.cursor),
        ));
        i = i + 1;
    }
    if state.manifests.len() == 0 {
        push_line(&mut lines, one(text_of("No manifests found"), Tone::Bold));
        push_line(&mut lines, one(text_of("looked in ./lunchbox/manifests and ~/.lunchbox/manifests"), Tone::Dim));
        push_line(&mut lines, blank());
        push_line(&mut lines, two(text_of("n"), Tone::Good, text_of("  new manifest here"), Tone::Plain));
    }
    assert(lines_view(lines@) =~= manifests_screen(*state));
    lines
}

/// A pin of the detail view with its skill's tokens, `?` when the union lacks it.
pub open spec fn pin_detail(pin: Seq<char>, skills: Seq<ListedSkill>) -> Seq<char> {
    "  - "@ + pin + "  "@ + match union_tokens(skills, base_name(pin)) {
        Some(t) => decimal(t as nat),
        None => "?"@,
    }
}

/// A worker in the detail view: its name, each pin, then its tools when it
/// has some.
pub open spec fn detail_worker(w: (String, Vec<String>, Option<Vec<String>>), skills: Seq<ListedSkill>) -> Seq<
    Seq<(Seq<char>, Tone)>,
> {
    seq![seq![("worker "@ + w.0@, Tone::Bold)]] + Seq::new(w.1@.len(), |j: int| seq![(pin_detail(w.1@[j]@, skills), Tone::Dim)])
        + match w.2 {
        Some(t) => if t@.len() > 0 {
            seq![seq![("  tools "@ + join_with(views(t@), ", "@), Tone::Dim)]]
        } else {
            Seq::empty()
        },
        None => Seq::empty(),
    }
}

/// The detail lines of the first `n` workers.
pub open spec fn detail_workers(ws: Seq<(String, Vec<String>, Option<Vec<String>>)>, skills: Seq<ListedSkill>, n: nat) -> Seq<
    Seq<(Seq<char>, Tone)>,
>
    decreases n,
{
    if n == 0 {
        Seq::empty()
    } else {
        detail_workers(ws, skills, (n - 1) as nat) + detail_worker(ws[n - 1], skills)
    }
}

/// The detail view of a manifest: its name and path, then its task, tokens
/// and workers, or its error.
pub open spec fn detail_screen(d: ManifestDetailState) -> Seq<Seq<(Seq<char>, Tone)>> {
    seq![
        seq![field_label("manifest"@), (d.manifest.name@, Tone::Plain)],
        seq![field_label("path"@), (d.manifest.path@, Tone::Plain)],
    ] + match d.manifest.state {
        ManifestState::Valid { task, workers, tokens } => seq![
            seq![field_label("task"@), (task@, Tone::Plain)],
            seq![field_label("menu_tokens"@), ("~"@ + decimal(tokens as nat), Tone::Plain)],
            Seq::empty(),
        ] + detail_workers(workers@, d.tokens@, workers@.len()),
        ManifestState::Broken(error) => seq![Seq::empty(), seq![("error: "@ + error@, Tone::Bad)]],
    }
}

fn push_detail_worker(lines: &mut Vec<Vec<Seg>>, w: &(String, Vec<String>, Option<Vec<String>>), skills: &Vec<ListedSkill>)
    ensures
        lines_view(final(lines)@) == lines_view(old(lines)@) + detail_worker(*w, skills@),
{
    let ghost start = lines_view(lines@);
    let mut h: Vec<char> = Vec::new();
    push_str(&mut h, "worker ");
    push_str(&mut h, w.0.as_str());
    push_line(lines, one(text_from(&h), Tone::Bold));
    let ghost pins = Seq::new(w.1@.len(), |j: int| seq![(pin_detail(w.1@[j]@, skills@), Tone::Dim)]);
    let mut j: usize = 0;
    while j < w.1.len()
        invariant
            0 <= j <= w.1@.len(),
            pins == Seq::new(w.1@.len(), |j: int| seq![(pin_detail(w.1@[j]@, skills@), Tone::Dim)]),
            lines_view(lines@) == start + seq![seq![("worker "@ + w.0@, Tone::Bold)]] + pins.take(j as int),
        decreases w.1@.len() - j,
    {
        let pin = &w.1[j];
        let mut v: Vec<char> = Vec::new();
        push_str(&mut v, "  - ");
        push_str(&mut v, pin.as_str());
        push_str(&mut v, "  ");
        let base = entry_base_name(pin);
        match lookup_union(skills, &base) {
            Some(t) => push_decimal(&mut v, t as u128),
            None => push_str(&mut v, "?"),
        }
        push_line(lines, one(text_from(&v), Tone::Dim));
        assert(pins.take(j + 1) =~= pins.take(j as int).push(pins[j as int]));
        j = j + 1;
    }
    assert(pins.take(j as int) =~= pins);
    match &w.2 {
        Some(t) => {
            if t.len() > 0 {
                let mut v: Vec<char> = Vec::new();
                push_str(&mut v, "  tools ");
                push_joined(&mut v, t, ", ");
                push_line(lines, one(text_from(&v), Tone::Dim));
            }
        },
        None => {},
    }
    assert(lines_view(lines@) =~= start + detail_worker(*w, skills@));
}

/// The detail view (see `detail_screen`).
pub fn render_detail(state: &ManifestDetailState) -> (lines: Vec<Vec<Seg>>)
    ensures
        lines_view(lines@) == detail_screen(*state),
{
    let m = &state.manifest;
    let mut lines: Vec<Vec<Seg>> = Vec::new();
    push_line(&mut lines, two(field_label_text("manifest"), Tone::Dim, text_of(m.name.as_str()), Tone::Plain));
    push_line(&mut lines, two(field_label_text("path"), Tone::Dim, text_of(m.path.as_str()), Tone::Plain));
    let ghost head = lines_view(lines@);
    match &m.state {
        ManifestState::Valid { task, workers, tokens } => {
            push_line(&mut lines, two(field_label_text("task"), Tone::Dim, text_of(task.as_str()), Tone::Plain));
            let mut t: Vec<char> = Vec::new();
            push_str(&mut t, "~");
            push_decimal(&mut t, *tokens as u128);
            push_line(&mut lines, two(field_label_text("menu_tokens"), Tone::Dim, text_from(&t), Tone::Plain));
            push_line(&mut lines, blank());
            let ghost mid = lines_view(lines@);
            let mut i: usize = 0;
            while i < workers.len()
                invariant
                    0 <= i <= workers@.len(),
                    lines_view(lines@) == mid + detail_workers(workers@, state.tokens@, i as nat),
                decreases workers@.len() - i,
            {
                push_detail_worker(&mut lines, &workers[i], &state.tokens);
                i = i + 1;
            }
        },
        ManifestState::Broken(error) => {
            push_line(&mut lines, blank());
            let mut v: Vec<char> = Vec::new();
            push_str(&mut v, "error: ");
            push_str(&mut v, error.as_str());
            push_line(&mut lines, one(text_from(&v), Tone::Bad));
        },
    }
    assert(lines_view(lines@) =~= detail_screen(*state));
    lines
}

} // verus!
