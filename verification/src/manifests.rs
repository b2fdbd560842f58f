//! Named manifests: `--from <name>` finds `<name>.toml` in the project's
//! `lunchbox/manifests` or in `~/.lunchbox/manifests`.
use crate::paths::{join, join_spec};
use crate::text::{
    chars_of, contains_string, join_with, lemma_sort_chars_contains, push_joined, push_str,
    slice_chars, sort_chars_spec, sort_strings, string_from_chars, to_string, views,
};
use vstd::prelude::*;

verus! {

/// The directories searched for named manifests: the project's, then the
/// user's (refused when `HOME` is not set).
pub fn discovery_dirs(home: Option<&str>) -> (r: Result<Vec<String>, String>)
    ensures
        match home {
            Some(h) => r matches Ok(dirs) && views(dirs@) == seq![
                join_spec("lunchbox"@, "manifests"@),
                join_spec(join_spec(h@, ".lunchbox"@), "manifests"@),
            ],
            None => r matches Err(m) && m@ == crate::config::home_unset_message(),
        },
{
    let lunchbox_home = match crate::config::lunchbox_home(home) {
        Ok(h) => h,
        Err(m) => return Err(m),
    };
    let mut dirs: Vec<String> = Vec::new();
    dirs.push(join("lunchbox", "manifests"));
    dirs.push(join(lunchbox_home.as_str(), "manifests"));
    assert(views(dirs@) =~= seq![
        join_spec("lunchbox"@, "manifests"@),
        join_spec(join_spec(home->Some_0@, ".lunchbox"@), "manifests"@),
    ]);
    Ok(dirs)
}

/// The position of the last `.` in `s`, if any.
pub open spec fn last_dot(s: Seq<char>) -> Option<int>
    decreases s.len(),
{
    if s.len() == 0 {
        None
    } else if s.last() == '.' {
        Some(s.len() - 1)
    } else {
        last_dot(s.drop_last())
    }
}

proof fn lemma_last_dot(s: Seq<char>)
    ensures
        last_dot(s) matches Some(k) ==> 0 <= k < s.len() && s[k] == '.',
    decreases s.len(),
{
    if s.len() > 0 && s.last() != '.' {
        lemma_last_dot(s.drop_last());
    }
}

/// The stem of a file name with the extension `toml`, as `Path::file_stem`
/// and `Path::extension` split it: at the last `.`, unless that `.` starts
/// the name (and `..` has no extension).
pub open spec fn toml_stem(name: Seq<char>) -> Option<Seq<char>> {
    if name == ".."@ {
        None
    } else {
        match last_dot(name) {
            Some(k) => if k > 0 && name.skip(k + 1) == "toml"@ {
                Some(name.take(k))
            } else {
                None
            },
            None => None,
        }
    }
}

/// The manifest stems among a directory's entries (name, is-file), in entry order.
pub open spec fn stems_of(entries: Seq<(String, bool)>) -> Seq<Seq<char>>
    decreases entries.len(),
{
    if entries.len() == 0 {
        Seq::empty()
    } else {
        let e = entries.last();
        stems_of(entries.drop_last()) + if e.1 && toml_stem(e.0@) is Some {
            seq![toml_stem(e.0@)->Some_0]
        } else {
            Seq::empty()
        }
    }
}

/// A discovery directory and its entries (name, is-file), or `None` when it
/// could not be listed.
#[derive(Debug, Clone, PartialEq)]
pub struct Listing {
    pub dir: String,
    pub entries: Option<Vec<(String, bool)>>,
}

/// The sorted manifest stems of a listing (none for an unlisted directory).
pub open spec fn listing_stems(l: Listing) -> Seq<Seq<char>> {
    match l.entries {
        Some(e) => sort_chars_spec(stems_of(e@)),
        None => Seq::empty(),
    }
}

/// The result of looking a manifest name up in the listings from position
/// `i` on, given the stems seen in earlier listings: the first listing whose
/// stems hold the name wins; a miss lists every stem seen.
pub open spec fn resolve_in_spec(from: Seq<char>, dirs: Seq<Listing>, i: int, seen: Seq<Seq<char>>) -> Result<
    Seq<char>,
    Seq<char>,
>
    decreases dirs.len() - i,
{
    if i < 0 || i >= dirs.len() {
        Err("manifest '"@ + from + "' not found in any discovery dir (searched: "@ + join_with(
            dirs.map_values(|l: Listing| l.dir@),
            ", "@,
        ) + "); available: "@ + join_with(
            if seen.len() == 0 {
                seq!["none"@]
            } else {
                seen
            },
            ", "@,
        ))
    } else if listing_stems(dirs[i]).contains(from) {
        Ok(join_spec(dirs[i].dir@, from + ".toml"@))
    } else {
        resolve_in_spec(from, dirs, i + 1, seen + listing_stems(dirs[i]))
    }
}

fn last_dot_of(v: &Vec<char>) -> (r: Option<usize>)
    ensures
        match (r, last_dot(v@)) {
            (Some(a), Some(b)) => a == b,
            (None, None) => true,
            _ => false,
        },
{
    let mut k = v.len();
    assert(v@.take(k as int) =~= v@);
    while k > 0
        invariant
            0 <= k <= v@.len(),
            last_dot(v@) == last_dot(v@.take(k as int)),
        decreases k,
    {
        if v[k - 1] == '.' {
            return Some(k - 1);
        }
        assert(v@.take(k as int).drop_last() =~= v@.take(k - 1));
        k = k - 1;
    }
    None
}

/// The manifest stem of a file name, if it is a `.toml` file (see `toml_stem`).
pub fn manifest_stem(name: &str) -> (r: Option<String>)
    ensures
        match (r, toml_stem(name@)) {
            (Some(a), Some(b)) => a@ == b,
            (None, None) => true,
            _ => false,
        },
{
    if crate::text::str_eq(name, "..") {
        return None;
    }
    let v = chars_of(name);
    proof {
        lemma_last_dot(v@);
    }
    match last_dot_of(&v) {
        Some(k) => {
            if k == 0 {
                return None;
            }
            let ext = slice_chars(&v, k + 1, v.len());
            assert(ext@ =~= name@.skip(k + 1));
            let es = string_from_chars(&ext);
            if crate::text::str_eq(es.as_str(), "toml") {
                let stem = slice_chars(&v, 0, k);
                assert(stem@ =~= name@.take(k as int));
                Some(string_from_chars(&stem))
            } else {
                None
            }
        },
        None => None,
    }
}

fn stems_in(entries: &Vec<(String, bool)>) -> (r: Vec<String>)
    ensures
        views(r@) == stems_of(entries@),
{
    let mut r: Vec<String> = Vec::new();
    let mut i: usize = 0;
    while i < entries.len()
        invariant
            0 <= i <= entries@.len(),
            views(r@) == stems_of(entries@.take(i as int)),
        decreases entries@.len() - i,
    {
        let e = &entries[i];
        assert(entries@.take(i + 1).drop_last() =~= entries@.take(i as int));
        let ghost before = views(r@);
        if e.1 {
            match manifest_stem(e.0.as_str()) {
                Some(stem) => {
                    r.push(stem);
                    assert(views(r@) =~= before + seq![toml_stem(e.0@)->Some_0]);
                },
                None => {
                    assert(views(r@) =~= before + Seq::<Seq<char>>::empty());
                },
            }
        } else {
            assert(views(r@) =~= before + Seq::<Seq<char>>::empty());
        }
        i = i + 1;
    }
    assert(entries@.take(i as int) =~= entries@);
    r
}

/// The names of the listings' directories.
pub open spec fn listing_dirs(dirs: Seq<Listing>) -> Seq<Seq<char>> {
    dirs.map_values(|l: Listing| l.dir@)
}

/// Where `--from` points: `from` itself when that path exists, else
/// `<from>.toml` in the first discovery directory that holds it, else a
/// refusal naming the directories searched and the manifests available.
pub fn resolve_in(from: &str, from_exists: bool, dirs: &Vec<Listing>) -> (r: Result<String, String>)
    ensures
        from_exists ==> (r matches Ok(p) && p@ == from@),
        !from_exists ==> match (r, resolve_in_spec(from@, dirs@, 0, Seq::empty())) {
            (Ok(a), Ok(b)) => a@ == b,
            (Err(a), Err(b)) => a@ == b,
            _ => false,
        },
{
    if from_exists {
        return Ok(to_string(from));
    }
    let from_s = to_string(from);
    let mut available: Vec<String> = Vec::new();
    let mut i: usize = 0;
    while i < dirs.len()
        invariant
            0 <= i <= dirs@.len(),
            from_s@ == from@,
            !from_exists,
            resolve_in_spec(from@, dirs@, 0, Seq::empty()) == resolve_in_spec(from@, dirs@, i as int, views(available@)),
        decreases dirs@.len() - i,
    {
        match &dirs[i].entries {
            None => {
                assert(listing_stems(dirs@[i as int]) =~= Seq::<Seq<char>>::empty());
                assert(views(available@) + Seq::<Seq<char>>::empty() =~= views(available@));
            },
            Some(entries) => {
                let stems = stems_in(entries);
                let sorted = sort_strings(&stems);
                proof {
                    lemma_sort_chars_contains(views(stems@));
                }
                if contains_string(&sorted, &from_s) {
                    let file = crate::text::concat(from, ".toml");
                    return Ok(join(dirs[i].dir.as_str(), file.as_str()));
                }
                let ghost before = views(available@);
                let mut j: usize = 0;
                while j < sorted.len()
                    invariant
                        0 <= j <= sorted@.len(),
                        views(available@) == before + views(sorted@).take(j as int),
                    decreases sorted@.len() - j,
                {
                    let ghost mid = views(available@);
                    available.push(sorted[j].clone());
                    assert(views(available@) =~= mid.push(sorted@[j as int]@));
                    assert(views(available@) =~= before + views(sorted@).take(j + 1));
                    j = j + 1;
                }
                assert(views(sorted@).take(j as int) =~= views(sorted@));
            },
        }
        i = i + 1;
    }
    let mut dir_names: Vec<String> = Vec::new();
    let mut k: usize = 0;
    while k < dirs.len()
        invariant
            0 <= k <= dirs@.len(),
            views(dir_names@) == listing_dirs(dirs@).take(k as int),
        decreases dirs@.len() - k,
    {
        let ghost mid = views(dir_names@);
        dir_names.push(dirs[k].dir.clone());
        assert(views(dir_names@) =~= mid.push(dirs@[k as int].dir@));
        assert(views(dir_names@) =~= listing_dirs(dirs@).take(k + 1));
        k = k + 1;
    }
    assert(listing_dirs(dirs@).take(k as int) =~= listing_dirs(dirs@));
    if available.len() == 0 {
        available.push(to_string("none"));
    }
    let mut m: Vec<char> = Vec::new();
    push_str(&mut m, "manifest '");
    push_str(&mut m, from);
    push_str(&mut m, "' not found in any discovery dir (searched: ");
    push_joined(&mut m, &dir_names, ", ");
    push_str(&mut m, "); available: ");
    push_joined(&mut m, &available, ", ");
    Err(string_from_chars(&m))
}


/// Where `--from` points, searched in the discovery directories (see
/// `resolve_in`): refused first when `HOME` is not set. `listings` are the
/// two discovery directories, in order, with what listing each gave.
pub fn resolve_from(from: &str, from_exists: bool, home: Option<&str>, listings: &Vec<Listing>) -> (r: Result<String, String>)
    requires
        home is Some ==> {
            &&& listings@.len() == 2
            &&& listings@[0].dir@ == join_spec("lunchbox"@, "manifests"@)
            &&& listings@[1].dir@ == join_spec(join_spec(home->Some_0@, ".lunchbox"@), "manifests"@)
        },
    ensures
        home is None ==> (r matches Err(m) && m@ == crate::config::home_unset_message()),
        home is Some && from_exists ==> (r matches Ok(p) && p@ == from@),
        home is Some && !from_exists ==> match (r, resolve_in_spec(from@, listings@, 0, Seq::empty())) {
            (Ok(a), Ok(b)) => a@ == b,
            (Err(a), Err(b)) => a@ == b,
            _ => false,
        },
{
    match discovery_dirs(home) {
        Err(m) => Err(m),
        Ok(_) => resolve_in(from, from_exists, listings),
    }
}

} // verus!
