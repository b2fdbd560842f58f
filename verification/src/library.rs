//! Skill packages: a directory holding a `SKILL.md` whose frontmatter names
//! and describes the skill.
use crate::lines::{first_line, after_first_line, lines_spec, next_line, lemma_line_len_bound};
use crate::paths::{join, join_spec};
use crate::text::{
    chars_eq, chars_of, lemma_first_repeat_is_least, lemma_sorted_distinct_neighbours, push_str,
    rearranges, slice_chars, sort_by_keys, sorted_by, starts_with, starts_with_spec,
    string_from_chars, trim_chars, trim_spec, chars_le, chars_lt, lemma_chars_lt_irreflexive,
};
use vstd::prelude::*;
use vstd::string::StrSliceExecFns;

verus! {

/// The name and description that a `SKILL.md` declares.
#[derive(Debug, Clone, PartialEq)]
pub struct SkillMeta {
    pub name: String,
    pub description: String,
}

/// A valid skill package found under a library root.
#[derive(Debug, Clone, PartialEq)]
pub struct FoundSkill {
    pub name: String,
    pub description: String,
    pub source: String,
}

/// `v` without one pair of matching surrounding double or single quotes.
pub open spec fn unquote_spec(v: Seq<char>) -> Seq<char> {
    if v.len() >= 2 && ((v[0] == '"' && v.last() == '"') || (v[0] == '\'' && v.last() == '\'')) {
        v.subrange(1, v.len() - 1)
    } else {
        v
    }
}

/// What a frontmatter line says about `key` (such as `name:`): nothing when
/// the line does not start with the key at column zero; `Some(None)` when it
/// does but no space or tab follows; else the trimmed, unquoted value.
pub open spec fn scalar_spec(line: Seq<char>, key: Seq<char>) -> Option<Option<Seq<char>>> {
    if starts_with_spec(line, key) {
        let rest = line.skip(key.len() as int);
        if rest.len() > 0 && (rest[0] == ' ' || rest[0] == '\t') {
            Some(Some(unquote_spec(trim_spec(rest))))
        } else {
            Some(None)
        }
    } else {
        None
    }
}

/// The frontmatter fields after applying `ls` up to the closing `---`
/// line, starting from the values `name` and `description`; a later key
/// overrides an earlier one.
pub open spec fn fields_spec(
    ls: Seq<Seq<char>>,
    name: Option<Seq<char>>,
    description: Option<Seq<char>>,
) -> (Option<Seq<char>>, Option<Seq<char>>)
    decreases ls.len(),
{
    if ls.len() == 0 || ls[0] == "---"@ {
        (name, description)
    } else {
        match scalar_spec(ls[0], "name:"@) {
            Some(value) => fields_spec(ls.drop_first(), value, description),
            None => match scalar_spec(ls[0], "description:"@) {
                Some(value) => fields_spec(ls.drop_first(), name, value),
                None => fields_spec(ls.drop_first(), name, description),
            },
        }
    }
}

/// No line of `ls` closes the frontmatter.
pub open spec fn no_fence(ls: Seq<Seq<char>>) -> bool {
    forall|i: int| 0 <= i < ls.len() ==> #[trigger] ls[i] != "---"@
}

/// A line that sets neither key leaves the frontmatter fields as they are:
/// inserting such a line (say `license: MIT`) anywhere before the closing
/// `---` changes neither the name nor the description read.
pub proof fn other_keys_do_not_change_fields(
    a: Seq<Seq<char>>,
    x: Seq<char>,
    b: Seq<Seq<char>>,
    name: Option<Seq<char>>,
    description: Option<Seq<char>>,
)
    requires
        no_fence(a),
        x != "---"@,
        scalar_spec(x, "name:"@) is None,
        scalar_spec(x, "description:"@) is None,
    ensures
        fields_spec(a + seq![x] + b, name, description) == fields_spec(a + b, name, description),
    decreases a.len(),
{
    if a.len() == 0 {
        assert(a + seq![x] + b =~= seq![x] + b);
        assert(a + b =~= b);
        assert((seq![x] + b).drop_first() =~= b);
    } else {
        assert(a[0] != "---"@);
        assert((a + seq![x] + b)[0] == a[0]);
        assert((a + b)[0] == a[0]);
        assert((a + seq![x] + b).drop_first() =~= a.drop_first() + seq![x] + b);
        assert((a + b).drop_first() =~= a.drop_first() + b);
        assert(no_fence(a.drop_first())) by {
            assert forall|i: int| 0 <= i < a.drop_first().len() implies #[trigger] a.drop_first()[i] != "---"@ by {
                assert(a.drop_first()[i] == a[i + 1]);
            }
        }
        match scalar_spec(a[0], "name:"@) {
            Some(v) => other_keys_do_not_change_fields(a.drop_first(), x, b, v, description),
            None => match scalar_spec(a[0], "description:"@) {
                Some(v) => other_keys_do_not_change_fields(a.drop_first(), x, b, name, v),
                None => other_keys_do_not_change_fields(a.drop_first(), x, b, name, description),
            },
        }
    }
}

proof fn lemma_description_kept(b: Seq<Seq<char>>, name: Option<Seq<char>>, description: Option<Seq<char>>)
    requires
        forall|i: int| 0 <= i < b.len() ==> scalar_spec(#[trigger] b[i], "description:"@) is None,
    ensures
        fields_spec(b, name, description).1 == description,
    decreases b.len(),
{
    if b.len() > 0 && b[0] != "---"@ {
        assert forall|i: int| 0 <= i < b.drop_first().len() implies scalar_spec(
            #[trigger] b.drop_first()[i],
            "description:"@,
        ) is None by {
            assert(b.drop_first()[i] == b[i + 1]);
        }
        assert(scalar_spec(b[0], "description:"@) is None);
        match scalar_spec(b[0], "name:"@) {
            Some(v) => lemma_description_kept(b.drop_first(), v, description),
            None => lemma_description_kept(b.drop_first(), name, description),
        }
    }
}

/// A `description:` line at column zero before the closing `---`, with no
/// later `description:` line, gives the description, whatever lines come
/// before it.
pub proof fn description_line_gives_description(
    a: Seq<Seq<char>>,
    y: Seq<char>,
    b: Seq<Seq<char>>,
    name: Option<Seq<char>>,
    description: Option<Seq<char>>,
    value: Option<Seq<char>>,
)
    requires
        no_fence(a),
        scalar_spec(y, "description:"@) == Some(value),
        forall|i: int| 0 <= i < b.len() ==> scalar_spec(#[trigger] b[i], "description:"@) is None,
    ensures
        fields_spec(a + seq![y] + b, name, description).1 == value,
    decreases a.len(),
{
    if a.len() == 0 {
        reveal_strlit("description:");
        reveal_strlit("name:");
        reveal_strlit("---");
        assert(starts_with_spec(y, "description:"@));
        assert(y[0] == y.take(12)[0]);
        assert(y != "---"@) by {
            if y == "---"@ {
                assert(y[0] == '-');
            }
        }
        assert(!starts_with_spec(y, "name:"@)) by {
            if starts_with_spec(y, "name:"@) {
                assert(y[0] == y.take(5)[0]);
            }
        }
        assert(a + seq![y] + b =~= seq![y] + b);
        assert((seq![y] + b).drop_first() =~= b);
        lemma_description_kept(b, name, value);
    } else {
        assert(a[0] != "---"@);
        assert((a + seq![y] + b)[0] == a[0]);
        assert((a + seq![y] + b).drop_first() =~= a.drop_first() + seq![y] + b);
        assert(no_fence(a.drop_first())) by {
            assert forall|i: int| 0 <= i < a.drop_first().len() implies #[trigger] a.drop_first()[i] != "---"@ by {
                assert(a.drop_first()[i] == a[i + 1]);
            }
        }
        match scalar_spec(a[0], "name:"@) {
            Some(v) => description_line_gives_description(a.drop_first(), y, b, v, description, value),
            None => match scalar_spec(a[0], "description:"@) {
                Some(v) => description_line_gives_description(a.drop_first(), y, b, name, v, value),
                None => description_line_gives_description(a.drop_first(), y, b, name, description, value),
            },
        }
    }
}

/// The name and description that `text` declares: the `name:` and
/// `description:` keys at column zero of a frontmatter block opened by a first
/// line `---` and closed by the next `---` line. A missing or empty name falls
/// back to the package directory's name, a missing description is empty.
pub open spec fn frontmatter_spec(text: Seq<char>, dir_name: Seq<char>) -> (Seq<char>, Seq<char>) {
    let ls = lines_spec(text);
    let fields = if ls.len() > 0 && ls[0] == "---"@ {
        fields_spec(ls.drop_first(), None, None)
    } else {
        (None, None)
    };
    (
        match fields.0 {
            Some(name) => if name.len() > 0 {
                name
            } else {
                dir_name
            },
            None => dir_name,
        },
        match fields.1 {
            Some(description) => description,
            None => Seq::empty(),
        },
    )
}

/// The characters of an optional value.
pub open spec fn opt_chars(o: Option<Vec<char>>) -> Option<Seq<char>> {
    match o {
        Some(v) => Some(v@),
        None => None,
    }
}

fn unquote(v: &Vec<char>) -> (r: Vec<char>)
    ensures
        r@ == unquote_spec(v@),
{
    let n = v.len();
    if n >= 2 && ((v[0] == '"' && v[n - 1] == '"') || (v[0] == '\'' && v[n - 1] == '\'')) {
        slice_chars(v, 1, n - 1)
    } else {
        slice_chars(v, 0, n)
    }
}

fn scalar_at_column_zero(line: &Vec<char>, key: &str) -> (r: Option<Option<Vec<char>>>)
    ensures
        match r {
            None => scalar_spec(line@, key@) is None,
            Some(value) => scalar_spec(line@, key@) == Some(opt_chars(value)),
        },
{
    if !starts_with(line, key) {
        return None;
    }
    let k = key.unicode_len();
    let rest = slice_chars(line, k, line.len());
    assert(rest@ =~= line@.skip(key@.len() as int));
    if rest.len() > 0 && (rest[0] == ' ' || rest[0] == '\t') {
        let trimmed = trim_chars(&rest);
        Some(Some(unquote(&trimmed)))
    } else {
        Some(None)
    }
}

/// Reads the `name` and `description` of a `SKILL.md` (see `frontmatter_spec`).
pub fn parse_frontmatter(text: &str, dir_name: &str) -> (meta: SkillMeta)
    ensures
        (meta.name@, meta.description@) == frontmatter_spec(text@, dir_name@),
{
    let v = chars_of(text);
    let fence = chars_of("---");
    let mut name: Option<Vec<char>> = None;
    let mut description: Option<Vec<char>> = None;
    if v.len() > 0 {
        let (first, start) = next_line(&v, 0);
        proof {
            assert(v@.skip(0) =~= v@);
            lemma_line_len_bound(v@);
            assert(lines_spec(v@) == seq![first_line(v@)] + lines_spec(after_first_line(v@)));
            assert((seq![first_line(v@)] + lines_spec(after_first_line(v@))).drop_first()
                =~= lines_spec(after_first_line(v@)));
        }
        if chars_eq(&first, &fence) {
            let ghost target = fields_spec(lines_spec(v@.skip(start as int)), None, None);
            let mut pos = start;
            let mut done = false;
            while !done && pos < v.len()
                invariant
                    pos <= v@.len(),
                    fence@ == "---"@,
                    !done ==> fields_spec(lines_spec(v@.skip(pos as int)), opt_chars(name), opt_chars(description)) == target,
                    done ==> (opt_chars(name), opt_chars(description)) == target,
                decreases v@.len() - pos + (if done { 0int } else { 1int }),
            {
                let ghost s = v@.skip(pos as int);
                let (line, next) = next_line(&v, pos);
                proof {
                    lemma_line_len_bound(s);
                    assert(lines_spec(s) == seq![first_line(s)] + lines_spec(after_first_line(s)));
                    assert((seq![first_line(s)] + lines_spec(after_first_line(s))).drop_first()
                        =~= lines_spec(after_first_line(s)));
                }
                if chars_eq(&line, &fence) {
                    done = true;
                } else {
                    match scalar_at_column_zero(&line, "name:") {
                        Some(value) => {
                            name = value;
                        },
                        None => match scalar_at_column_zero(&line, "description:") {
                            Some(value) => {
                                description = value;
                            },
                            None => {},
                        },
                    }
                    pos = next;
                }
            }
            proof {
                if !done {
                    assert(v@.skip(pos as int) =~= Seq::<char>::empty());
                }
            }
        }
    }
    let name_chars = match name {
        Some(n) => if n.len() > 0 {
            n
        } else {
            chars_of(dir_name)
        },
        None => chars_of(dir_name),
    };
    let description_chars = match description {
        Some(d) => d,
        None => Vec::new(),
    };
    SkillMeta { name: string_from_chars(&name_chars), description: string_from_chars(&description_chars) }
}


/// The name of a found skill, the key by which listings are ordered.
pub open spec fn name_key() -> spec_fn(FoundSkill) -> Seq<char> {
    |f: FoundSkill| f.name@
}

/// Whether a package carries the name `name`.
pub open spec fn named(name: Seq<char>) -> spec_fn(FoundSkill) -> bool {
    |f: FoundSkill| f.name@ == name
}

/// Two different packages of `s` carry the name `d`.
pub open spec fn shares_name(s: Seq<FoundSkill>, d: Seq<char>) -> bool {
    exists|a: int, b: int| 0 <= a < s.len() && 0 <= b < s.len() && a != b && #[trigger] s[a].name@ == d && #[trigger] s[b].name@ == d
}

/// The refusal of a library root that holds two packages named `name`.
pub open spec fn duplicate_name_message(name: Seq<char>, root: Seq<char>) -> Seq<char> {
    "two packages with the name '"@ + name + "' in library root "@ + root + "; pin by hash to disambiguate"@
}

/// The refusal of a package directory named after a skill that lacks `SKILL.md`.
pub open spec fn missing_skill_md_message(name: Seq<char>, dir: Seq<char>) -> Seq<char> {
    "skill '"@ + name + "' at "@ + dir + " is missing SKILL.md"@
}

/// `out` holds the packages of `listing`, ordered by name.
pub open spec fn sorted_listing(out: Seq<FoundSkill>, listing: Seq<FoundSkill>) -> bool {
    &&& exists|perm: Seq<int>, inv: Seq<int>| rearranges(out, listing, perm, inv)
    &&& sorted_by(out, name_key())
}

/// Orders the valid packages of a library root by name.
pub fn sort_by_name(listing: Vec<FoundSkill>) -> (res: (Vec<FoundSkill>, Ghost<(Seq<int>, Seq<int>)>))
    ensures
        rearranges(res.0@, listing@, res.1@.0, res.1@.1),
        sorted_by(res.0@, name_key()),
{
    let mut keys: Vec<Vec<char>> = Vec::new();
    let mut i: usize = 0;
    while i < listing.len()
        invariant
            0 <= i <= listing@.len(),
            keys@.len() == i,
            forall|j: int| 0 <= j < i ==> #[trigger] keys@[j]@ == listing@[j].name@,
        decreases listing@.len() - i,
    {
        keys.push(chars_of(listing[i].name.as_str()));
        i = i + 1;
    }
    sort_by_keys(listing, keys, Ghost(name_key()))
}

/// The packages of a library root, ordered by name, given the valid packages
/// found in it (`listing`, in any order) and whether the root is a directory.
/// A root that is not a directory holds none; two packages with one name are
/// refused, naming the least such name.
pub fn scan_root(root: &str, root_is_dir: bool, listing: Vec<FoundSkill>) -> (res: Result<Vec<FoundSkill>, String>)
    ensures
        !root_is_dir ==> res is Ok && res->Ok_0@.len() == 0,
        root_is_dir ==> (res is Ok <==> forall|d: Seq<char>| !shares_name(listing@, d)),
        root_is_dir && res is Ok ==> sorted_listing(res->Ok_0@, listing@),
        root_is_dir && res is Err ==> exists|d: Seq<char>|
            #![trigger shares_name(listing@, d)]
            shares_name(listing@, d) && (forall|e: Seq<char>| shares_name(listing@, e) ==> chars_le(d, e))
                && res->Err_0@ == duplicate_name_message(d, root@),
{
    if !root_is_dir {
        return Ok(Vec::new());
    }
    let ghost original = listing@;
    let (sorted, order) = sort_by_name(listing);
    let ghost perm = order@.0;
    let ghost inv = order@.1;
    let ghost key = name_key();
    let mut i: usize = 1;
    while i < sorted.len()
        invariant
            1 <= i,
            key == name_key(),
            root_is_dir,
            original == listing@,
            sorted_by(sorted@, key),
            rearranges(sorted@, original, perm, inv),
            i <= sorted@.len() || sorted@.len() == 0,
            forall|k: int| 0 < k < i && k < sorted@.len() ==> key(#[trigger] sorted@[k - 1]) != key(sorted@[k]),
        decreases sorted@.len() - i,
    {
        if sorted[i - 1].name.eq(&sorted[i].name) {
            let d = &sorted[i].name;
            proof {
                lemma_first_repeat_is_least(sorted@, key, i as int);
                let a = perm[i - 1];
                let b = perm[i as int];
                assert(original[a].name@ == d@ && original[b].name@ == d@);
                assert(a != b) by {
                    assert(inv[a] == i - 1 && inv[b] == i);
                }
                assert(shares_name(original, d@));
                assert forall|e: Seq<char>| shares_name(original, e) implies chars_le(d@, e) by {
                    let (x, y) = choose|x: int, y: int| 0 <= x < original.len() && 0 <= y < original.len() && x != y && #[trigger] original[x].name@ == e && #[trigger] original[y].name@ == e;
                    let sx = inv[x];
                    let sy = inv[y];
                    assert(sorted@[sx] == original[x] && sorted@[sy] == original[y]);
                    assert(sx != sy);
                    assert(key(sorted@[sx]) == key(sorted@[sy]));
                }
            }
            let mut m: Vec<char> = Vec::new();
            push_str(&mut m, "two packages with the name '");
            push_str(&mut m, d.as_str());
            push_str(&mut m, "' in library root ");
            push_str(&mut m, root);
            push_str(&mut m, "; pin by hash to disambiguate");
            return Err(string_from_chars(&m));
        }
        i = i + 1;
    }
    proof {
        lemma_sorted_distinct_neighbours(sorted@, key);
        assert forall|d: Seq<char>| !shares_name(original, d) by {
            if shares_name(original, d) {
                let (x, y) = choose|x: int, y: int| 0 <= x < original.len() && 0 <= y < original.len() && x != y && #[trigger] original[x].name@ == d && #[trigger] original[y].name@ == d;
                let sx = inv[x];
                let sy = inv[y];
                assert(sorted@[sx] == original[x] && sorted@[sy] == original[y]);
                if sx < sy {
                    assert(chars_lt(key(sorted@[sx]), key(sorted@[sy])));
                } else {
                    assert(chars_lt(key(sorted@[sy]), key(sorted@[sx])));
                }
                lemma_chars_lt_irreflexive(d);
            }
        }
    }
    Ok(sorted)
}

/// The packages named `name` in a library root, in listing order, given the
/// root's valid packages (`listing`), whether the root is a directory, and
/// whether `root/name` is a directory without `SKILL.md`. When no package
/// carries the name and such a directory exists, the skill is refused as
/// missing its `SKILL.md`.
pub fn find_in_root(
    root: &str,
    root_is_dir: bool,
    listing: Vec<FoundSkill>,
    name: &str,
    name_dir_lacks_skill_md: bool,
) -> (res: Result<Vec<FoundSkill>, String>)
    ensures
        !root_is_dir ==> res is Ok && res->Ok_0@.len() == 0,
        root_is_dir ==> {
            let matches = listing@.filter(named(name@));
            if matches.len() == 0 && name_dir_lacks_skill_md {
                res is Err && res->Err_0@ == missing_skill_md_message(name@, join_spec(root@, name@))
            } else {
                res is Ok && res->Ok_0@ == matches
            }
        },
{
    if !root_is_dir {
        return Ok(Vec::new());
    }
    let ghost pred = named(name@);
    let wanted = chars_of(name);
    let mut matches: Vec<FoundSkill> = Vec::new();
    let mut rest = listing;
    let ghost original = rest@;
    let mut i: usize = 0;
    while rest.len() > 0
        invariant
            i + rest@.len() == original.len(),
            i <= usize::MAX - rest.len(),
            rest@ == original.skip(i as int),
            wanted@ == name@,
            pred == named(name@),
            matches@ == original.take(i as int).filter(pred),
        decreases rest@.len(),
    {
        let f = rest.remove(0);
        proof {
            assert(f == original[i as int]);
            assert(original.take(i + 1).drop_last() =~= original.take(i as int));
            assert(original.take(i + 1).last() == f);
            assert(rest@ =~= original.skip(i + 1));
            reveal_with_fuel(Seq::<_>::filter, 1);
        }
        let key = chars_of(f.name.as_str());
        let is_match = chars_eq(&key, &wanted);
        proof {
            let prev = original.take(i as int);
            let next = original.take(i + 1);
            assert(next.drop_last() == prev);
            assert(next.last() == f);
            assert(next.filter(pred) == if pred(f) { prev.filter(pred).push(f) } else { prev.filter(pred) });
            assert(is_match == pred(f));
        }
        if is_match {
            matches.push(f);
        }
        i = i + 1;
    }
    assert(original.take(i as int) =~= original);
    if matches.len() == 0 && name_dir_lacks_skill_md {
        let dir = join(root, name);
        let mut m: Vec<char> = Vec::new();
        push_str(&mut m, "skill '");
        push_str(&mut m, name);
        push_str(&mut m, "' at ");
        push_str(&mut m, dir.as_str());
        push_str(&mut m, " is missing SKILL.md");
        return Err(string_from_chars(&m));
    }
    Ok(matches)
}


/// A skill as a listing screen shows it: its name, where it lives and its
/// estimated listing tokens.
#[derive(Debug, Clone, PartialEq)]
pub struct ListedSkill {
    pub name: String,
    pub source: String,
    pub tokens: u64,
}

impl ListedSkill {
    /// A copy of this entry.
    pub fn copy(&self) -> (r: ListedSkill)
        ensures
            r == *self,
    {
        ListedSkill { name: self.name.clone(), source: self.source.clone(), tokens: self.tokens }
    }
}


/// The packages of a root as a listing shows them, each with its estimated
/// listing tokens, in the given order.
pub fn listed_skills(found: &Vec<FoundSkill>) -> (r: Vec<ListedSkill>)
    ensures
        r@.len() == found@.len(),
        forall|i: int| 0 <= i < found@.len() ==> {
            &&& (#[trigger] r@[i]).name == found@[i].name
            &&& r@[i].source == found@[i].source
            &&& r@[i].tokens == crate::tokens::estimate_spec(found@[i].name@.len(), found@[i].description@.len())
        },
{
    let mut r: Vec<ListedSkill> = Vec::new();
    let mut i: usize = 0;
    while i < found.len()
        invariant
            0 <= i <= found@.len(),
            r@.len() == i,
            forall|k: int| 0 <= k < i ==> {
                &&& (#[trigger] r@[k]).name == found@[k].name
                &&& r@[k].source == found@[k].source
                &&& r@[k].tokens == crate::tokens::estimate_spec(found@[k].name@.len(), found@[k].description@.len())
            },
        decreases found@.len() - i,
    {
        let f = &found[i];
        let tokens = crate::tokens::estimate(f.name.as_str(), f.description.as_str());
        r.push(ListedSkill { name: f.name.clone(), source: f.source.clone(), tokens });
        i = i + 1;
    }
    r
}

} // verus!
