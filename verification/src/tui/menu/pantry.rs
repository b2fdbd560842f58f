//! The menu's pantry screen: every skill root in sections, and a pack
//! composed across them by name.
use crate::library::ListedSkill;
use crate::pantry::PantryStatus;
use crate::text::{chars_of, concat, contains_string, rearranges, sort_by_keys, sorted_by, to_string, views, clone_strings};
use crate::text::{decimal, push_decimal, push_str};
use crate::tui::menu::Action;
use crate::tui::view::{blank, lines_view, marker, marker_str, one, pad, push_line, push_padded, text_from, text_of, Seg, Tone};
use crate::tui::{moved_cursor, step_cursor, Key, KeyPress};
use vstd::prelude::*;

verus! {

/// One skill root: its label (where it comes from), the root, its skills,
/// or why it could not be read.
#[derive(Debug, Clone, PartialEq)]
pub struct RootSection {
    pub label: String,
    pub root: String,
    pub skills: Vec<ListedSkill>,
    pub error: Option<String>,
}

/// A root to show before it is read: its label and root, or an error known
/// beforehand (a broken pantry).
#[derive(Debug, Clone, PartialEq)]
pub struct SectionPlan {
    pub label: String,
    pub root: String,
    pub error: Option<String>,
}

/// The plan of one pantry's section: its root when it was found, else the
/// clone with the reason.
pub open spec fn pantry_plan(p: PantryStatus) -> (Seq<char>, Seq<char>, Option<Seq<char>>) {
    match p.root {
        Some(r) => ("pantry:"@ + p.name@, r@, None),
        None => ("pantry:"@ + p.name@, p.repo@, match p.error {
            Some(e) => Some(e@),
            None => Some(Seq::empty()),
        }),
    }
}

/// A plan as (label, root, error).
pub open spec fn plan_view(p: SectionPlan) -> (Seq<char>, Seq<char>, Option<Seq<char>>) {
    (p.label@, p.root@, match p.error {
        Some(e) => Some(e@),
        None => None,
    })
}

/// The sections of the pantry screen, in order: the `--library` roots, the
/// configured `library_paths`, the managed pantries, and the default roots.
pub open spec fn plan_spec(
    libraries: Seq<Seq<char>>,
    library_paths: Seq<Seq<char>>,
    pantries: Seq<PantryStatus>,
    defaults: Seq<Seq<char>>,
) -> Seq<(Seq<char>, Seq<char>, Option<Seq<char>>)> {
    libraries.map_values(|r: Seq<char>| ("--library"@, r, None::<Seq<char>>)) + library_paths.map_values(
        |r: Seq<char>| ("library_paths"@, r, None::<Seq<char>>),
    ) + pantries.map_values(|p: PantryStatus| pantry_plan(p)) + defaults.map_values(
        |r: Seq<char>| ("default"@, r, None::<Seq<char>>),
    )
}

fn push_plans(out: &mut Vec<SectionPlan>, roots: &Vec<String>, label: &str)
    ensures
        final(out)@.map_values(|p: SectionPlan| plan_view(p)) == old(out)@.map_values(|p: SectionPlan| plan_view(p))
            + views(roots@).map_values(|r: Seq<char>| (label@, r, None::<Seq<char>>)),
{
    let ghost start = out@.map_values(|p: SectionPlan| plan_view(p));
    let mut i: usize = 0;
    while i < roots.len()
        invariant
            0 <= i <= roots@.len(),
            out@.map_values(|p: SectionPlan| plan_view(p)) == start + views(roots@).take(i as int).map_values(
                |r: Seq<char>| (label@, r, None::<Seq<char>>),
            ),
        decreases roots@.len() - i,
    {
        let ghost before = out@.map_values(|p: SectionPlan| plan_view(p));
        let plan = SectionPlan { label: to_string(label), root: roots[i].clone(), error: None };
        let ghost pv = plan_view(plan);
        out.push(plan);
        assert(out@.map_values(|p: SectionPlan| plan_view(p)) =~= before.push(pv));
        assert(views(roots@).take(i + 1) =~= views(roots@).take(i as int).push(roots@[i as int]@));
        assert(out@.map_values(|p: SectionPlan| plan_view(p)) =~= start + views(roots@).take(i + 1).map_values(
            |r: Seq<char>| (label@, r, None::<Seq<char>>),
        ));
        i = i + 1;
    }
    assert(views(roots@).take(i as int) =~= views(roots@));
}

/// The sections to show (see `plan_spec`).
pub fn plan_sections(
    libraries: &Vec<String>,
    library_paths: &Vec<String>,
    pantries: &Vec<PantryStatus>,
    defaults: &Vec<String>,
) -> (plans: Vec<SectionPlan>)
    ensures
        plans@.map_values(|p: SectionPlan| plan_view(p)) == plan_spec(views(libraries@), views(library_paths@), pantries@, views(defaults@)),
{
    let mut plans: Vec<SectionPlan> = Vec::new();
    push_plans(&mut plans, libraries, "--library");
    push_plans(&mut plans, library_paths, "library_paths");
    let ghost mid = plans@.map_values(|p: SectionPlan| plan_view(p));
    let mut i: usize = 0;
    while i < pantries.len()
        invariant
            0 <= i <= pantries@.len(),
            plans@.map_values(|p: SectionPlan| plan_view(p)) == mid + pantries@.take(i as int).map_values(
                |p: PantryStatus| pantry_plan(p),
            ),
        decreases pantries@.len() - i,
    {
        let p = &pantries[i];
        let label = concat("pantry:", p.name.as_str());
        let plan = match &p.root {
            Some(r) => SectionPlan { label, root: r.clone(), error: None },
            None => SectionPlan {
                label,
                root: p.repo.clone(),
                error: match &p.error {
                    Some(e) => Some(e.clone()),
                    None => Some(String::new()),
                },
            },
        };
        assert(plan_view(plan) == pantry_plan(pantries@[i as int]));
        let ghost before = plans@.map_values(|p: SectionPlan| plan_view(p));
        let ghost pv = plan_view(plan);
        plans.push(plan);
        assert(plans@.map_values(|p: SectionPlan| plan_view(p)) =~= before.push(pv));
        assert(pantries@.take(i + 1) =~= pantries@.take(i as int).push(pantries@[i as int]));
        assert(plans@.map_values(|p: SectionPlan| plan_view(p)) =~= mid + pantries@.take(i + 1).map_values(
            |p: PantryStatus| pantry_plan(p),
        ));
        i = i + 1;
    }
    assert(pantries@.take(i as int) =~= pantries@);
    push_plans(&mut plans, defaults, "default");
    plans
}

/// The section of a plan once its root has been read (`None` when the plan
/// already carries an error): the skills found, or why reading failed.
pub fn section_from(plan: SectionPlan, scan: Option<Result<Vec<ListedSkill>, String>>) -> (s: RootSection)
    ensures
        s.label == plan.label,
        s.root == plan.root,
        match plan.error {
            Some(e) => s.error == Some(e) && s.skills@.len() == 0,
            None => match scan {
                Some(Ok(skills)) => s.error is None && s.skills == skills,
                Some(Err(e)) => s.error == Some(e) && s.skills@.len() == 0,
                None => s.error is None && s.skills@.len() == 0,
            },
        },
{
    match plan.error {
        Some(e) => RootSection { label: plan.label, root: plan.root, skills: Vec::new(), error: Some(e) },
        None => match scan {
            Some(Ok(skills)) => RootSection { label: plan.label, root: plan.root, skills, error: None },
            Some(Err(e)) => RootSection { label: plan.label, root: plan.root, skills: Vec::new(), error: Some(e) },
            None => RootSection { label: plan.label, root: plan.root, skills: Vec::new(), error: None },
        },
    }
}

/// The sections of the screen from their plans and what reading each root
/// gave (`scans[i]` for `plans[i]`; `None` where the plan carries an error).
pub fn build_sections(plans: Vec<SectionPlan>, scans: Vec<Option<Result<Vec<ListedSkill>, String>>>) -> (sections: Vec<RootSection>)
    requires
        plans@.len() == scans@.len(),
    ensures
        sections@.len() == plans@.len(),
        forall|i: int| 0 <= i < sections@.len() ==> {
            &&& (#[trigger] sections@[i]).label == plans@[i].label
            &&& sections@[i].root == plans@[i].root
            &&& match plans@[i].error {
                Some(e) => sections@[i].error == Some(e) && sections@[i].skills@.len() == 0,
                None => match scans@[i] {
                    Some(Ok(skills)) => sections@[i].error is None && sections@[i].skills == skills,
                    Some(Err(e)) => sections@[i].error == Some(e) && sections@[i].skills@.len() == 0,
                    None => sections@[i].error is None && sections@[i].skills@.len() == 0,
                },
            }
        },
{
    let ghost p0 = plans@;
    let ghost s0 = scans@;
    let mut plans = plans;
    let mut scans = scans;
    let mut rev: Vec<RootSection> = Vec::new();
    while plans.len() > 0
        invariant
            plans@.len() == scans@.len(),
            plans@ == p0.take(plans@.len() as int),
            scans@ == s0.take(scans@.len() as int),
            p0.len() == s0.len(),
            plans@.len() + rev@.len() == p0.len(),
            forall|k: int| 0 <= k < rev@.len() ==> {
                let i = p0.len() - 1 - k;
                &&& (#[trigger] rev@[k]).label == p0[i].label
                &&& rev@[k].root == p0[i].root
                &&& match p0[i].error {
                    Some(e) => rev@[k].error == Some(e) && rev@[k].skills@.len() == 0,
                    None => match s0[i] {
                        Some(Ok(skills)) => rev@[k].error is None && rev@[k].skills == skills,
                        Some(Err(e)) => rev@[k].error == Some(e) && rev@[k].skills@.len() == 0,
                        None => rev@[k].error is None && rev@[k].skills@.len() == 0,
                    },
                }
            },
        decreases plans@.len(),
    {
        let ghost n = plans@.len();
        let plan = plans.pop().unwrap();
        let scan = scans.pop().unwrap();
        assert(plan == p0[n - 1] && scan == s0[n - 1]);
        assert(plans@ =~= p0.take(n - 1));
        assert(scans@ =~= s0.take(n - 1));
        rev.push(section_from(plan, scan));
    }
    let mut sections: Vec<RootSection> = Vec::new();
    while rev.len() > 0
        invariant
            rev@.len() + sections@.len() == p0.len(),
            p0.len() == s0.len(),
            forall|k: int| 0 <= k < rev@.len() ==> {
                let i = p0.len() - 1 - k;
                &&& (#[trigger] rev@[k]).label == p0[i].label
                &&& rev@[k].root == p0[i].root
                &&& match p0[i].error {
                    Some(e) => rev@[k].error == Some(e) && rev@[k].skills@.len() == 0,
                    None => match s0[i] {
                        Some(Ok(skills)) => rev@[k].error is None && rev@[k].skills == skills,
                        Some(Err(e)) => rev@[k].error == Some(e) && rev@[k].skills@.len() == 0,
                        None => rev@[k].error is None && rev@[k].skills@.len() == 0,
                    },
                }
            },
            forall|i: int| 0 <= i < sections@.len() ==> {
                &&& (#[trigger] sections@[i]).label == p0[i].label
                &&& sections@[i].root == p0[i].root
                &&& match p0[i].error {
                    Some(e) => sections@[i].error == Some(e) && sections@[i].skills@.len() == 0,
                    None => match s0[i] {
                        Some(Ok(skills)) => sections@[i].error is None && sections@[i].skills == skills,
                        Some(Err(e)) => sections@[i].error == Some(e) && sections@[i].skills@.len() == 0,
                        None => sections@[i].error is None && sections@[i].skills@.len() == 0,
                    },
                }
            },
        decreases rev@.len(),
    {
        let ghost n = rev@.len();
        let s = rev.pop().unwrap();
        assert(s == rev@.push(s)[n - 1]);
        sections.push(s);
    }
    sections
}

/// All listed skills of the sections, section by section.
pub open spec fn section_skills(sections: Seq<RootSection>) -> Seq<ListedSkill>
    decreases sections.len(),
{
    if sections.len() == 0 {
        Seq::empty()
    } else {
        section_skills(sections.drop_last()) + sections.last().skills@
    }
}

/// The names of the skills.
pub open spec fn listed_names(s: Seq<ListedSkill>) -> Seq<Seq<char>> {
    s.map_values(|l: ListedSkill| l.name@)
}

/// The first skill of each name, in order.
pub open spec fn first_listed(s: Seq<ListedSkill>) -> Seq<ListedSkill>
    decreases s.len(),
{
    if s.len() == 0 {
        Seq::empty()
    } else {
        first_listed(s.drop_last()) + if listed_names(s.drop_last()).contains(s.last().name@) {
            Seq::empty()
        } else {
            seq![s.last()]
        }
    }
}

/// The key by which listed skills are ordered.
pub open spec fn listed_key() -> spec_fn(ListedSkill) -> Seq<char> {
    |l: ListedSkill| l.name@
}

/// The union of the sections' skills by name: the first skill of each name,
/// ordered by name.
pub fn skill_union(sections: &Vec<RootSection>) -> (union: Vec<ListedSkill>)
    ensures
        exists|perm: Seq<int>, inv: Seq<int>| #[trigger] rearranges(union@, first_listed(section_skills(sections@)), perm, inv),
        sorted_by(union@, listed_key()),
        listed_names(union@).no_duplicates(),
{
    let ghost all = section_skills(sections@);
    let mut firsts: Vec<ListedSkill> = Vec::new();
    let mut names: Vec<String> = Vec::new();
    let mut i: usize = 0;
    while i < sections.len()
        invariant
            0 <= i <= sections@.len(),
            all == section_skills(sections@),
            firsts@ == first_listed(section_skills(sections@.take(i as int))),
            views(names@) == listed_names(section_skills(sections@.take(i as int))),
            listed_names(firsts@).no_duplicates(),
            forall|n: Seq<char>| listed_names(firsts@).contains(n) <==> views(names@).contains(n),
        decreases sections@.len() - i,
    {
        let skills = &sections[i].skills;
        let ghost before = section_skills(sections@.take(i as int));
        assert(sections@.take(i + 1).drop_last() =~= sections@.take(i as int));
        let mut j: usize = 0;
        while j < skills.len()
            invariant
                0 <= j <= skills@.len(),
                firsts@ == first_listed(before + skills@.take(j as int)),
                views(names@) == listed_names(before + skills@.take(j as int)),
                listed_names(firsts@).no_duplicates(),
                forall|n: Seq<char>| listed_names(firsts@).contains(n) <==> views(names@).contains(n),
            decreases skills@.len() - j,
        {
            let s = &skills[j];
            let ghost cur = before + skills@.take(j as int);
            let ghost next = before + skills@.take(j + 1);
            assert(next.drop_last() =~= cur);
            assert(next.last() == skills@[j as int]);
            let seen = contains_string(&names, &s.name);
            let ghost fv = firsts@;
            let ghost fnames = listed_names(fv);
            let ghost nv = views(names@);
            if !seen {
                firsts.push(s.copy());
                assert(firsts@ =~= fv + seq![*s]);
                assert(listed_names(firsts@) =~= fnames.push(s.name@));
                assert(!fnames.contains(s.name@));
                assert forall|a: int, b: int| 0 <= a < b < listed_names(firsts@).len() implies listed_names(firsts@)[a]
                    != listed_names(firsts@)[b] by {
                    if b == fnames.len() {
                        assert(fnames[a] == listed_names(firsts@)[a]);
                        assert(fnames.contains(fnames[a]));
                    }
                }
            } else {
                assert(firsts@ =~= fv + Seq::<ListedSkill>::empty());
            }
            names.push(s.name.clone());
            assert(views(names@) =~= nv.push(s.name@));
            assert(listed_names(next) =~= listed_names(cur).push(s.name@));
            assert forall|n: Seq<char>| listed_names(firsts@).contains(n) <==> views(names@).contains(n) by {
                if views(names@).contains(n) {
                    let k = choose|k: int| 0 <= k < views(names@).len() && views(names@)[k] == n;
                    if k < nv.len() {
                        assert(nv[k] == n);
                        assert(nv.contains(n));
                        assert(fnames.contains(n));
                        let m = choose|m: int| 0 <= m < fnames.len() && fnames[m] == n;
                        assert(listed_names(firsts@)[m] == n);
                    } else if !seen {
                        assert(listed_names(firsts@)[fnames.len() as int] == n);
                    } else {
                        assert(nv.contains(n));
                        assert(fnames.contains(n));
                        let m = choose|m: int| 0 <= m < fnames.len() && fnames[m] == n;
                        assert(listed_names(firsts@)[m] == n);
                    }
                }
                if listed_names(firsts@).contains(n) {
                    let m = choose|m: int| 0 <= m < listed_names(firsts@).len() && listed_names(firsts@)[m] == n;
                    if m < fnames.len() {
                        assert(fnames[m] == n);
                        assert(fnames.contains(n));
                        assert(nv.contains(n));
                        let k = choose|k: int| 0 <= k < nv.len() && nv[k] == n;
                        assert(views(names@)[k] == n);
                    } else {
                        assert(views(names@)[nv.len() as int] == n);
                    }
                }
            }
            j = j + 1;
        }
        assert(skills@.take(j as int) =~= skills@);
        i = i + 1;
    }
    assert(sections@.take(i as int) =~= sections@);
    let mut keys: Vec<Vec<char>> = Vec::new();
    let mut k: usize = 0;
    while k < firsts.len()
        invariant
            0 <= k <= firsts@.len(),
            keys@.len() == k,
            forall|m: int| 0 <= m < k ==> #[trigger] keys@[m]@ == listed_key()(firsts@[m]),
        decreases firsts@.len() - k,
    {
        keys.push(chars_of(firsts[k].name.as_str()));
        k = k + 1;
    }
    let ghost items = firsts@;
    let (sorted, Ghost(pi)) = sort_by_keys(firsts, keys, Ghost(listed_key()));
    proof {
        let (perm, inv) = pi;
        let ln = listed_names(sorted@);
        let li = listed_names(items);
        assert forall|a: int, b: int| 0 <= a < b < ln.len() implies ln[a] != ln[b] by {
            assert(sorted@[a] == items[perm[a]]);
            assert(sorted@[b] == items[perm[b]]);
            assert(perm[a] != perm[b]) by {
                if perm[a] == perm[b] {
                    assert(inv[perm[a]] == a);
                    assert(inv[perm[b]] == b);
                }
            }
            if perm[a] < perm[b] {
                assert(li[perm[a]] != li[perm[b]]);
            } else {
                assert(li[perm[b]] != li[perm[a]]);
            }
        }
    }
    sorted
}

/// The pantry screen: the sections, which is focused, the cursor in it, the
/// names picked so far (in the order picked) and a status line.
#[derive(Debug, Clone, PartialEq)]
pub struct PantryState {
    pub sections: Vec<RootSection>,
    pub section: usize,
    pub cursor: usize,
    pub selected: Vec<String>,
    pub status: String,
}

/// The first section that can be read and has skills, if any.
pub open spec fn first_useful(sections: Seq<RootSection>, from: int) -> Option<int>
    decreases sections.len() - from,
{
    if from < 0 || from >= sections.len() {
        None
    } else if sections[from].error is None && sections[from].skills@.len() > 0 {
        Some(from)
    } else {
        first_useful(sections, from + 1)
    }
}

/// The position of the first `x` in `s` (its length when there is none).
pub open spec fn first_index(s: Seq<Seq<char>>, x: Seq<char>) -> int
    decreases s.len(),
{
    if s.len() == 0 {
        0
    } else if s[0] == x {
        0
    } else {
        1 + first_index(s.drop_first(), x)
    }
}

/// `names` with its first `name` removed when present, else with `name` added at the end.
pub open spec fn toggled(names: Seq<Seq<char>>, name: Seq<char>) -> Seq<Seq<char>> {
    if first_index(names, name) < names.len() {
        names.remove(first_index(names, name))
    } else {
        names.push(name)
    }
}

impl PantryState {
    /// The screen focused on the first section that can be read and has
    /// skills (the first section when none has).
    pub fn build(sections: Vec<RootSection>) -> (s: Self)
        ensures
            s.sections == sections,
            s.section == match first_useful(sections@, 0) {
                Some(i) => i,
                None => 0,
            },
            s.cursor == 0,
            s.selected@.len() == 0,
            s.status@ == "compose a pack, then press s"@,
    {
        let mut i: usize = 0;
        while i < sections.len() && !(sections[i].error.is_none() && sections[i].skills.len() > 0)
            invariant
                0 <= i <= sections@.len(),
                first_useful(sections@, 0) == first_useful(sections@, i as int),
            decreases sections@.len() - i,
        {
            i = i + 1;
        }
        let section = if i < sections.len() { i } else { 0 };
        PantryState {
            sections,
            section,
            cursor: 0,
            selected: Vec::new(),
            status: to_string("compose a pack, then press s"),
        }
    }

    /// The number of skills in the focused section (0 when there is none).
    pub open spec fn focused_len(&self) -> nat {
        if self.section < self.sections@.len() {
            self.sections@[self.section as int].skills@.len()
        } else {
            0
        }
    }

    fn focused_count(&self) -> (n: usize)
        ensures
            n == self.focused_len(),
    {
        if self.section < self.sections.len() {
            self.sections[self.section].skills.len()
        } else {
            0
        }
    }

    /// Moves the focus to the previous or next section (kept in range) and
    /// resets the cursor.
    pub fn cycle_section(&mut self, forward: bool)
        ensures
            section_post(*old(self), *final(self), forward),
    {
        if self.sections.len() == 0 {
            return;
        }
        self.section = step_cursor(self.section, forward, self.sections.len());
        self.cursor = 0;
    }

    /// Moves the cursor within the focused section.
    pub fn move_cursor(&mut self, down: bool)
        ensures
            pantry_move_post(*old(self), *final(self), down),
    {
        if self.section >= self.sections.len() {
            return;
        }
        let n = self.focused_count();
        if n == 0 {
            self.cursor = 0;
            return;
        }
        self.cursor = step_cursor(self.cursor, down, n);
    }

    /// Adds the skill under the cursor to the pack, or removes it when it is
    /// already there.
    pub fn toggle(&mut self)
        ensures
            pantry_toggle_post(*old(self), *final(self)),
    {
        if self.section >= self.sections.len() || self.cursor >= self.focused_count() {
            return;
        }
        let name = self.sections[self.section].skills[self.cursor].name.clone();
        let ghost sel = views(self.selected@);
        let mut i: usize = 0;
        assert(sel.skip(0) =~= sel);
        while i < self.selected.len()
            invariant
                0 <= i <= self.selected@.len(),
                sel == views(self.selected@),
                first_index(sel, name@) == i + first_index(sel.skip(i as int), name@),
                self.sections == old(self).sections,
                self.section == old(self).section,
                self.cursor == old(self).cursor,
                self.status == old(self).status,
                sel == views(old(self).selected@),
                old(self).section < old(self).sections@.len() && old(self).cursor < old(self).focused_len(),
                name@ == old(self).sections@[old(self).section as int].skills@[old(self).cursor as int].name@,
            decreases self.selected@.len() - i,
        {
            assert(sel.skip(i as int)[0] == sel[i as int]);
            if self.selected[i].eq(&name) {
                self.selected.remove(i);
                assert(views(self.selected@) =~= sel.remove(i as int));
                return;
            }
            assert(sel.skip(i as int).drop_first() =~= sel.skip(i + 1));
            i = i + 1;
        }
        assert(sel.skip(i as int).len() == 0);
        self.selected.push(name);
        assert(views(self.selected@) =~= sel.push(name@));
    }
}

/// What `cycle_section` does (its contract).
pub open spec fn section_post(o: PantryState, f: PantryState, forward: bool) -> bool {
    &&& (f.sections == o.sections)
    &&& (f.selected == o.selected)
    &&& (f.status == o.status)
    &&& (o.sections@.len() == 0 ==> f == o)
    &&& (o.sections@.len() > 0 ==> f.cursor == 0 && f.section == moved_cursor( o.section as int, if forward { 1int } else { -1int }, o.sections@.len() as int, ))
}

/// What `move_cursor` does (its contract).
pub open spec fn pantry_move_post(o: PantryState, f: PantryState, down: bool) -> bool {
    &&& (f.sections == o.sections)
    &&& (f.section == o.section)
    &&& (f.selected == o.selected)
    &&& (f.status == o.status)
    &&& (o.section >= o.sections@.len() ==> f.cursor == o.cursor)
    &&& (o.section < o.sections@.len() && o.focused_len() == 0 ==> f.cursor == 0)
    &&& (o.section < o.sections@.len() && o.focused_len() > 0 ==> f.cursor == moved_cursor(o.cursor as int, if down { 1int } else { -1int }, o.focused_len() as int))
}

/// What `toggle` does (its contract).
pub open spec fn pantry_toggle_post(o: PantryState, f: PantryState) -> bool {
    &&& (f.sections == o.sections)
    &&& (f.section == o.section)
    &&& (f.cursor == o.cursor)
    &&& (f.status == o.status)
    &&& (o.section < o.sections@.len() && o.cursor < o.focused_len() ==> views( f.selected@, ) == toggled( views(o.selected@), o.sections@[o.section as int].skills@[o.cursor as int].name@, ))
    &&& (!(o.section < o.sections@.len() && o.cursor < o.focused_len()) ==> f.selected == o.selected)
}

/// What a pressed key does on the pantry screen (see `handle_key`).
pub open spec fn pantry_key_post(o: PantryState, f: PantryState, key: KeyPress, a: Action) -> bool {
    let k = key.key;
    if k == Key::Char('q') {
        a == Action::Quit && f == o
    } else if k == Key::Esc {
        a == Action::Pop && f == o
    } else if k == Key::Left || key.is_plain_char('h') || k == Key::BackTab {
        a == Action::Continue && section_post(o, f, false)
    } else if k == Key::Right || key.is_plain_char('l') || k == Key::Tab {
        a == Action::Continue && section_post(o, f, true)
    } else if key.is_up() {
        a == Action::Continue && pantry_move_post(o, f, false)
    } else if key.is_down() {
        a == Action::Continue && pantry_move_post(o, f, true)
    } else if k == Key::Char(' ') {
        a == Action::Continue && pantry_toggle_post(o, f)
    } else if key.is_plain_char('s') {
        if o.selected@.len() == 0 {
            a == Action::Continue && f.status@ == "select at least one skill first"@ && f.sections == o.sections
                && f.section == o.section && f.cursor == o.cursor && f.selected == o.selected
        } else {
            f == o && (a matches Action::ConfirmFlat(names) && views(names@) == views(o.selected@))
        }
    } else {
        a == Action::Continue && f == o
    }
}

/// What a key does on the pantry screen: `q` quits and Escape goes back;
/// left/`h`/Shift-Tab and right/`l`/Tab change section; up/`k` and down/`j`
/// move; Space toggles the skill under the cursor; `s` confirms the pack
/// (refused while it is empty).
pub fn handle_key(state: &mut PantryState, key: &KeyPress) -> (a: Action)
    ensures
        final(state).sections == old(state).sections,
        !key.press ==> a == Action::Continue && *final(state) == *old(state),
        key.press ==> pantry_key_post(*old(state), *final(state), *key, a),
{
    if !key.press {
        return Action::Continue;
    }
    match key.key {
        Key::Char(c) => if c == 'q' {
            return Action::Quit;
        },
        Key::Esc => {
            return Action::Pop;
        },
        _ => {},
    }
    if key.key == Key::Left || key.plain_char('h') || key.key == Key::BackTab {
        state.cycle_section(false);
        return Action::Continue;
    }
    if key.key == Key::Right || key.plain_char('l') || key.key == Key::Tab {
        state.cycle_section(true);
        return Action::Continue;
    }
    if key.up() {
        state.move_cursor(false);
        return Action::Continue;
    }
    if key.down() {
        state.move_cursor(true);
        return Action::Continue;
    }
    if key.key == Key::Char(' ') {
        state.toggle();
        return Action::Continue;
    }
    if key.plain_char('s') {
        if state.selected.len() == 0 {
            state.status = to_string("select at least one skill first");
            return Action::Continue;
        }
        return Action::ConfirmFlat(clone_strings(&state.selected));
    }
    Action::Continue
}

/// A section's line: its label, then its root and skill count, or its error.
pub open spec fn section_row(sec: RootSection, here: bool) -> Seq<(Seq<char>, Tone)> {
    seq![
        (
            marker(here) + pad(sec.label@, 28) + match sec.error {
                Some(e) => " error: "@ + e@,
                None => " "@ + sec.root@ + "  "@ + decimal(sec.skills@.len()) + " skills"@,
            },
            Tone::Plain,
        ),
    ]
}

/// A skill's line in the open section: cursor, whether it is picked, name and tokens.
pub open spec fn pantry_skill_row(p: PantryState, s: ListedSkill, here: bool) -> Seq<(Seq<char>, Tone)> {
    seq![
        (
            marker(here) + (if views(p.selected@).contains(s.name@) { "[x]"@ } else { "[ ]"@ }) + " "@ + pad(s.name@, 16) + " "@
                + decimal(s.tokens as nat),
            Tone::Plain,
        ),
    ]
}

/// The lines of the first `n` sections.
pub open spec fn section_rows(p: PantryState, n: nat) -> Seq<Seq<(Seq<char>, Tone)>> {
    Seq::new(n, |k: int| section_row(p.sections@[k], k == p.section))
}

/// The lines of the first `n` skills of section `sec`.
pub open spec fn pantry_skill_rows(p: PantryState, sec: RootSection, n: nat) -> Seq<Seq<(Seq<char>, Tone)>> {
    Seq::new(n, |k: int| pantry_skill_row(p, sec.skills@[k], k == p.cursor))
}

/// The pantry screen: every section, then the open section's skills (or its
/// error).
pub open spec fn pantry_screen(p: PantryState) -> Seq<Seq<(Seq<char>, Tone)>> {
    section_rows(p, p.sections@.len()) + seq![Seq::empty()] + if p.section < p.sections@.len() {
        let sec = p.sections@[p.section as int];
        match sec.error {
            Some(e) => seq![seq![("error: "@ + e@, Tone::Plain)]],
            None => pantry_skill_rows(p, sec, sec.skills@.len()) + if sec.skills@.len() == 0 {
                seq![seq![("no skills in this root"@, Tone::Plain)]]
            } else {
                Seq::empty()
            },
        }
    } else {
        seq![seq![("no skill roots found"@, Tone::Plain)]]
    }
}

fn has_name(list: &Vec<String>, name: &String) -> (b: bool)
    ensures
        b == views(list@).contains(name@),
{
    let found = contains_string(list, name);
    assert(list@.map_values(|e: String| e@) =~= views(list@));
    found
}

/// The pantry screen (see `pantry_screen`).
pub fn render(state: &PantryState) -> (lines: Vec<Vec<Seg>>)
    ensures
        lines_view(lines@) == pantry_screen(*state),
{
    let mut lines: Vec<Vec<Seg>> = Vec::new();
    let mut i: usize = 0;
    while i < state.sections.len()
        invariant
            0 <= i <= state.sections@.len(),
            lines_view(lines@) == section_rows(*state, i as nat),
        decreases state.sections@.len() - i,
    {
        let sec = &state.sections[i];
        let mut v: Vec<char> = Vec::new();
        push_str(&mut v, marker_str(i == state.section));
        push_padded(&mut v, sec.label.as_str(), 28);
        match &sec.error {
            Some(e) => {
                push_str(&mut v, " error: ");
                push_str(&mut v, e.as_str());
            },
            None => {
                push_str(&mut v, " ");
                push_str(&mut v, sec.root.as_str());
                push_str(&mut v, "  ");
                push_decimal(&mut v, sec.skills.len() as u128);
                push_str(&mut v, " skills");
            },
        }
        assert(v@ =~= section_row(state.sections@[i as int], i == state.section)[0].0);
        push_line(&mut lines, one(text_from(&v), Tone::Plain));
        assert(section_rows(*state, (i + 1) as nat) =~= section_rows(*state, i as nat).push(
            section_row(state.sections@[i as int], i == state.section),
        ));
        i = i + 1;
    }
    push_line(&mut lines, blank());
    let ghost head = lines_view(lines@);
    if state.section < state.sections.len() {
        let sec = &state.sections[state.section];
        match &sec.error {
            Some(e) => {
                let mut v: Vec<char> = Vec::new();
                push_str(&mut v, "error: ");
                push_str(&mut v, e.as_str());
                push_line(&mut lines, one(text_from(&v), Tone::Plain));
            },
            None => {
                let mut k: usize = 0;
                while k < sec.skills.len()
                    invariant
                        0 <= k <= sec.skills@.len(),
                        state.section < state.sections@.len(),
                        *sec == state.sections@[state.section as int],
                        lines_view(lines@) == head + pantry_skill_rows(*state, *sec, k as nat),
                    decreases sec.skills@.len() - k,
                {
                    let sk = &sec.skills[k];
                    let mut v: Vec<char> = Vec::new();
                    push_str(&mut v, marker_str(k == state.cursor));
                    if has_name(&state.selected, &sk.name) {
                        push_str(&mut v, "[x]");
                    } else {
                        push_str(&mut v, "[ ]");
                    }
                    push_str(&mut v, " ");
                    push_padded(&mut v, sk.name.as_str(), 16);
                    push_str(&mut v, " ");
                    push_decimal(&mut v, sk.tokens as u128);
                    assert(v@ =~= pantry_skill_row(*state, sec.skills@[k as int], k == state.cursor)[0].0);
                    push_line(&mut lines, one(text_from(&v), Tone::Plain));
                    assert(pantry_skill_rows(*state, *sec, (k + 1) as nat) =~= pantry_skill_rows(*state, *sec, k as nat).push(
                        pantry_skill_row(*state, sec.skills@[k as int], k == state.cursor),
                    ));
                    k = k + 1;
                }
                if sec.skills.len() == 0 {
                    push_line(&mut lines, one(text_of("no skills in this root"), Tone::Plain));
                }
            },
        }
    } else {
        push_line(&mut lines, one(text_of("no skill roots found"), Tone::Plain));
    }
    assert(lines_view(lines@) =~= pantry_screen(*state));
    lines
}

} // verus!
