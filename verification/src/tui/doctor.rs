//! The doctor screen: the report on a harness and a scrollable window over
//! the union of its skills.
use crate::adapter::{DirReport, FoundDirSkill};
use crate::pantry::PantryStatus;
use crate::text::{decimal, join_with, push_decimal, push_joined, push_str, string_from_chars, views};
use crate::tui::view::{blank, lines_view, one, pad, push_line, push_padded, text_from, text_of, Seg, Tone};
use crate::tui::{Key, KeyPress};
use vstd::prelude::*;

verus! {

/// How many skills of the union the screen shows at once.
pub const UNION_WINDOW: usize = 10;

/// What the driver does after a key.
#[derive(Debug, Clone, Copy, PartialEq, Eq, Structural)]
pub enum Action {
    Continue,
    Quit,
}

/// What `doctor` found: the adapter and its version, git's version, the
/// skill directories the harness reads, the managed pantries, and the union
/// of skills with its token total.
#[derive(Debug, Clone, PartialEq)]
pub struct DoctorReport {
    pub adapter: String,
    pub adapter_version: Option<String>,
    pub git_version: Option<String>,
    pub dirs: Vec<DirReport>,
    pub pantries: Vec<PantryStatus>,
    pub menu_tokens: u64,
    pub union: Vec<FoundDirSkill>,
}

/// The doctor screen.
#[derive(Debug, Clone, PartialEq)]
pub struct DoctorState {
    pub report: DoctorReport,
    pub scroll: usize,
}

/// The furthest the window can scroll: the union beyond one window.
pub open spec fn max_scroll_spec(union_len: nat) -> nat {
    if union_len > UNION_WINDOW {
        (union_len - UNION_WINDOW) as nat
    } else {
        0
    }
}

impl DoctorState {
    /// The screen at the top of the union.
    pub fn new(report: DoctorReport) -> (s: Self)
        ensures
            s.report == report,
            s.scroll == 0,
    {
        DoctorState { report, scroll: 0 }
    }

    /// The furthest the window can scroll.
    pub fn max_scroll(&self) -> (m: usize)
        ensures
            m == max_scroll_spec(self.report.union@.len()),
    {
        let n = self.report.union.len();
        if n > UNION_WINDOW {
            n - UNION_WINDOW
        } else {
            0
        }
    }
}

/// What `handle_key` does (its contract).
pub open spec fn doctor_key_post(o: DoctorState, f: DoctorState, key: KeyPress, a: Action) -> bool {
    &&& (f.report == o.report)
    &&& (!key.press ==> a == Action::Continue && f.scroll == o.scroll)
    &&& (key.press && key.is_quit() ==> a == Action::Quit && f.scroll == o.scroll)
    &&& (key.press && !key.is_quit() ==> a == Action::Continue)
    &&& (key.press && !key.is_quit() && key.is_up() ==> f.scroll == if o.scroll > 0 { o.scroll - 1 } else { 0 })
    &&& (key.press && !key.is_quit() && !key.is_up() && key.is_down() ==> f.scroll == if o.scroll + 1 < max_scroll_spec(o.report.union@.len()) { o.scroll + 1 } else { max_scroll_spec(o.report.union@.len()) as int })
    &&& (key.press && !key.is_quit() && !key.is_up() && !key.is_down() && key.key == Key::Home ==> f.scroll == 0)
    &&& (key.press && !key.is_quit() && !key.is_up() && !key.is_down() && key.key == Key::End ==> f.scroll == max_scroll_spec(o.report.union@.len()))
    &&& (key.press && !key.is_quit() && !key.is_up() && !key.is_down() && key.key != Key::Home && key.key != Key::End ==> f.scroll == o.scroll)
}

/// What a key does to the doctor screen: `q`/Escape quit; up/`k` scrolls up
/// (not past the top); down/`j` scrolls down (not past the last window);
/// Home and End jump to the top and the bottom.
pub fn handle_key(state: &mut DoctorState, key: &KeyPress) -> (a: Action)
    ensures
        doctor_key_post(*old(state), *final(state), *key, a),
{
    if !key.press {
        return Action::Continue;
    }
    if key.quit() {
        return Action::Quit;
    }
    if key.up() {
        state.scroll = if state.scroll > 0 { state.scroll - 1 } else { 0 };
        return Action::Continue;
    }
    if key.down() {
        let max = state.max_scroll();
        state.scroll = if state.scroll < max && state.scroll + 1 < max { state.scroll + 1 } else { max };
        return Action::Continue;
    }
    match key.key {
        Key::Home => {
            state.scroll = 0;
        },
        Key::End => {
            state.scroll = state.max_scroll();
        },
        _ => {},
    }
    Action::Continue
}

/// Whether `name` is the name of one of the fattest skills at `picks`.
pub open spec fn fat_name(union: Seq<FoundDirSkill>, picks: Seq<int>, name: Seq<char>) -> bool {
    exists|i: int| 0 <= i < picks.len() && (#[trigger] union[picks[i]]).name@ == name
}

/// A skill directory's line: the directory, then its skill count or `absent`.
pub open spec fn dir_line(d: DirReport) -> Seq<char> {
    d.dir@ + "  "@ + if d.exists {
        decimal(d.skills@.len()) + " skills"@
    } else {
        "absent"@
    }
}

/// How many skills of the union the window shows.
pub open spec fn window_len(s: DoctorState) -> nat {
    let n = s.report.union@.len();
    if s.scroll >= n {
        0
    } else if n - s.scroll < UNION_WINDOW {
        (n - s.scroll) as nat
    } else {
        UNION_WINDOW as nat
    }
}

/// The `k`-th line of the window: the skill, marked when it is among the fattest.
pub open spec fn window_line(s: DoctorState, picks: Seq<int>, k: int) -> Seq<(Seq<char>, Tone)> {
    let skill = s.report.union@[s.scroll + k];
    seq![
        (
            (if fat_name(s.report.union@, picks, skill.name@) { "* "@ } else { "  "@ }) + pad(skill.name@, 16) + " "@
                + decimal(skill.tokens as nat),
            Tone::Bold,
        ),
    ]
}

/// The head of the doctor screen: the adapter and git, each skill
/// directory, and the managed pantries.
pub open spec fn doctor_head(r: DoctorReport) -> Seq<Seq<(Seq<char>, Tone)>> {
    seq![
        seq![
            (
                "lunchbox doctor — "@ + r.adapter@ + match r.adapter_version {
                    Some(v) => " ["@ + v@ + "]"@,
                    None => " (not detected)"@,
                },
                Tone::Plain,
            ),
        ],
        seq![
            (
                match r.git_version {
                    Some(v) => "git ["@ + v@ + "]"@,
                    None => "git (not found)"@,
                },
                Tone::Plain,
            ),
        ],
    ] + Seq::new(r.dirs@.len(), |k: int| seq![(dir_line(r.dirs@[k]), Tone::Plain)]) + if r.pantries@.len() > 0 {
        seq![seq![("pantries:"@, Tone::Plain)]] + Seq::new(
            r.pantries@.len(),
            |k: int| seq![(r.pantries@[k].summary_spec(), Tone::Plain)],
        )
    } else {
        Seq::empty()
    }
}

/// The window over the union.
pub open spec fn doctor_window(s: DoctorState, picks: Seq<int>) -> Seq<Seq<(Seq<char>, Tone)>> {
    Seq::new(window_len(s), |k: int| window_line(s, picks, k))
}

/// The doctor screen: the head, the menu tokens, a window over the union
/// (the fattest marked), and the keys.
pub open spec fn doctor_screen(s: DoctorState, picks: Seq<int>) -> Seq<Seq<(Seq<char>, Tone)>> {
    let r = s.report;
    doctor_head(r) + seq![
        Seq::empty(),
        seq![
            (
                "menu_tokens  "@ + decimal(r.menu_tokens as nat) + "  ("@ + decimal(r.union@.len()) + " skills union)"@,
                Tone::Plain,
            ),
        ],
    ] + doctor_window(s, picks) + (if r.union@.len() == 0 {
        seq![seq![("               no skills found in adapter skill dirs"@, Tone::Plain)]]
    } else {
        Seq::empty()
    }) + seq![Seq::empty(), seq![("↑/↓ scroll · Home/End jump · q quit"@, Tone::Plain)]]
}

fn named_in(fat: &Vec<FoundDirSkill>, name: &String) -> (b: bool)
    ensures
        b == exists|i: int| 0 <= i < fat@.len() && (#[trigger] fat@[i]).name@ == name@,
{
    let mut i: usize = 0;
    while i < fat.len()
        invariant
            0 <= i <= fat@.len(),
            forall|j: int| 0 <= j < i ==> (#[trigger] fat@[j]).name@ != name@,
        decreases fat@.len() - i,
    {
        if crate::text::str_eq(fat[i].name.as_str(), name.as_str()) {
            return true;
        }
        i = i + 1;
    }
    false
}

fn head_lines(r: &DoctorReport) -> (lines: Vec<Vec<Seg>>)
    ensures
        lines_view(lines@) == doctor_head(*r),
{
    let mut lines: Vec<Vec<Seg>> = Vec::new();
    let mut a: Vec<char> = Vec::new();
    push_str(&mut a, "lunchbox doctor — ");
    push_str(&mut a, r.adapter.as_str());
    match &r.adapter_version {
        Some(v) => {
            push_str(&mut a, " [");
            push_str(&mut a, v.as_str());
            push_str(&mut a, "]");
        },
        None => push_str(&mut a, " (not detected)"),
    }
    assert(a@ =~= doctor_head(*r)[0][0].0);
    push_line(&mut lines, one(text_from(&a), Tone::Plain));
    let mut g: Vec<char> = Vec::new();
    match &r.git_version {
        Some(v) => {
            push_str(&mut g, "git [");
            push_str(&mut g, v.as_str());
            push_str(&mut g, "]");
        },
        None => push_str(&mut g, "git (not found)"),
    }
    assert(g@ =~= doctor_head(*r)[1][0].0);
    push_line(&mut lines, one(text_from(&g), Tone::Plain));
    let ghost head = lines_view(lines@);
    let mut i: usize = 0;
    while i < r.dirs.len()
        invariant
            0 <= i <= r.dirs@.len(),
            lines_view(lines@) == head + Seq::new(i as nat, |k: int| seq![(dir_line(r.dirs@[k]), Tone::Plain)]),
        decreases r.dirs@.len() - i,
    {
        let d = &r.dirs[i];
        let mut v: Vec<char> = Vec::new();
        push_str(&mut v, d.dir.as_str());
        push_str(&mut v, "  ");
        if d.exists {
            push_decimal(&mut v, d.skills.len() as u128);
            push_str(&mut v, " skills");
        } else {
            push_str(&mut v, "absent");
        }
        assert(v@ =~= dir_line(r.dirs@[i as int]));
        push_line(&mut lines, one(text_from(&v), Tone::Plain));
        assert(Seq::new((i + 1) as nat, |k: int| seq![(dir_line(r.dirs@[k]), Tone::Plain)]) =~= Seq::new(
            i as nat,
            |k: int| seq![(dir_line(r.dirs@[k]), Tone::Plain)],
        ).push(seq![(dir_line(r.dirs@[i as int]), Tone::Plain)]));
        i = i + 1;
    }
    if r.pantries.len() > 0 {
        push_line(&mut lines, one(text_of("pantries:"), Tone::Plain));
        let ghost ph = lines_view(lines@);
        let mut k: usize = 0;
        while k < r.pantries.len()
            invariant
                0 <= k <= r.pantries@.len(),
                lines_view(lines@) == ph + Seq::new(k as nat, |j: int| seq![(r.pantries@[j].summary_spec(), Tone::Plain)]),
            decreases r.pantries@.len() - k,
        {
            push_line(&mut lines, one(r.pantries[k].summary_line(), Tone::Plain));
            assert(Seq::new((k + 1) as nat, |j: int| seq![(r.pantries@[j].summary_spec(), Tone::Plain)]) =~= Seq::new(
                k as nat,
                |j: int| seq![(r.pantries@[j].summary_spec(), Tone::Plain)],
            ).push(seq![(r.pantries@[k as int].summary_spec(), Tone::Plain)]));
            k = k + 1;
        }
    }
    assert(lines_view(lines@) =~= doctor_head(*r));
    lines
}

fn push_window(lines: &mut Vec<Vec<Seg>>, state: &DoctorState, fat: &Vec<FoundDirSkill>, Ghost(picks): Ghost<Seq<int>>)
    requires
        fat@.len() == picks.len(),
        forall|i: int| 0 <= i < picks.len() ==> #[trigger] fat@[i] == state.report.union@[picks[i]],
    ensures
        lines_view(final(lines)@) == lines_view(old(lines)@) + doctor_window(*state, picks),
{
    let ghost wh = lines_view(lines@);
    let n = state.report.union.len();
    let w: usize = if state.scroll >= n {
        0
    } else if n - state.scroll < UNION_WINDOW {
        n - state.scroll
    } else {
        UNION_WINDOW
    };
    let mut k: usize = 0;
    while k < w
        invariant
            0 <= k <= w,
            w == window_len(*state),
            n == state.report.union@.len(),
            w > 0 ==> state.scroll + w <= n,
            fat@.len() == picks.len(),
            forall|i: int| 0 <= i < picks.len() ==> #[trigger] fat@[i] == state.report.union@[picks[i]],
            lines_view(lines@) == wh + Seq::new(k as nat, |j: int| window_line(*state, picks, j)),
        decreases w - k,
    {
        let skill = &state.report.union[state.scroll + k];
        let mut v: Vec<char> = Vec::new();
        let marked = named_in(fat, &skill.name);
        proof {
            let u = state.report.union@;
            if marked {
                let i = choose|i: int| 0 <= i < fat@.len() && (#[trigger] fat@[i]).name@ == skill.name@;
                assert(u[picks[i]].name@ == skill.name@);
            }
            if fat_name(u, picks, skill.name@) {
                let i = choose|i: int| 0 <= i < picks.len() && (#[trigger] u[picks[i]]).name@ == skill.name@;
                assert(fat@[i].name@ == skill.name@);
            }
        }
        if marked {
            push_str(&mut v, "* ");
        } else {
            push_str(&mut v, "  ");
        }
        push_padded(&mut v, skill.name.as_str(), 16);
        push_str(&mut v, " ");
        push_decimal(&mut v, skill.tokens as u128);
        assert(v@ =~= window_line(*state, picks, k as int)[0].0);
        push_line(lines, one(text_from(&v), Tone::Bold));
        assert(Seq::new((k + 1) as nat, |j: int| window_line(*state, picks, j)) =~= Seq::new(
            k as nat,
            |j: int| window_line(*state, picks, j),
        ).push(window_line(*state, picks, k as int)));
        k = k + 1;
    }
}

/// The doctor screen (see `doctor_screen`), for the positions of the fattest
/// skills of the union.
pub fn render(state: &DoctorState) -> (lines: Vec<Vec<Seg>>)
    ensures
        exists|picks: Seq<int>|
            crate::adapter::fattest_positions(state.report.union@, picks) && lines_view(lines@) == doctor_screen(
                *state,
                picks,
            ),
{
    let r = &state.report;
    let fat = crate::adapter::fattest(&r.union);
    let ghost picks = choose|picks: Seq<int>|
        {
            &&& crate::adapter::fattest_positions(r.union@, picks)
            &&& fat@.len() == picks.len()
            &&& forall|i: int| 0 <= i < picks.len() ==> #[trigger] fat@[i] == r.union@[picks[i]]
        };
    let mut lines = head_lines(r);
    push_line(&mut lines, blank());
    let mut t: Vec<char> = Vec::new();
    push_str(&mut t, "menu_tokens  ");
    push_decimal(&mut t, r.menu_tokens as u128);
    push_str(&mut t, "  (");
    push_decimal(&mut t, r.union.len() as u128);
    push_str(&mut t, " skills union)");
    push_line(&mut lines, one(text_from(&t), Tone::Plain));
    push_window(&mut lines, state, &fat, Ghost(picks));
    if r.union.len() == 0 {
        push_line(&mut lines, one(text_of("               no skills found in adapter skill dirs"), Tone::Plain));
    }
    push_line(&mut lines, blank());
    push_line(&mut lines, one(text_of("↑/↓ scroll · Home/End jump · q quit"), Tone::Plain));
    assert(lines_view(lines@) =~= doctor_screen(*state, picks));
    lines
}

/// A skill directory's line in the `doctor` report.
pub open spec fn report_dir_line(d: DirReport) -> Seq<char> {
    "  "@ + pad(d.dir@, 40) + " "@ + if d.exists {
        decimal(d.skills@.len()) + " skills"@
    } else {
        "absent"@
    }
}

/// A fattest skill's line in the `doctor` report.
pub open spec fn report_fat_line(s: FoundDirSkill) -> Seq<char> {
    "  "@ + pad(s.name@, 16) + " "@ + decimal(s.tokens as nat)
}

/// The directories of a group of skills.
pub open spec fn group_dirs(g: Seq<FoundDirSkill>) -> Seq<Seq<char>> {
    Seq::new(g.len(), |k: int| g[k].dir@)
}

/// A group of same-named skills in the `doctor` report: the name and every
/// directory that holds it.
pub open spec fn report_group_line(g: Seq<FoundDirSkill>) -> Seq<char> {
    "  "@ + g[0].name@ + "  in "@ + join_with(group_dirs(g), ", "@)
}

/// The head of the `doctor` report: the adapter and git, then the skill
/// directories.
pub open spec fn report_head(r: DoctorReport) -> Seq<Seq<char>> {
    seq![
        "adapter        "@ + r.adapter@ + match r.adapter_version {
            Some(v) => " "@ + v@,
            None => " (not detected)"@,
        },
        "git            "@ + match r.git_version {
            Some(v) => v@,
            None => "(not found)"@,
        },
        "skill dirs:"@,
    ] + Seq::new(r.dirs@.len(), |k: int| report_dir_line(r.dirs@[k]))
}

/// The menu part of the `doctor` report: the union's tokens, then its fattest
/// skills (at `picks`).
pub open spec fn report_menu(r: DoctorReport, picks: Seq<int>) -> Seq<Seq<char>> {
    seq!["menu_tokens    "@ + decimal(r.menu_tokens as nat) + "  ("@ + decimal(r.union@.len()) + " skills union)"@] + (if r.union@.len()
        == 0 {
        seq!["               no skills found in adapter skill dirs"@]
    } else {
        Seq::empty()
    }) + seq!["fattest:"@] + Seq::new(picks.len(), |k: int| report_fat_line(r.union@[picks[k]]))
}

/// The tail of the `doctor` report: the groups of same-named skills of the
/// union, then the managed pantries.
pub open spec fn report_tail(r: DoctorReport, groups: Seq<Vec<FoundDirSkill>>) -> Seq<Seq<char>> {
    (if groups.len() == 0 {
        seq!["duplicates     none"@]
    } else {
        seq!["duplicates:"@] + Seq::new(groups.len(), |k: int| report_group_line(groups[k]@))
    }) + if r.pantries@.len() > 0 {
        seq!["pantries:"@] + Seq::new(r.pantries@.len(), |k: int| r.pantries@[k].summary_spec())
    } else {
        Seq::empty()
    }
}

/// What `doctor` prints, for the fattest skills of the union (at `picks`) and
/// its groups of same-named skills.
pub open spec fn report_spec(r: DoctorReport, picks: Seq<int>, groups: Seq<Vec<FoundDirSkill>>) -> Seq<Seq<char>> {
    report_head(r) + report_menu(r, picks) + report_tail(r, groups)
}

fn push_text(lines: &mut Vec<String>, v: &Vec<char>)
    ensures
        views(final(lines)@) == views(old(lines)@).push(v@),
{
    let ghost before = views(lines@);
    lines.push(string_from_chars(v));
    assert(views(lines@) =~= before.push(v@));
}

fn report_head_lines(r: &DoctorReport) -> (lines: Vec<String>)
    ensures
        views(lines@) == report_head(*r),
{
    let mut lines: Vec<String> = Vec::new();
    let mut a: Vec<char> = Vec::new();
    push_str(&mut a, "adapter        ");
    push_str(&mut a, r.adapter.as_str());
    match &r.adapter_version {
        Some(v) => {
            push_str(&mut a, " ");
            push_str(&mut a, v.as_str());
        },
        None => push_str(&mut a, " (not detected)"),
    }
    assert(a@ =~= report_head(*r)[0]);
    push_text(&mut lines, &a);
    let mut g: Vec<char> = Vec::new();
    push_str(&mut g, "git            ");
    match &r.git_version {
        Some(v) => push_str(&mut g, v.as_str()),
        None => push_str(&mut g, "(not found)"),
    }
    push_text(&mut lines, &g);
    let mut h: Vec<char> = Vec::new();
    push_str(&mut h, "skill dirs:");
    push_text(&mut lines, &h);
    let ghost head = views(lines@);
    let mut i: usize = 0;
    while i < r.dirs.len()
        invariant
            0 <= i <= r.dirs@.len(),
            views(lines@) == head + Seq::new(i as nat, |k: int| report_dir_line(r.dirs@[k])),
        decreases r.dirs@.len() - i,
    {
        let d = &r.dirs[i];
        let mut v: Vec<char> = Vec::new();
        push_str(&mut v, "  ");
        push_padded(&mut v, d.dir.as_str(), 40);
        push_str(&mut v, " ");
        if d.exists {
            push_decimal(&mut v, d.skills.len() as u128);
            push_str(&mut v, " skills");
        } else {
            push_str(&mut v, "absent");
        }
        assert(v@ =~= report_dir_line(r.dirs@[i as int]));
        push_text(&mut lines, &v);
        assert(Seq::new((i + 1) as nat, |k: int| report_dir_line(r.dirs@[k])) =~= Seq::new(
            i as nat,
            |k: int| report_dir_line(r.dirs@[k]),
        ).push(report_dir_line(r.dirs@[i as int])));
        i = i + 1;
    }
    assert(views(lines@) =~= report_head(*r));
    lines
}

fn push_report_menu(lines: &mut Vec<String>, r: &DoctorReport, fat: &Vec<FoundDirSkill>, Ghost(picks): Ghost<Seq<int>>)
    requires
        fat@.len() == picks.len(),
        forall|i: int| 0 <= i < picks.len() ==> #[trigger] fat@[i] == r.union@[picks[i]],
    ensures
        views(final(lines)@) == views(old(lines)@) + report_menu(*r, picks),
{
    let ghost start = views(lines@);
    let mut t: Vec<char> = Vec::new();
    push_str(&mut t, "menu_tokens    ");
    push_decimal(&mut t, r.menu_tokens as u128);
    push_str(&mut t, "  (");
    push_decimal(&mut t, r.union.len() as u128);
    push_str(&mut t, " skills union)");
    push_text(lines, &t);
    if r.union.len() == 0 {
        let mut e: Vec<char> = Vec::new();
        push_str(&mut e, "               no skills found in adapter skill dirs");
        push_text(lines, &e);
    }
    let mut f: Vec<char> = Vec::new();
    push_str(&mut f, "fattest:");
    push_text(lines, &f);
    let ghost mid = views(lines@);
    let mut i: usize = 0;
    while i < fat.len()
        invariant
            0 <= i <= fat@.len(),
            fat@.len() == picks.len(),
            forall|j: int| 0 <= j < picks.len() ==> #[trigger] fat@[j] == r.union@[picks[j]],
            views(lines@) == mid + Seq::new(i as nat, |k: int| report_fat_line(r.union@[picks[k]])),
        decreases fat@.len() - i,
    {
        let mut v: Vec<char> = Vec::new();
        push_str(&mut v, "  ");
        push_padded(&mut v, fat[i].name.as_str(), 16);
        push_str(&mut v, " ");
        push_decimal(&mut v, fat[i].tokens as u128);
        assert(fat@[i as int] == r.union@[picks[i as int]]);
        assert(v@ =~= report_fat_line(r.union@[picks[i as int]]));
        push_text(lines, &v);
        assert(Seq::new((i + 1) as nat, |k: int| report_fat_line(r.union@[picks[k]])) =~= Seq::new(
            i as nat,
            |k: int| report_fat_line(r.union@[picks[k]]),
        ).push(report_fat_line(r.union@[picks[i as int]])));
        i = i + 1;
    }
    assert(views(lines@) =~= start + report_menu(*r, picks));
}

fn push_report_tail(lines: &mut Vec<String>, r: &DoctorReport, groups: &Vec<Vec<FoundDirSkill>>)
    requires
        forall|i: int| 0 <= i < groups@.len() ==> (#[trigger] groups@[i])@.len() > 1,
    ensures
        views(final(lines)@) == views(old(lines)@) + report_tail(*r, groups@),
{
    let ghost start = views(lines@);
    if groups.len() == 0 {
        let mut v: Vec<char> = Vec::new();
        push_str(&mut v, "duplicates     none");
        push_text(lines, &v);
    } else {
        let mut v: Vec<char> = Vec::new();
        push_str(&mut v, "duplicates:");
        push_text(lines, &v);
        let ghost mid = views(lines@);
        let mut i: usize = 0;
        while i < groups.len()
            invariant
                0 <= i <= groups@.len(),
                forall|j: int| 0 <= j < groups@.len() ==> (#[trigger] groups@[j])@.len() > 1,
                views(lines@) == mid + Seq::new(i as nat, |k: int| report_group_line(groups@[k]@)),
            decreases groups@.len() - i,
        {
            let g = &groups[i];
            let mut dirs: Vec<String> = Vec::new();
            let mut j: usize = 0;
            while j < g.len()
                invariant
                    0 <= j <= g@.len(),
                    dirs@.len() == j,
                    forall|k: int| 0 <= k < j ==> (#[trigger] dirs@[k])@ == g@[k].dir@,
                decreases g@.len() - j,
            {
                dirs.push(crate::text::to_string(g[j].dir.as_str()));
                j = j + 1;
            }
            assert(views(dirs@) =~= group_dirs(g@));
            let mut w: Vec<char> = Vec::new();
            push_str(&mut w, "  ");
            push_str(&mut w, g[0].name.as_str());
            push_str(&mut w, "  in ");
            push_joined(&mut w, &dirs, ", ");
            assert(w@ =~= report_group_line(groups@[i as int]@));
            push_text(lines, &w);
            assert(Seq::new((i + 1) as nat, |k: int| report_group_line(groups@[k]@)) =~= Seq::new(
                i as nat,
                |k: int| report_group_line(groups@[k]@),
            ).push(report_group_line(groups@[i as int]@)));
            i = i + 1;
        }
    }
    let ghost after = views(lines@);
    if r.pantries.len() > 0 {
        let mut p: Vec<char> = Vec::new();
        push_str(&mut p, "pantries:");
        push_text(lines, &p);
        let ghost ph = views(lines@);
        let mut k: usize = 0;
        while k < r.pantries.len()
            invariant
                0 <= k <= r.pantries@.len(),
                views(lines@) == ph + Seq::new(k as nat, |j: int| r.pantries@[j].summary_spec()),
            decreases r.pantries@.len() - k,
        {
            let ghost before = views(lines@);
            lines.push(r.pantries[k].summary_line());
            assert(views(lines@) =~= before.push(r.pantries@[k as int].summary_spec()));
            assert(Seq::new((k + 1) as nat, |j: int| r.pantries@[j].summary_spec()) =~= Seq::new(
                k as nat,
                |j: int| r.pantries@[j].summary_spec(),
            ).push(r.pantries@[k as int].summary_spec()));
            k = k + 1;
        }
    }
    assert(views(lines@) =~= start + report_tail(*r, groups@));
}

/// What `doctor` prints (see `report_spec`), for the positions of the
/// fattest skills of the union and its groups of same-named skills.
pub fn report_lines(r: &DoctorReport) -> (lines: Vec<String>)
    ensures
        exists|picks: Seq<int>, groups: Seq<Vec<FoundDirSkill>>|
            {
                &&& crate::adapter::fattest_positions(r.union@, picks)
                &&& crate::adapter::duplicate_groups(r.union@, groups)
                &&& views(lines@) == report_spec(*r, picks, groups)
            },
{
    let fat = crate::adapter::fattest(&r.union);
    let ghost picks = choose|picks: Seq<int>|
        {
            &&& crate::adapter::fattest_positions(r.union@, picks)
            &&& fat@.len() == picks.len()
            &&& forall|i: int| 0 <= i < picks.len() ==> #[trigger] fat@[i] == r.union@[picks[i]]
        };
    let groups = crate::adapter::duplicates(&r.union);
    let mut lines = report_head_lines(r);
    push_report_menu(&mut lines, r, &fat, Ghost(picks));
    push_report_tail(&mut lines, r, &groups);
    assert(views(lines@) =~= report_spec(*r, picks, groups@));
    lines
}

} // verus!
