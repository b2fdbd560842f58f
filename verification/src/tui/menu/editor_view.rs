//! What the editor shows: the manifest's fields and menu tokens, then the
//! workers with their packs, the union's skills and the tools, each pane with
//! its cursor and the current worker's choices checked.
use crate::library::ListedSkill;
use crate::run::{base_name, entry_base_name};
use crate::text::{chars_of, contains_string, decimal, join_with, push_decimal, push_joined, push_str, views};
use crate::tui::menu::editor::{live_tokens_spec, tool_cost, tool_names, EditorState, Field, Focus};
use crate::tui::menu::manifests::{listed_names_view, lookup_union_pub, union_tokens};
use crate::tui::preview::listing_sum;
use crate::tui::view::{
    blank, field_label, field_label_text, four, line_view, lines_view, marker, marker_str, one, pad, push_line, push_padded, text_from, text_of, three,
    two, Seg, Tone,
};
use vstd::prelude::*;

verus! {

/// What is being typed, with the caret.
pub open spec fn typed(e: EditorState) -> (Seq<char>, Tone) {
    (e.input@ + "▌"@, Tone::Accent)
}

/// The manifest line: the name being typed, the file, or where a new one goes.
pub open spec fn manifest_line(e: EditorState) -> Seq<(Seq<char>, Tone)> {
    seq![
        field_label("manifest"@),
        if e.input_mode == Some(Field::ManifestName) {
            typed(e)
        } else {
            match e.path {
                Some(p) => (p@, Tone::Dim),
                None => (e.save_target.label_spec() + " → "@ + e.name@ + "/"@ + e.name@ + ".toml"@, Tone::Dim),
            }
        },
    ]
}

/// The task line.
pub open spec fn task_line(e: EditorState) -> Seq<(Seq<char>, Tone)> {
    seq![field_label("task"@), if e.input_mode == Some(Field::Task) { typed(e) } else { (e.task@, Tone::Plain) }]
}

/// The adapter line.
pub open spec fn adapter_line(e: EditorState) -> Seq<(Seq<char>, Tone)> {
    seq![field_label("adapter"@), (e.adapter@, Tone::Plain)]
}

/// The budget line.
pub open spec fn budget_line(e: EditorState) -> Seq<(Seq<char>, Tone)> {
    seq![
        field_label("budget"@),
        if e.input_mode == Some(Field::Budget) {
            typed(e)
        } else {
            (
                match e.budget {
                    Some(b) => decimal(b as nat),
                    None => "(none)"@,
                },
                Tone::Plain,
            )
        },
    ]
}

/// The pin-hashes line.
pub open spec fn pin_line(e: EditorState) -> Seq<(Seq<char>, Tone)> {
    seq![field_label("pin hashes"@), (if e.pin_hashes { "on"@ } else { "off"@ }, Tone::Plain)]
}

/// The menu tokens line.
pub open spec fn tokens_line(e: EditorState) -> Seq<(Seq<char>, Tone)> {
    seq![("menu_tokens      "@, Tone::Dim), ("this run: "@ + decimal(live_tokens_spec(e)), Tone::Bold)]
}

/// A pane's heading, marked when the pane has the focus.
pub open spec fn heading(t: Seq<char>, focused: bool) -> Seq<(Seq<char>, Tone)> {
    seq![(t + if focused { " ▸"@ } else { ""@ }, Tone::Bold)]
}

/// A pin with the tokens of its skill in the union, `?` when the union lacks it.
pub open spec fn pin_label(pin: Seq<char>, skills: Seq<ListedSkill>) -> Seq<char> {
    pin + match union_tokens(skills, base_name(pin)) {
        Some(t) => " ("@ + decimal(t as nat) + ")"@,
        None => " (?)"@,
    }
}

/// The labels of the pins of a pack.
pub open spec fn pin_labels(pack: Seq<Seq<char>>, skills: Seq<ListedSkill>) -> Seq<Seq<char>> {
    Seq::new(pack.len(), |k: int| pin_label(pack[k], skills))
}

/// A pack as the worker line shows it.
pub open spec fn pack_text(pack: Seq<Seq<char>>, skills: Seq<ListedSkill>) -> Seq<char> {
    if pack.len() == 0 {
        "(empty)"@
    } else {
        join_with(pin_labels(pack, skills), ", "@)
    }
}

/// The `k`-th worker's line: cursor, name, pack.
pub open spec fn worker_line(e: EditorState, k: int) -> Seq<(Seq<char>, Tone)> {
    let w = e.workers@[k];
    let here = k == e.worker_cursor && e.focus == Focus::Workers;
    seq![
        (marker(here), Tone::Plain),
        (pad(w.name@, 16), if here { Tone::Bold } else { Tone::Plain }),
        (" "@, Tone::Plain),
        ("pack: "@ + pack_text(views(w.pack@), e.skills@), if w.pack@.len() == 0 { Tone::Dim } else { Tone::Plain }),
    ]
}

/// The `k`-th worker's lines: its line, then its tools when it has any.
pub open spec fn worker_block(e: EditorState, k: int) -> Seq<Seq<(Seq<char>, Tone)>> {
    let tools = e.workers@[k].tools@;
    seq![worker_line(e, k)] + if tools.len() > 0 {
        seq![seq![("  tools: "@ + join_with(views(tools), ", "@), Tone::Dim)]]
    } else {
        Seq::empty()
    }
}

/// The lines of the first `n` workers.
pub open spec fn worker_rows(e: EditorState, n: nat) -> Seq<Seq<(Seq<char>, Tone)>>
    decreases n,
{
    if n == 0 {
        Seq::empty()
    } else {
        worker_rows(e, (n - 1) as nat) + worker_block(e, n - 1)
    }
}

/// The workers pane.
pub open spec fn workers_pane(e: EditorState) -> Seq<Seq<(Seq<char>, Tone)>> {
    seq![heading("workers"@, e.focus == Focus::Workers)] + worker_rows(e, e.workers@.len()) + if e.workers@.len() == 0 {
        seq![seq![("  (no workers)"@, Tone::Dim)]]
    } else {
        Seq::empty()
    }
}

/// Whether the current worker's list of names holds `name`.
pub open spec fn current_has(e: EditorState, name: Seq<char>, tools: bool) -> bool {
    e.worker_cursor < e.workers@.len() && views(
        if tools {
            e.workers@[e.worker_cursor as int].tools@
        } else {
            e.workers@[e.worker_cursor as int].pack@
        },
    ).contains(name)
}

/// A check box.
pub open spec fn check(on: bool) -> (Seq<char>, Tone) {
    if on {
        ("[x]"@, Tone::Good)
    } else {
        ("[ ]"@, Tone::Dim)
    }
}

/// The `k`-th skill's line: cursor, whether the current worker packs it, name and tokens.
pub open spec fn skill_line(e: EditorState, k: int) -> Seq<(Seq<char>, Tone)> {
    let s = e.skills@[k];
    let here = k == e.skill_cursor && e.focus == Focus::Skills;
    seq![
        (marker(here), Tone::Plain),
        check(current_has(e, s.name@, false)),
        (" "@ + pad(s.name@, 16) + " "@ + decimal(s.tokens as nat), if here { Tone::Bold } else { Tone::Plain }),
    ]
}

/// The lines of the first `n` skills.
pub open spec fn skill_rows(e: EditorState, n: nat) -> Seq<Seq<(Seq<char>, Tone)>> {
    Seq::new(n, |k: int| skill_line(e, k))
}

/// The skills pane: the union, then the skill under the cursor.
pub open spec fn skills_pane(e: EditorState) -> Seq<Seq<(Seq<char>, Tone)>> {
    seq![heading("skills"@, e.focus == Focus::Skills)] + skill_rows(e, e.skills@.len()) + if e.skills@.len() == 0 {
        seq![seq![("  (no skills discovered)"@, Tone::Dim)]]
    } else if e.skill_cursor < e.skills@.len() {
        seq![Seq::empty(), seq![(e.skills@[e.skill_cursor as int].name@, Tone::Bold)]]
    } else {
        Seq::empty()
    }
}

/// The `k`-th tool entry's line: cursor, whether the current worker has it, name and estimate.
pub open spec fn tool_line(e: EditorState, k: int) -> Seq<(Seq<char>, Tone)> {
    let name = tool_names(e)[k];
    let here = k == e.tool_cursor && e.focus == Focus::Tools;
    seq![
        (marker(here), Tone::Plain),
        check(current_has(e, name, true)),
        (
            " "@ + pad(name, 16) + " "@ + match tool_cost(e, k) {
                Some(t) => decimal(t as nat),
                None => "?"@,
            },
            if here { Tone::Bold } else { Tone::Plain },
        ),
    ]
}

/// The lines of the first `n` tool entries.
pub open spec fn tool_rows(e: EditorState, n: nat) -> Seq<Seq<(Seq<char>, Tone)>> {
    Seq::new(n, |k: int| tool_line(e, k))
}

/// The tools pane.
pub open spec fn tools_pane(e: EditorState) -> Seq<Seq<(Seq<char>, Tone)>> {
    seq![heading("tools"@, e.focus == Focus::Tools)] + tool_rows(e, tool_names(e).len()) + (if tool_names(e).len() == 0 {
        seq![seq![("  (no tools selected)"@, Tone::Dim)]]
    } else {
        Seq::empty()
    }) + if crate::adapter::tools::table_spec(e.adapter@) is None {
        seq![seq![("  (no tool table for adapter "@ + e.adapter@ + " — c to cycle adapter)"@, Tone::Dim)]]
    } else {
        Seq::empty()
    }
}

/// The keys of the editor.
pub open spec fn editor_keys() -> Seq<char> {
    "w/r/d workers · c adapter · a add tool · p pin hashes · f finish · S save+start"@
}

/// The editor screen.
pub open spec fn editor_screen(e: EditorState) -> Seq<Seq<(Seq<char>, Tone)>> {
    seq![manifest_line(e), task_line(e), adapter_line(e), budget_line(e), pin_line(e), tokens_line(e), Seq::empty()]
        + workers_pane(e) + seq![Seq::empty()] + skills_pane(e) + seq![Seq::empty()] + tools_pane(e) + seq![
        Seq::empty(),
        seq![(editor_keys(), Tone::Dim)],
    ]
}

fn typed_text(e: &EditorState) -> (r: String)
    ensures
        (r@, Tone::Accent) == typed(*e),
{
    let mut v = chars_of(e.input.as_str());
    push_str(&mut v, "▌");
    text_from(&v)
}

fn manifest_row(e: &EditorState) -> (l: Vec<Seg>)
    ensures
        line_view(l@) == manifest_line(*e),
{
    let value = match e.input_mode {
        Some(Field::ManifestName) => typed_text(e),
        _ => match &e.path {
            Some(p) => text_of(p.as_str()),
            None => {
                let mut v: Vec<char> = Vec::new();
                push_str(&mut v, e.save_target.label());
                push_str(&mut v, " → ");
                push_str(&mut v, e.name.as_str());
                push_str(&mut v, "/");
                push_str(&mut v, e.name.as_str());
                push_str(&mut v, ".toml");
                text_from(&v)
            },
        },
    };
    let tone = match e.input_mode {
        Some(Field::ManifestName) => Tone::Accent,
        _ => Tone::Dim,
    };
    two(field_label_text("manifest"), Tone::Dim, value, tone)
}

fn task_row(e: &EditorState) -> (l: Vec<Seg>)
    ensures
        line_view(l@) == task_line(*e),
{
    match e.input_mode {
        Some(Field::Task) => two(field_label_text("task"), Tone::Dim, typed_text(e), Tone::Accent),
        _ => two(field_label_text("task"), Tone::Dim, text_of(e.task.as_str()), Tone::Plain),
    }
}

fn budget_row(e: &EditorState) -> (l: Vec<Seg>)
    ensures
        line_view(l@) == budget_line(*e),
{
    match e.input_mode {
        Some(Field::Budget) => two(field_label_text("budget"), Tone::Dim, typed_text(e), Tone::Accent),
        _ => {
            let value = match e.budget {
                Some(b) => {
                    let mut v: Vec<char> = Vec::new();
                    push_decimal(&mut v, b as u128);
                    text_from(&v)
                },
                None => text_of("(none)"),
            };
            two(field_label_text("budget"), Tone::Dim, value, Tone::Plain)
        },
    }
}

fn heading_row(t: &str, focused: bool) -> (l: Vec<Seg>)
    ensures
        line_view(l@) == heading(t@, focused),
{
    let mut v = chars_of(t);
    if focused {
        push_str(&mut v, " ▸");
    } else {
        push_str(&mut v, "");
    }
    one(text_from(&v), Tone::Bold)
}

fn pin_label_text(pin: &String, skills: &Vec<ListedSkill>) -> (r: String)
    ensures
        r@ == pin_label(pin@, skills@),
{
    let base = entry_base_name(pin);
    let mut v = chars_of(pin.as_str());
    match lookup_union_pub(skills, &base) {
        Some(t) => {
            push_str(&mut v, " (");
            push_decimal(&mut v, t as u128);
            push_str(&mut v, ")");
        },
        None => push_str(&mut v, " (?)"),
    }
    text_from(&v)
}

fn pack_text_of(pack: &Vec<String>, skills: &Vec<ListedSkill>) -> (r: String)
    ensures
        r@ == pack_text(views(pack@), skills@),
{
    if pack.len() == 0 {
        return text_of("(empty)");
    }
    let mut labels: Vec<String> = Vec::new();
    let mut i: usize = 0;
    while i < pack.len()
        invariant
            0 <= i <= pack@.len(),
            labels@.len() == i,
            forall|k: int| 0 <= k < i ==> (#[trigger] labels@[k])@ == pin_label(pack@[k]@, skills@),
        decreases pack@.len() - i,
    {
        labels.push(pin_label_text(&pack[i], skills));
        i = i + 1;
    }
    assert(views(labels@) =~= pin_labels(views(pack@), skills@));
    let mut v: Vec<char> = Vec::new();
    push_joined(&mut v, &labels, ", ");
    text_from(&v)
}

fn has_name(list: &Vec<String>, name: &String) -> (b: bool)
    ensures
        b == views(list@).contains(name@),
{
    let found = contains_string(list, name);
    assert(list@.map_values(|e: String| e@) =~= views(list@));
    found
}

fn current_has_exec(e: &EditorState, name: &String, tools: bool) -> (b: bool)
    ensures
        b == current_has(*e, name@, tools),
{
    if e.worker_cursor < e.workers.len() {
        let w = &e.workers[e.worker_cursor];
        if tools {
            has_name(&w.tools, name)
        } else {
            has_name(&w.pack, name)
        }
    } else {
        false
    }
}

fn check_seg(on: bool) -> (r: (String, Tone))
    ensures
        (r.0@, r.1) == check(on),
{
    if on {
        (text_of("[x]"), Tone::Good)
    } else {
        (text_of("[ ]"), Tone::Dim)
    }
}

fn worker_row(e: &EditorState, k: usize) -> (l: Vec<Seg>)
    requires
        k < e.workers@.len(),
    ensures
        line_view(l@) == worker_line(*e, k as int),
{
    let w = &e.workers[k];
    let here = k == e.worker_cursor && match e.focus {
        Focus::Workers => true,
        _ => false,
    };
    let mut b: Vec<char> = Vec::new();
    push_padded(&mut b, w.name.as_str(), 16);
    let mut p: Vec<char> = Vec::new();
    push_str(&mut p, "pack: ");
    let pt = pack_text_of(&w.pack, &e.skills);
    push_str(&mut p, pt.as_str());
    four(
        text_of(marker_str(here)),
        Tone::Plain,
        text_from(&b),
        if here { Tone::Bold } else { Tone::Plain },
        text_of(" "),
        Tone::Plain,
        text_from(&p),
        if w.pack.len() == 0 { Tone::Dim } else { Tone::Plain },
    )
}

fn skill_row(e: &EditorState, k: usize) -> (l: Vec<Seg>)
    requires
        k < e.skills@.len(),
    ensures
        line_view(l@) == skill_line(*e, k as int),
{
    let s = &e.skills[k];
    let here = k == e.skill_cursor && match e.focus {
        Focus::Skills => true,
        _ => false,
    };
    let (c, ct) = check_seg(current_has_exec(e, &s.name, false));
    let mut v: Vec<char> = Vec::new();
    push_str(&mut v, " ");
    push_padded(&mut v, s.name.as_str(), 16);
    push_str(&mut v, " ");
    push_decimal(&mut v, s.tokens as u128);
    three(text_of(marker_str(here)), Tone::Plain, c, ct, text_from(&v), if here { Tone::Bold } else { Tone::Plain })
}

fn tool_row(e: &EditorState, k: usize, name: &String, cost: Option<u64>) -> (l: Vec<Seg>)
    requires
        k < tool_names(*e).len(),
        name@ == tool_names(*e)[k as int],
        cost == tool_cost(*e, k as int),
    ensures
        line_view(l@) == tool_line(*e, k as int),
{
    let here = k == e.tool_cursor && match e.focus {
        Focus::Tools => true,
        _ => false,
    };
    let (c, ct) = check_seg(current_has_exec(e, name, true));
    let mut v: Vec<char> = Vec::new();
    push_str(&mut v, " ");
    push_padded(&mut v, name.as_str(), 16);
    push_str(&mut v, " ");
    match cost {
        Some(t) => push_decimal(&mut v, t as u128),
        None => push_str(&mut v, "?"),
    }
    three(text_of(marker_str(here)), Tone::Plain, c, ct, text_from(&v), if here { Tone::Bold } else { Tone::Plain })
}

fn push_workers_pane(lines: &mut Vec<Vec<Seg>>, e: &EditorState)
    ensures
        lines_view(final(lines)@) == lines_view(old(lines)@) + workers_pane(*e),
{
    let ghost start = lines_view(lines@);
    let focused = match e.focus {
        Focus::Workers => true,
        _ => false,
    };
    push_line(lines, heading_row("workers", focused));
    let mut i: usize = 0;
    while i < e.workers.len()
        invariant
            0 <= i <= e.workers@.len(),
            lines_view(lines@) == start + seq![heading("workers"@, e.focus == Focus::Workers)] + worker_rows(*e, i as nat),
        decreases e.workers@.len() - i,
    {
        let ghost before = lines_view(lines@);
        push_line(lines, worker_row(e, i));
        let w = &e.workers[i];
        if w.tools.len() > 0 {
            let mut v: Vec<char> = Vec::new();
            push_str(&mut v, "  tools: ");
            push_joined(&mut v, &w.tools, ", ");
            push_line(lines, one(text_from(&v), Tone::Dim));
        }
        assert(lines_view(lines@) =~= before + worker_block(*e, i as int));
        i = i + 1;
    }
    if e.workers.len() == 0 {
        push_line(lines, one(text_of("  (no workers)"), Tone::Dim));
    }
    assert(lines_view(lines@) =~= start + workers_pane(*e));
}

fn push_skills_pane(lines: &mut Vec<Vec<Seg>>, e: &EditorState)
    ensures
        lines_view(final(lines)@) == lines_view(old(lines)@) + skills_pane(*e),
{
    let ghost start = lines_view(lines@);
    let focused = match e.focus {
        Focus::Skills => true,
        _ => false,
    };
    push_line(lines, heading_row("skills", focused));
    let mut i: usize = 0;
    while i < e.skills.len()
        invariant
            0 <= i <= e.skills@.len(),
            lines_view(lines@) == start + seq![heading("skills"@, e.focus == Focus::Skills)] + skill_rows(*e, i as nat),
        decreases e.skills@.len() - i,
    {
        push_line(lines, skill_row(e, i));
        assert(skill_rows(*e, (i + 1) as nat) =~= skill_rows(*e, i as nat).push(skill_line(*e, i as int)));
        i = i + 1;
    }
    if e.skills.len() == 0 {
        push_line(lines, one(text_of("  (no skills discovered)"), Tone::Dim));
    } else if e.skill_cursor < e.skills.len() {
        push_line(lines, blank());
        push_line(lines, one(text_of(e.skills[e.skill_cursor].name.as_str()), Tone::Bold));
    }
    assert(lines_view(lines@) =~= start + skills_pane(*e));
}

fn push_tools_pane(lines: &mut Vec<Vec<Seg>>, e: &EditorState)
    ensures
        lines_view(final(lines)@) == lines_view(old(lines)@) + tools_pane(*e),
{
    let ghost start = lines_view(lines@);
    let focused = match e.focus {
        Focus::Tools => true,
        _ => false,
    };
    push_line(lines, heading_row("tools", focused));
    let tools = e.tools_list();
    let ghost names = tool_names(*e);
    assert(tools@.len() == names.len()) by {
        assert(tools@.map_values(|t: (String, Option<u64>)| t.0@).len() == tools@.len());
    }
    let mut i: usize = 0;
    while i < tools.len()
        invariant
            0 <= i <= tools@.len(),
            names == tool_names(*e),
            tools@.len() == names.len(),
            tools@.map_values(|t: (String, Option<u64>)| t.0@) == names,
            forall|k: int| 0 <= k < tools@.len() ==> (#[trigger] tools@[k]).1 == tool_cost(*e, k),
            lines_view(lines@) == start + seq![heading("tools"@, e.focus == Focus::Tools)] + tool_rows(*e, i as nat),
        decreases tools@.len() - i,
    {
        assert(tools@[i as int].0@ == names[i as int]);
        push_line(lines, tool_row(e, i, &tools[i].0, tools[i].1));
        assert(tool_rows(*e, (i + 1) as nat) =~= tool_rows(*e, i as nat).push(tool_line(*e, i as int)));
        i = i + 1;
    }
    if tools.len() == 0 {
        push_line(lines, one(text_of("  (no tools selected)"), Tone::Dim));
    }
    if crate::adapter::tools::table(e.adapter.as_str()).is_none() {
        let mut v: Vec<char> = Vec::new();
        push_str(&mut v, "  (no tool table for adapter ");
        push_str(&mut v, e.adapter.as_str());
        push_str(&mut v, " — c to cycle adapter)");
        push_line(lines, one(text_from(&v), Tone::Dim));
    }
    assert(lines_view(lines@) =~= start + tools_pane(*e));
}

/// Whether the editor's union names each skill once and its tokens fit with
/// the preamble (what `render` needs).
pub fn fits(e: &EditorState) -> (b: bool)
    ensures
        b == e.wf(),
{
    let ghost names = listed_names_view(e.skills@);
    let mut i: usize = 0;
    while i < e.skills.len()
        invariant
            0 <= i <= e.skills@.len(),
            names == listed_names_view(e.skills@),
            forall|a: int, c: int| 0 <= a < c < e.skills@.len() && a < i ==> names[a] != names[c],
        decreases e.skills@.len() - i,
    {
        let mut j: usize = i + 1;
        while j < e.skills.len()
            invariant
                0 <= i < j <= e.skills@.len(),
                names == listed_names_view(e.skills@),
                forall|a: int, c: int| 0 <= a < c < e.skills@.len() && a < i ==> names[a] != names[c],
                forall|c: int| i < c < j ==> names[i as int] != names[c],
            decreases e.skills@.len() - j,
        {
            if crate::text::str_eq(e.skills[i].name.as_str(), e.skills[j].name.as_str()) {
                proof {
                    assert(names[i as int] == names[j as int]);
                    assert(!names.no_duplicates());
                }
                return false;
            }
            j = j + 1;
        }
        i = i + 1;
    }
    assert(names.no_duplicates());
    let mut total: u128 = 0;
    let mut k: usize = 0;
    while k < e.skills.len()
        invariant
            0 <= k <= e.skills@.len(),
            total == listing_sum(e.skills@.take(k as int)),
            total <= u64::MAX,
        decreases e.skills@.len() - k,
    {
        assert(e.skills@.take(k + 1).drop_last() =~= e.skills@.take(k as int));
        total = total + e.skills[k].tokens as u128;
        if total > u64::MAX as u128 {
            proof {
                crate::tui::preview::lemma_listing_sum_prefix(e.skills@, k + 1);
            }
            return false;
        }
        k = k + 1;
    }
    assert(e.skills@.take(k as int) =~= e.skills@);
    total + (crate::tokens::MENU_PREAMBLE_TOKENS as u128) <= u64::MAX as u128
}

/// The editor screen (see `editor_screen`).
pub fn render(e: &EditorState) -> (lines: Vec<Vec<Seg>>)
    requires
        e.wf(),
    ensures
        lines_view(lines@) == editor_screen(*e),
{
    let mut lines: Vec<Vec<Seg>> = Vec::new();
    push_line(&mut lines, manifest_row(e));
    push_line(&mut lines, task_row(e));
    push_line(&mut lines, two(field_label_text("adapter"), Tone::Dim, text_of(e.adapter.as_str()), Tone::Plain));
    push_line(&mut lines, budget_row(e));
    push_line(
        &mut lines,
        two(field_label_text("pin hashes"), Tone::Dim, text_of(if e.pin_hashes { "on" } else { "off" }), Tone::Plain),
    );
    let mut t: Vec<char> = Vec::new();
    push_str(&mut t, "this run: ");
    push_decimal(&mut t, e.live_tokens() as u128);
    push_line(&mut lines, two(text_of("menu_tokens      "), Tone::Dim, text_from(&t), Tone::Bold));
    push_line(&mut lines, blank());
    let ghost top = lines_view(lines@);
    assert(top =~= seq![manifest_line(*e), task_line(*e), adapter_line(*e), budget_line(*e), pin_line(*e), tokens_line(*e), Seq::empty()]);
    push_workers_pane(&mut lines, e);
    push_line(&mut lines, blank());
    push_skills_pane(&mut lines, e);
    push_line(&mut lines, blank());
    push_tools_pane(&mut lines, e);
    push_line(&mut lines, blank());
    push_line(&mut lines, one(text_of("w/r/d workers · c adapter · a add tool · p pin hashes · f finish · S save+start"), Tone::Dim));
    assert(lines_view(lines@) =~= editor_screen(*e));
    lines
}

} // verus!
