//! The confirm screen: what a run would mount, before it is mounted.
use crate::resolve::Locked;
use crate::run::{all_pins, ManifestInput, Worker};
use crate::text::{clone_strings, dedup_spec, to_string, views};
use crate::run::{locked_tokens, locked_tokens_spec};
use crate::text::{decimal, push_decimal, push_str};
use crate::tui::menu::Action;
use crate::tui::view::{blank, lines_view, one, push_line, text_from, text_of, Seg, Tone};
use crate::tui::{Key, KeyPress};
use vstd::prelude::*;

verus! {

/// Where a run's pack comes from: skills picked by name, or a manifest.
#[derive(Debug, Clone, PartialEq)]
pub enum Source {
    Flat(Vec<String>),
    Manifest(ManifestInput),
}

/// The pins a source asks for: the picked names as they are, or every pack
/// entry of the manifest's workers, each once, in order.
pub open spec fn source_pins_spec(source: Source) -> Seq<Seq<char>> {
    match source {
        Source::Flat(names) => views(names@),
        Source::Manifest(input) => dedup_spec(all_pins(input.workers@)),
    }
}

/// The pins a source asks for (see `source_pins_spec`).
pub fn source_pins(source: &Source) -> (pins: Vec<String>)
    ensures
        views(pins@) == source_pins_spec(*source),
{
    match source {
        Source::Flat(names) => clone_strings(names),
        Source::Manifest(input) => crate::run::collect_pins(input.workers.as_slice()),
    }
}

/// The task a source runs: the manifest's, or a fixed one for picked names.
pub open spec fn source_task(source: Source) -> Seq<char> {
    match source {
        Source::Flat(_) => "menu run"@,
        Source::Manifest(input) => input.task@,
    }
}

/// A copy of a manifest input.
pub fn copy_input(input: &ManifestInput) -> (r: ManifestInput)
    ensures
        r.schema == input.schema,
        r.task == input.task,
        r.adapter == input.adapter,
        r.budget == input.budget,
        r.workers@.len() == input.workers@.len(),
        forall|i: int| 0 <= i < r.workers@.len() ==> (#[trigger] r.workers@[i]).name == input.workers@[i].name
            && r.workers@[i].pack@ == input.workers@[i].pack@ && r.workers@[i].description == input.workers@[i].description
            && crate::run::tools_view(r.workers@[i].tools) == crate::run::tools_view(input.workers@[i].tools),
{
    let mut workers: Vec<Worker> = Vec::new();
    let mut i: usize = 0;
    while i < input.workers.len()
        invariant
            0 <= i <= input.workers@.len(),
            workers@.len() == i,
            forall|k: int| 0 <= k < i ==> (#[trigger] workers@[k]).name == input.workers@[k].name
                && workers@[k].pack@ == input.workers@[k].pack@ && workers@[k].description == input.workers@[k].description
                && crate::run::tools_view(workers@[k].tools) == crate::run::tools_view(input.workers@[k].tools),
        decreases input.workers@.len() - i,
    {
        workers.push(input.workers[i].copy());
        i = i + 1;
    }
    ManifestInput {
        schema: input.schema,
        task: input.task.clone(),
        adapter: input.adapter.clone(),
        run_id: match &input.run_id {
            Some(s) => Some(s.clone()),
            None => None,
        },
        created_at: match &input.created_at {
            Some(s) => Some(s.clone()),
            None => None,
        },
        harness_argv: match &input.harness_argv {
            Some(v) => Some(clone_strings(v)),
            None => None,
        },
        budget: input.budget,
        workers,
    }
}

/// A copy of a source, asking for the same pins and the same task.
pub fn copy_source(source: &Source) -> (r: Source)
    ensures
        source_pins_spec(r) == source_pins_spec(*source),
        source_task(r) == source_task(*source),
        (r is Flat) == (*source is Flat),
{
    match source {
        Source::Flat(names) => Source::Flat(clone_strings(names)),
        Source::Manifest(input) => {
            let c = copy_input(input);
            proof {
                crate::run::lemma_all_pins_same(c.workers@, input.workers@);
            }
            Source::Manifest(c)
        },
    }
}

/// The confirm screen: the source, what resolving its pins gave, and the task.
#[derive(Debug, PartialEq)]
pub struct ConfirmState {
    pub source: Source,
    pub resolved: Result<Vec<Locked>, String>,
    pub task: String,
}

/// Whether a source may be resolved: a manifest must pass validation first.
pub fn check_source(source: &Source) -> (r: Result<(), String>)
    ensures
        match source {
            Source::Flat(_) => r is Ok,
            Source::Manifest(input) => match (r, crate::run::validate_spec(*input)) {
                (Ok(()), Ok(())) => true,
                (Err(a), Err(b)) => a@ == b,
                _ => false,
            },
        },
{
    match source {
        Source::Flat(_) => Ok(()),
        Source::Manifest(input) => match input.validate() {
            Ok(_) => Ok(()),
            Err(m) => Err(m),
        },
    }
}

impl ConfirmState {
    /// The screen for a source, with the outcome of checking it and
    /// resolving its pins.
    pub fn new(source: Source, resolved: Result<Vec<Locked>, String>) -> (s: Self)
        ensures
            s.source == source,
            s.resolved == resolved,
            s.task@ == source_task(source),
    {
        let task = match &source {
            Source::Flat(_) => to_string("menu run"),
            Source::Manifest(input) => input.task.clone(),
        };
        ConfirmState { source, resolved, task }
    }
}

/// What a key does on the confirm screen: Escape or `q` go back; Enter asks
/// to mount the source with the task.
pub fn handle_key(state: &ConfirmState, key: &KeyPress) -> (a: Action)
    ensures
        !key.press ==> a == Action::Continue,
        key.press && (key.key == Key::Esc || key.key == Key::Char('q')) ==> a == Action::Pop,
        key.press && key.key == Key::Enter ==> (a matches Action::Mount { source, task } && source_pins_spec(source)
            == source_pins_spec(state.source) && task == state.task),
        key.press && key.key != Key::Esc && key.key != Key::Char('q') && key.key != Key::Enter ==> a == Action::Continue,
{
    if !key.press {
        return Action::Continue;
    }
    match key.key {
        Key::Esc => Action::Pop,
        Key::Char(c) => if c == 'q' {
            Action::Pop
        } else {
            Action::Continue
        },
        Key::Enter => Action::Mount { source: copy_source(&state.source), task: state.task.clone() },
        _ => Action::Continue,
    }
}

/// Whether the confirm screen's token total fits: the resolved skills'
/// description tokens with the preamble (nothing to add after an error).
pub open spec fn confirm_fits(c: ConfirmState) -> bool {
    match c.resolved {
        Ok(locked) => locked_tokens_spec(locked@) + crate::tokens::MENU_PREAMBLE_TOKENS <= u64::MAX,
        Err(_) => true,
    }
}

/// The line of a resolved skill.
pub open spec fn confirm_skill_line(l: Locked) -> Seq<(Seq<char>, Tone)> {
    seq![("skills         "@ + l.name@ + "@"@ + l.hash@, Tone::Plain)]
}

/// The confirm screen: the adapter, then each resolved skill with the menu
/// tokens and the task, or the resolve error; then the keys.
pub open spec fn confirm_screen(c: ConfirmState) -> Seq<Seq<(Seq<char>, Tone)>> {
    seq![seq![("adapter        none — mounted, not spawned"@, Tone::Plain)]] + match c.resolved {
        Ok(locked) => Seq::new(locked@.len(), |k: int| confirm_skill_line(locked@[k])) + seq![
            seq![
                (
                    "menu_tokens    this run: "@ + decimal(crate::tokens::with_preamble_spec(locked_tokens_spec(locked@))),
                    Tone::Plain,
                ),
            ],
            seq![("task           "@ + c.task@, Tone::Plain)],
        ],
        Err(error) => seq![Seq::empty(), seq![("resolve error: "@ + error@, Tone::Bad)]],
    } + seq![Seq::empty(), seq![("Enter mount · Esc cancel"@, Tone::Bold)]]
}

/// Whether the confirm screen's token total fits (see `confirm_fits`).
pub fn fits(state: &ConfirmState) -> (b: bool)
    ensures
        b == confirm_fits(*state),
{
    match &state.resolved {
        Ok(locked) => {
            let mut total: u128 = 0;
            let mut i: usize = 0;
            while i < locked.len()
                invariant
                    0 <= i <= locked@.len(),
                    total == locked_tokens_spec(locked@.take(i as int)),
                    total <= u64::MAX,
                    state.resolved == Ok::<Vec<Locked>, String>(*locked),
                decreases locked@.len() - i,
            {
                assert(locked@.take(i + 1).drop_last() =~= locked@.take(i as int));
                total = total + locked[i].description_tokens as u128;
                if total > u64::MAX as u128 {
                    proof {
                        lemma_locked_tokens_prefix(locked@, i + 1);
                    }
                    return false;
                }
                i = i + 1;
            }
            assert(locked@.take(i as int) =~= locked@);
            total + (crate::tokens::MENU_PREAMBLE_TOKENS as u128) <= u64::MAX as u128
        },
        Err(_) => true,
    }
}

proof fn lemma_locked_tokens_prefix(locked: Seq<Locked>, n: int)
    requires
        0 <= n <= locked.len(),
    ensures
        locked_tokens_spec(locked.take(n)) <= locked_tokens_spec(locked),
    decreases locked.len() - n,
{
    if n < locked.len() {
        lemma_locked_tokens_prefix(locked, n + 1);
        assert(locked.take(n + 1).drop_last() =~= locked.take(n));
    } else {
        assert(locked.take(n) =~= locked);
    }
}

/// The confirm screen (see `confirm_screen`).
pub fn render(state: &ConfirmState) -> (lines: Vec<Vec<Seg>>)
    requires
        confirm_fits(*state),
    ensures
        lines_view(lines@) == confirm_screen(*state),
{
    let mut lines: Vec<Vec<Seg>> = Vec::new();
    push_line(&mut lines, one(text_of("adapter        none — mounted, not spawned"), Tone::Plain));
    let ghost head = lines_view(lines@);
    match &state.resolved {
        Ok(locked) => {
            let mut i: usize = 0;
            while i < locked.len()
                invariant
                    0 <= i <= locked@.len(),
                    lines_view(lines@) == head + Seq::new(i as nat, |k: int| confirm_skill_line(locked@[k])),
                decreases locked@.len() - i,
            {
                let mut v: Vec<char> = Vec::new();
                push_str(&mut v, "skills         ");
                push_str(&mut v, locked[i].name.as_str());
                push_str(&mut v, "@");
                push_str(&mut v, locked[i].hash.as_str());
                push_line(&mut lines, one(text_from(&v), Tone::Plain));
                assert(Seq::new((i + 1) as nat, |k: int| confirm_skill_line(locked@[k])) =~= Seq::new(
                    i as nat,
                    |k: int| confirm_skill_line(locked@[k]),
                ).push(confirm_skill_line(locked@[i as int])));
                i = i + 1;
            }
            let sum = locked_tokens(locked.as_slice());
            let total = crate::tokens::with_preamble(sum);
            let mut t: Vec<char> = Vec::new();
            push_str(&mut t, "menu_tokens    this run: ");
            push_decimal(&mut t, total as u128);
            push_line(&mut lines, one(text_from(&t), Tone::Plain));
            let mut k: Vec<char> = Vec::new();
            push_str(&mut k, "task           ");
            push_str(&mut k, state.task.as_str());
            push_line(&mut lines, one(text_from(&k), Tone::Plain));
        },
        Err(error) => {
            push_line(&mut lines, blank());
            let mut v: Vec<char> = Vec::new();
            push_str(&mut v, "resolve error: ");
            push_str(&mut v, error.as_str());
            push_line(&mut lines, one(text_from(&v), Tone::Bad));
        },
    }
    push_line(&mut lines, blank());
    push_line(&mut lines, one(text_of("Enter mount · Esc cancel"), Tone::Bold));
    assert(lines_view(lines@) =~= confirm_screen(*state));
    lines
}

} // verus!
