//! Writing a manifest back into its file: each field and each worker is set
//! in the file's TOML document by `toml_edit`, so comments and keys the
//! editor does not know stay as they were.
use crate::run::{ManifestInput, Worker};
use crate::text::views;
use vstd::prelude::*;

verus! {

/// The text after `toml_edit` set the top-level `key` to the string `value`.
pub uninterp spec fn toml_string_set_spec(text: Seq<char>, key: Seq<char>, value: Seq<char>) -> Result<Seq<char>, Seq<char>>;

/// The text after `toml_edit` set the top-level `key` to the integer `value`.
pub uninterp spec fn toml_integer_set_spec(text: Seq<char>, key: Seq<char>, value: u64) -> Result<Seq<char>, Seq<char>>;

/// The text after `toml_edit` set `budget.max_menu_tokens` to `value`
/// (`None` when `budget` holds something other than a table).
pub uninterp spec fn toml_budget_set_spec(text: Seq<char>, value: u64) -> Result<Option<Seq<char>>, Seq<char>>;

/// The text after `toml_edit` removed the top-level `key`.
pub uninterp spec fn toml_key_removed_spec(text: Seq<char>, key: Seq<char>) -> Result<Seq<char>, Seq<char>>;

/// The text after `toml_edit` appended a `[[workers]]` table with this name
/// and pack (`None` when `workers` holds something other than an array of
/// tables).
pub uninterp spec fn toml_worker_pushed_spec(text: Seq<char>, name: Seq<char>, pack: Seq<Seq<char>>) -> Result<Option<Seq<char>>, Seq<char>>;

/// As `toml_worker_pushed_spec`, with the worker's `tools` as well.
pub uninterp spec fn toml_worker_tools_pushed_spec(
    text: Seq<char>,
    name: Seq<char>,
    pack: Seq<Seq<char>>,
    tools: Seq<Seq<char>>,
) -> Result<Option<Seq<char>>, Seq<char>>;

/// The view of a text edit's outcome.
pub open spec fn text_view(r: Result<String, String>) -> Result<Seq<char>, Seq<char>> {
    match r {
        Ok(t) => Ok(t@),
        Err(e) => Err(e@),
    }
}

/// The view of an edit's outcome that may find the wrong kind of item.
pub open spec fn opt_text_view(r: Result<Option<String>, String>) -> Result<Option<Seq<char>>, Seq<char>> {
    match r {
        Ok(Some(t)) => Ok(Some(t@)),
        Ok(None) => Ok(None),
        Err(e) => Err(e@),
    }
}

/// `toml_edit`: parses `text` as a `DocumentMut`, sets `doc[key]` to
/// `value(value)` and renders it with `to_string`. Named, not stated.
#[verifier::external_body]
fn toml_set_string(text: &str, key: &str, value: &str) -> (r: Result<String, String>)
    ensures
        text_view(r) == toml_string_set_spec(text@, key@, value@),
{
    let mut doc: toml_edit::DocumentMut = text.parse().map_err(|e: toml_edit::TomlError| e.to_string())?;
    doc[key] = toml_edit::value(value);
    Ok(doc.to_string())
}

/// `toml_edit`: parses `text`, sets `doc[key]` to the integer `value` (as an
/// `i64`) and renders it. Named, not stated.
#[verifier::external_body]
fn toml_set_integer(text: &str, key: &str, value: u64) -> (r: Result<String, String>)
    ensures
        text_view(r) == toml_integer_set_spec(text@, key@, value),
{
    let mut doc: toml_edit::DocumentMut = text.parse().map_err(|e: toml_edit::TomlError| e.to_string())?;
    doc[key] = toml_edit::value(value as i64);
    Ok(doc.to_string())
}

/// `toml_edit`: parses `text`, takes the entry `budget` (an empty table when
/// absent) and, when it is table-like (`Item::as_table_like_mut`), inserts
/// `max_menu_tokens` (as an `i64`); renders the document. Named, not stated.
#[verifier::external_body]
fn toml_set_budget(text: &str, value: u64) -> (r: Result<Option<String>, String>)
    ensures
        opt_text_view(r) == toml_budget_set_spec(text@, value),
{
    let mut doc: toml_edit::DocumentMut = text.parse().map_err(|e: toml_edit::TomlError| e.to_string())?;
    match doc.as_table_mut().entry("budget").or_insert(toml_edit::table()).as_table_like_mut() {
        Some(t) => t.insert("max_menu_tokens", toml_edit::value(value as i64)),
        None => return Ok(None),
    };
    Ok(Some(doc.to_string()))
}

/// `toml_edit`: parses `text`, removes the top-level `key` (`Table::remove`)
/// and renders the document. Named, not stated.
#[verifier::external_body]
fn toml_remove_key(text: &str, key: &str) -> (r: Result<String, String>)
    ensures
        text_view(r) == toml_key_removed_spec(text@, key@),
{
    let mut doc: toml_edit::DocumentMut = text.parse().map_err(|e: toml_edit::TomlError| e.to_string())?;
    doc.as_table_mut().remove(key);
    Ok(doc.to_string())
}

/// `toml_edit`: parses `text`, takes the entry `workers` (an empty array of
/// tables when absent) and, when it is an array of tables, pushes a table
/// with `name` and `pack` (an `Array` of the entries); renders the document.
/// Named, not stated.
#[verifier::external_body]
fn toml_push_worker(text: &str, name: &str, pack: &Vec<String>) -> (r: Result<Option<String>, String>)
    ensures
        opt_text_view(r) == toml_worker_pushed_spec(text@, name@, views(pack@)),
{
    let mut doc: toml_edit::DocumentMut = text.parse().map_err(|e: toml_edit::TomlError| e.to_string())?;
    let mut table = toml_edit::Table::new();
    table["name"] = toml_edit::value(name);
    table["pack"] = toml_edit::value(pack.iter().map(|p| p.as_str()).collect::<toml_edit::Array>());
    let item = doc.as_table_mut().entry("workers").or_insert(toml_edit::Item::ArrayOfTables(toml_edit::ArrayOfTables::new()));
    match item.as_array_of_tables_mut() {
        Some(workers) => workers.push(table),
        None => return Ok(None),
    }
    Ok(Some(doc.to_string()))
}

/// As `toml_push_worker`, with the worker's `tools` (an `Array`) in its
/// table as well. Named, not stated.
#[verifier::external_body]
fn toml_push_worker_tools(text: &str, name: &str, pack: &Vec<String>, tools: &Vec<String>) -> (r: Result<Option<String>, String>)
    ensures
        opt_text_view(r) == toml_worker_tools_pushed_spec(text@, name@, views(pack@), views(tools@)),
{
    let mut doc: toml_edit::DocumentMut = text.parse().map_err(|e: toml_edit::TomlError| e.to_string())?;
    let mut table = toml_edit::Table::new();
    table["name"] = toml_edit::value(name);
    table["pack"] = toml_edit::value(pack.iter().map(|p| p.as_str()).collect::<toml_edit::Array>());
    table["tools"] = toml_edit::value(tools.iter().map(|t| t.as_str()).collect::<toml_edit::Array>());
    let item = doc.as_table_mut().entry("workers").or_insert(toml_edit::Item::ArrayOfTables(toml_edit::ArrayOfTables::new()));
    match item.as_array_of_tables_mut() {
        Some(workers) => workers.push(table),
        None => return Ok(None),
    }
    Ok(Some(doc.to_string()))
}

/// The refusal when `budget` holds something other than a table.
pub open spec fn budget_not_table() -> Seq<char> {
    "'budget' in the manifest is not a table"@
}

/// The refusal when `workers` holds something other than an array of tables.
pub open spec fn workers_not_tables() -> Seq<char> {
    "'workers' in the manifest is not an array of tables"@
}

/// The text with the manifest's fields set: `schema = 1`, the task, the
/// adapter, the budget (removed when there is none), and no workers yet.
pub open spec fn fields_set_spec(text: Seq<char>, input: ManifestInput) -> Result<Seq<char>, Seq<char>> {
    match toml_integer_set_spec(text, "schema"@, 1) {
        Err(e) => Err(e),
        Ok(t1) => match toml_string_set_spec(t1, "task"@, input.task@) {
            Err(e) => Err(e),
            Ok(t2) => match toml_string_set_spec(t2, "adapter"@, input.adapter@) {
                Err(e) => Err(e),
                Ok(t3) => match input.budget {
                    Some(b) => match toml_budget_set_spec(t3, b.max_menu_tokens) {
                        Err(e) => Err(e),
                        Ok(None) => Err(budget_not_table()),
                        Ok(Some(t4)) => toml_key_removed_spec(t4, "workers"@),
                    },
                    None => match toml_key_removed_spec(t3, "budget"@) {
                        Err(e) => Err(e),
                        Ok(t4) => toml_key_removed_spec(t4, "workers"@),
                    },
                },
            },
        },
    }
}

/// The text with one more `[[workers]]` table (its tools only when it has some).
pub open spec fn worker_pushed_spec(text: Seq<char>, w: Worker) -> Result<Seq<char>, Seq<char>> {
    let r = match w.tools {
        Some(t) => if t@.len() > 0 {
            toml_worker_tools_pushed_spec(text, w.name@, views(w.pack@), views(t@))
        } else {
            toml_worker_pushed_spec(text, w.name@, views(w.pack@))
        },
        None => toml_worker_pushed_spec(text, w.name@, views(w.pack@)),
    };
    match r {
        Err(e) => Err(e),
        Ok(None) => Err(workers_not_tables()),
        Ok(Some(t)) => Ok(t),
    }
}

/// The text with the workers' tables appended in order.
pub open spec fn workers_pushed_spec(text: Seq<char>, ws: Seq<Worker>) -> Result<Seq<char>, Seq<char>>
    decreases ws.len(),
{
    if ws.len() == 0 {
        Ok(text)
    } else {
        match workers_pushed_spec(text, ws.drop_last()) {
            Err(e) => Err(e),
            Ok(t) => worker_pushed_spec(t, ws.last()),
        }
    }
}

/// The manifest file's text after saving `input` into `existing` (empty for
/// a new file): its fields set, then its workers written afresh.
pub open spec fn save_spec(existing: Option<Seq<char>>, input: ManifestInput) -> Result<Seq<char>, Seq<char>> {
    let text = match existing {
        Some(t) => t,
        None => Seq::empty(),
    };
    match fields_set_spec(text, input) {
        Err(e) => Err(e),
        Ok(t) => workers_pushed_spec(t, input.workers@),
    }
}

proof fn lemma_err_stays(text: Seq<char>, ws: Seq<Worker>, i: int)
    requires
        0 <= i <= ws.len(),
        workers_pushed_spec(text, ws.take(i)) is Err,
    ensures
        workers_pushed_spec(text, ws) == workers_pushed_spec(text, ws.take(i)),
    decreases ws.len() - i,
{
    if i < ws.len() {
        assert(ws.take(i + 1).drop_last() =~= ws.take(i));
        lemma_err_stays(text, ws, i + 1);
    } else {
        assert(ws.take(i) =~= ws);
    }
}

fn fields_set(text: &str, input: &ManifestInput) -> (r: Result<String, String>)
    ensures
        text_view(r) == fields_set_spec(text@, *input),
{
    let t1 = toml_set_integer(text, "schema", 1)?;
    let t2 = toml_set_string(t1.as_str(), "task", input.task.as_str())?;
    let t3 = toml_set_string(t2.as_str(), "adapter", input.adapter.as_str())?;
    let t4 = match &input.budget {
        Some(b) => match toml_set_budget(t3.as_str(), b.max_menu_tokens)? {
            Some(t) => t,
            None => return Err(crate::text::to_string("'budget' in the manifest is not a table")),
        },
        None => toml_remove_key(t3.as_str(), "budget")?,
    };
    toml_remove_key(t4.as_str(), "workers")
}

fn push_worker(text: &str, w: &Worker) -> (r: Result<String, String>)
    ensures
        text_view(r) == worker_pushed_spec(text@, *w),
{
    let r = match &w.tools {
        Some(t) => if t.len() > 0 {
            toml_push_worker_tools(text, w.name.as_str(), &w.pack, t)
        } else {
            toml_push_worker(text, w.name.as_str(), &w.pack)
        },
        None => toml_push_worker(text, w.name.as_str(), &w.pack),
    };
    match r {
        Err(e) => Err(e),
        Ok(None) => Err(crate::text::to_string("'workers' in the manifest is not an array of tables")),
        Ok(Some(t)) => Ok(t),
    }
}

/// The manifest file's text after saving `input` into the file's current
/// text (`None` for a new file); see `save_spec`.
pub fn save_text(existing: Option<&str>, input: &ManifestInput) -> (r: Result<String, String>)
    ensures
        text_view(r) == save_spec(
            match existing {
                Some(t) => Some(t@),
                None => None,
            },
            *input,
        ),
{
    let start = match existing {
        Some(t) => crate::text::to_string(t),
        None => String::new(),
    };
    let mut text = fields_set(start.as_str(), input)?;
    let ghost t0 = fields_set_spec(start@, *input)->Ok_0;
    let ghost ws = input.workers@;
    assert(ws.take(0) =~= Seq::<Worker>::empty());
    let mut i: usize = 0;
    while i < input.workers.len()
        invariant
            0 <= i <= ws.len(),
            ws == input.workers@,
            fields_set_spec(start@, *input) == Ok::<Seq<char>, Seq<char>>(t0),
            start@ == match existing {
                Some(t) => t@,
                None => Seq::<char>::empty(),
            },
            workers_pushed_spec(t0, ws.take(i as int)) == Ok::<Seq<char>, Seq<char>>(text@),
        decreases ws.len() - i,
    {
        assert(ws.take(i + 1).drop_last() =~= ws.take(i as int));
        let next = push_worker(text.as_str(), &input.workers[i]);
        match next {
            Err(e) => {
                proof {
                    assert(ws.take(i + 1).last() == ws[i as int]);
                    assert(workers_pushed_spec(t0, ws.take(i + 1)) == Err::<Seq<char>, Seq<char>>(e@));
                    lemma_err_stays(t0, ws, i + 1);
                }
                return Err(e);
            },
            Ok(t) => {
                assert(ws.take(i + 1).last() == ws[i as int]);
                text = t;
            },
        }
        i = i + 1;
    }
    assert(ws.take(i as int) =~= ws);
    Ok(text)
}

} // verus!
