//! Token estimates of the tools a harness sends with every call, per
//! adapter: the provider payload of each tool (`{name, description,
//! parameters}` as JSON) at one token per four characters, rounded up.
use vstd::prelude::*;

verus! {

/// The estimated tokens of one tool.
#[derive(Debug, Clone, Copy, PartialEq, Eq)]
pub struct ToolEstimate {
    pub name: &'static str,
    pub tokens: u64,
}

/// A tool estimate as a name and a token count.
pub open spec fn entry_view(e: ToolEstimate) -> (Seq<char>, u64) {
    (e.name@, e.tokens)
}

/// The entries of a table.
pub open spec fn table_view(t: Seq<ToolEstimate>) -> Seq<(Seq<char>, u64)> {
    t.map_values(|e: ToolEstimate| entry_view(e))
}

/// The tools of `pi`.
pub open spec fn pi_tools() -> Seq<(Seq<char>, u64)> {
    seq![
        ("bash"@, 128u64),
        ("edit"@, 287u64),
        ("find"@, 147u64),
        ("grep"@, 252u64),
        ("ls"@, 111u64),
        ("powershell"@, 131u64),
        ("read"@, 164u64),
        ("write"@, 100u64),
    ]
}

/// The tools of `omp` whose definitions could be measured.
pub open spec fn omp_tools() -> Seq<(Seq<char>, u64)> {
    seq![
        ("ast_edit"@, 755u64),
        ("bash"@, 553u64),
        ("debug"@, 915u64),
        ("edit"@, 1418u64),
        ("eval"@, 3651u64),
        ("glob"@, 439u64),
        ("grep"@, 318u64),
        ("hub"@, 2698u64),
        ("lsp"@, 539u64),
        ("read"@, 849u64),
        ("task"@, 1268u64),
        ("todo"@, 1203u64),
        ("web_search"@, 290u64),
        ("write"@, 272u64),
    ]
}

/// The tool table of an adapter: `pi` and `omp` have one, others none.
pub open spec fn table_spec(adapter: Seq<char>) -> Option<Seq<(Seq<char>, u64)>> {
    if adapter == "pi"@ {
        Some(pi_tools())
    } else if adapter == "omp"@ {
        Some(omp_tools())
    } else {
        None
    }
}

/// No two entries share a name and every entry costs something.
pub open spec fn well_formed_table(t: Seq<(Seq<char>, u64)>) -> bool {
    &&& t.len() > 0
    &&& forall|i: int, j: int| 0 <= i < j < t.len() ==> (#[trigger] t[i]).0 != (#[trigger] t[j]).0
    &&& forall|i: int| 0 <= i < t.len() ==> (#[trigger] t[i]).1 > 0
}

fn e(name: &'static str, tokens: u64) -> (r: ToolEstimate)
    ensures
        r.name == name,
        r.tokens == tokens,
{
    ToolEstimate { name, tokens }
}

proof fn lemma_tables_well_formed()
    ensures
        well_formed_table(pi_tools()),
        well_formed_table(omp_tools()),
{
    reveal_strlit("bash");
    reveal_strlit("edit");
    reveal_strlit("find");
    reveal_strlit("grep");
    reveal_strlit("ls");
    reveal_strlit("powershell");
    reveal_strlit("read");
    reveal_strlit("write");
    reveal_strlit("ast_edit");
    reveal_strlit("debug");
    reveal_strlit("eval");
    reveal_strlit("glob");
    reveal_strlit("hub");
    reveal_strlit("lsp");
    reveal_strlit("task");
    reveal_strlit("todo");
    reveal_strlit("web_search");
    let p = pi_tools();
    assert forall|i: int, j: int| 0 <= i < j < p.len() implies (#[trigger] p[i]).0 != (#[trigger] p[j]).0 by {
        assert(p[i].0[0] != p[j].0[0] || p[i].0.len() != p[j].0.len() || p[i].0[1] != p[j].0[1]);
    }
    let o = omp_tools();
    assert forall|i: int, j: int| 0 <= i < j < o.len() implies (#[trigger] o[i]).0 != (#[trigger] o[j]).0 by {
        assert(o[i].0[0] != o[j].0[0] || o[i].0.len() != o[j].0.len() || o[i].0[1] != o[j].0[1]);
    }
}

/// The tool table of an adapter, if it has one. Each table is non-empty,
/// its names are distinct and its token counts positive.
pub fn table(adapter: &str) -> (t: Option<Vec<ToolEstimate>>)
    ensures
        match (t, table_spec(adapter@)) {
            (Some(v), Some(s)) => table_view(v@) == s,
            (None, None) => true,
            _ => false,
        },
        t matches Some(v) ==> well_formed_table(table_view(v@)),
{
    proof {
        lemma_tables_well_formed();
    }
    if crate::text::str_eq(adapter, "pi") {
        let v = vec![
            e("bash", 128),
            e("edit", 287),
            e("find", 147),
            e("grep", 252),
            e("ls", 111),
            e("powershell", 131),
            e("read", 164),
            e("write", 100),
        ];
        assert(table_view(v@) =~= pi_tools());
        Some(v)
    } else if crate::text::str_eq(adapter, "omp") {
        let v = vec![
            e("ast_edit", 755),
            e("bash", 553),
            e("debug", 915),
            e("edit", 1418),
            e("eval", 3651),
            e("glob", 439),
            e("grep", 318),
            e("hub", 2698),
            e("lsp", 539),
            e("read", 849),
            e("task", 1268),
            e("todo", 1203),
            e("web_search", 290),
            e("write", 272),
        ];
        assert(table_view(v@) =~= omp_tools());
        Some(v)
    } else {
        None
    }
}

/// The first entry of the table named `name`.
pub open spec fn lookup(t: Seq<(Seq<char>, u64)>, name: Seq<char>) -> Option<u64>
    decreases t.len(),
{
    if t.len() == 0 {
        None
    } else if t[0].0 == name {
        Some(t[0].1)
    } else {
        lookup(t.drop_first(), name)
    }
}

/// The tokens of the selected tools that the table knows.
pub open spec fn known_tokens(t: Seq<(Seq<char>, u64)>, selected: Seq<Seq<char>>) -> nat
    decreases selected.len(),
{
    if selected.len() == 0 {
        0
    } else {
        known_tokens(t, selected.drop_last()) + match lookup(t, selected.last()) {
            Some(n) => n as nat,
            None => 0,
        }
    }
}

/// How many selected tools the table does not know.
pub open spec fn unknown_count(t: Seq<(Seq<char>, u64)>, selected: Seq<Seq<char>>) -> nat
    decreases selected.len(),
{
    if selected.len() == 0 {
        0
    } else {
        unknown_count(t, selected.drop_last()) + if lookup(t, selected.last()) is None {
            1nat
        } else {
            0nat
        }
    }
}

/// The estimate of a selection: the known tools' tokens and how many tools
/// are unestimated; without a table, nothing is estimated.
pub open spec fn estimate_spec(adapter: Seq<char>, selected: Seq<Seq<char>>) -> (nat, nat) {
    match table_spec(adapter) {
        Some(t) => (known_tokens(t, selected), unknown_count(t, selected)),
        None => (0, selected.len()),
    }
}

fn lookup_in(t: &Vec<ToolEstimate>, name: &String) -> (r: Option<u64>)
    ensures
        r == lookup(table_view(t@), name@),
{
    let ghost tv = table_view(t@);
    let mut i: usize = 0;
    assert(tv.skip(0) =~= tv);
    while i < t.len()
        invariant
            0 <= i <= t@.len(),
            tv == table_view(t@),
            lookup(tv, name@) == lookup(tv.skip(i as int), name@),
        decreases t@.len() - i,
    {
        assert(tv.skip(i as int)[0] == entry_view(t@[i as int]));
        assert(tv.skip(i as int).drop_first() =~= tv.skip(i + 1));
        if crate::text::str_eq(t[i].name, name.as_str()) {
            return Some(t[i].tokens);
        }
        i = i + 1;
    }
    None
}

proof fn lemma_known_tokens_prefix(t: Seq<(Seq<char>, u64)>, s: Seq<Seq<char>>, n: int)
    requires
        0 <= n <= s.len(),
    ensures
        known_tokens(t, s.take(n)) <= known_tokens(t, s),
    decreases s.len() - n,
{
    if n < s.len() {
        lemma_known_tokens_prefix(t, s, n + 1);
        assert(s.take(n + 1).drop_last() =~= s.take(n));
    } else {
        assert(s.take(n) =~= s);
    }
}

/// The tool tokens of a selection and how many selected tools are unestimated.
pub fn estimate(adapter: &str, selected: &[String]) -> (r: (u64, usize))
    requires
        estimate_spec(adapter@, crate::text::views(selected@)).0 <= u64::MAX,
    ensures
        r.0 == estimate_spec(adapter@, crate::text::views(selected@)).0,
        r.1 == estimate_spec(adapter@, crate::text::views(selected@)).1,
{
    let ghost sel = crate::text::views(selected@);
    let t = match table(adapter) {
        Some(t) => t,
        None => {
            return (0, selected.len());
        },
    };
    let ghost tv = table_view(t@);
    let mut tokens: u64 = 0;
    let mut unmatched: usize = 0;
    let mut i: usize = 0;
    while i < selected.len()
        invariant
            0 <= i <= selected@.len(),
            sel == crate::text::views(selected@),
            tv == table_view(t@),
            known_tokens(tv, sel) <= u64::MAX,
            tokens == known_tokens(tv, sel.take(i as int)),
            unmatched == unknown_count(tv, sel.take(i as int)),
            unmatched <= i,
        decreases selected@.len() - i,
    {
        proof {
            assert(sel.take(i + 1).drop_last() =~= sel.take(i as int));
            assert(sel.take(i + 1).last() == selected@[i as int]@);
            lemma_known_tokens_prefix(tv, sel, i + 1);
        }
        match lookup_in(&t, &selected[i]) {
            Some(n) => {
                tokens = tokens + n;
            },
            None => {
                unmatched = unmatched + 1;
            },
        }
        i = i + 1;
    }
    assert(sel.take(i as int) =~= sel);
    (tokens, unmatched)
}


/// The selected tools that the table does not know, in order.
pub open spec fn unknown_tools(t: Seq<(Seq<char>, u64)>, selected: Seq<Seq<char>>) -> Seq<Seq<char>>
    decreases selected.len(),
{
    if selected.len() == 0 {
        Seq::empty()
    } else {
        unknown_tools(t, selected.drop_last()) + if lookup(t, selected.last()) is None {
            seq![selected.last()]
        } else {
            Seq::empty()
        }
    }
}

/// The selected tools an adapter's table has no estimate for (none when the
/// adapter has no table at all), to warn about.
pub fn unestimated_tools(adapter: &str, selected: &[String]) -> (r: Vec<String>)
    ensures
        crate::text::views(r@) == match table_spec(adapter@) {
            Some(t) => unknown_tools(t, crate::text::views(selected@)),
            None => Seq::empty(),
        },
{
    let ghost sel = crate::text::views(selected@);
    let mut out: Vec<String> = Vec::new();
    let t = match table(adapter) {
        Some(t) => t,
        None => {
            return out;
        },
    };
    let ghost tv = table_view(t@);
    let mut i: usize = 0;
    while i < selected.len()
        invariant
            0 <= i <= selected@.len(),
            sel == crate::text::views(selected@),
            tv == table_view(t@),
            crate::text::views(out@) == unknown_tools(tv, sel.take(i as int)),
        decreases selected@.len() - i,
    {
        proof {
            assert(sel.take(i + 1).drop_last() =~= sel.take(i as int));
            assert(sel.take(i + 1).last() == selected@[i as int]@);
        }
        let ghost before = crate::text::views(out@);
        match lookup_in(&t, &selected[i]) {
            Some(_) => {
                assert(crate::text::views(out@) =~= before + Seq::<Seq<char>>::empty());
            },
            None => {
                out.push(selected[i].clone());
                assert(crate::text::views(out@) =~= before + seq![selected@[i as int]@]);
            },
        }
        i = i + 1;
    }
    assert(sel.take(i as int) =~= sel);
    out
}

} // verus!
