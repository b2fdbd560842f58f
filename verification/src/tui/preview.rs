//! The preview screen: pick skills from the library and see what the pack
//! costs against the whole menu and the budget.
use crate::library::ListedSkill;
use crate::text::{views};
use crate::tui::{moved_cursor, step_cursor, Key, KeyPress};
use vstd::prelude::*;

verus! {

/// What the driver does after a key.
#[derive(Debug, Clone, Copy, PartialEq, Eq, Structural)]
pub enum Action {
    Continue,
    Quit,
}

/// The preview screen.
#[derive(Debug, Clone, PartialEq)]
pub struct PreviewState {
    pub library: Vec<ListedSkill>,
    pub selected: Vec<bool>,
    pub cursor: usize,
    pub without_menu_tokens: u64,
    pub max_menu_tokens: u64,
}

/// The tokens of the skills whose flag is set.
pub open spec fn selected_sum(library: Seq<ListedSkill>, selected: Seq<bool>) -> nat
    decreases library.len(),
{
    if library.len() == 0 {
        0
    } else {
        selected_sum(library.drop_last(), selected) + if library.len() - 1 < selected.len()
            && selected[library.len() - 1] {
            library.last().tokens as nat
        } else {
            0nat
        }
    }
}

/// The tokens of every skill listed.
pub open spec fn listing_sum(library: Seq<ListedSkill>) -> nat
    decreases library.len(),
{
    if library.len() == 0 {
        0
    } else {
        listing_sum(library.drop_last()) + library.last().tokens as nat
    }
}

proof fn lemma_selected_sum_bound(library: Seq<ListedSkill>, selected: Seq<bool>)
    ensures
        selected_sum(library, selected) <= listing_sum(library),
    decreases library.len(),
{
    if library.len() > 0 {
        lemma_selected_sum_bound(library.drop_last(), selected);
    }
}

proof fn lemma_selected_sum_prefix(library: Seq<ListedSkill>, selected: Seq<bool>, n: int)
    requires
        0 <= n <= library.len(),
    ensures
        selected_sum(library.take(n), selected) <= selected_sum(library, selected),
    decreases library.len() - n,
{
    if n < library.len() {
        lemma_selected_sum_prefix(library, selected, n + 1);
        assert(library.take(n + 1).drop_last() =~= library.take(n));
    } else {
        assert(library.take(n) =~= library);
    }
}

/// Whether the tokens of the whole listing fit in a `u64`, as every sum of
/// selected tokens then does.
pub fn listing_tokens_fit(library: &Vec<ListedSkill>) -> (b: bool)
    ensures
        b == (listing_sum(library@) <= u64::MAX),
{
    let mut total: u128 = 0;
    let mut i: usize = 0;
    while i < library.len()
        invariant
            0 <= i <= library@.len(),
            total == listing_sum(library@.take(i as int)),
            total <= u64::MAX,
        decreases library@.len() - i,
    {
        assert(library@.take(i + 1).drop_last() =~= library@.take(i as int));
        total = total + library[i].tokens as u128;
        if total > u64::MAX as u128 {
            proof {
                lemma_listing_sum_prefix(library@, i + 1);
            }
            return false;
        }
        i = i + 1;
    }
    assert(library@.take(i as int) =~= library@);
    true
}

pub proof fn lemma_listing_sum_prefix(library: Seq<ListedSkill>, n: int)
    requires
        0 <= n <= library.len(),
    ensures
        listing_sum(library.take(n)) <= listing_sum(library),
    decreases library.len() - n,
{
    if n < library.len() {
        lemma_listing_sum_prefix(library, n + 1);
        assert(library.take(n + 1).drop_last() =~= library.take(n));
    } else {
        assert(library.take(n) =~= library);
    }
}

impl PreviewState {
    /// One flag per listed skill, and token sums that fit in a `u64`.
    pub open spec fn wf(&self) -> bool {
        &&& self.selected@.len() == self.library@.len()
        &&& listing_sum(self.library@) <= u64::MAX
    }

    /// A screen over `library` with nothing selected and the cursor on the first skill.
    pub fn new(library: Vec<ListedSkill>, without_menu_tokens: u64, max_menu_tokens: u64) -> (s: Self)
        requires
            listing_sum(library@) <= u64::MAX,
        ensures
            s.wf(),
            s.library == library,
            s.selected@ == Seq::new(library@.len(), |i: int| false),
            s.cursor == 0,
            s.without_menu_tokens == without_menu_tokens,
            s.max_menu_tokens == max_menu_tokens,
    {
        let mut selected: Vec<bool> = Vec::new();
        let mut i: usize = 0;
        while i < library.len()
            invariant
                0 <= i <= library@.len(),
                selected@ == Seq::new(i as nat, |k: int| false),
            decreases library@.len() - i,
        {
            selected.push(false);
            assert(selected@ =~= Seq::new((i + 1) as nat, |k: int| false));
            i = i + 1;
        }
        PreviewState { library, selected, cursor: 0, without_menu_tokens, max_menu_tokens }
    }

    /// The tokens of the selected skills.
    pub fn selected_tokens(&self) -> (t: u64)
        requires
            self.wf(),
        ensures
            t == selected_sum(self.library@, self.selected@),
    {
        proof {
            lemma_selected_sum_bound(self.library@, self.selected@);
        }
        let mut total: u64 = 0;
        let mut i: usize = 0;
        while i < self.library.len()
            invariant
                0 <= i <= self.library@.len(),
                self.wf(),
                selected_sum(self.library@, self.selected@) <= u64::MAX,
                total == selected_sum(self.library@.take(i as int), self.selected@),
            decreases self.library@.len() - i,
        {
            proof {
                assert(self.library@.take(i + 1).drop_last() =~= self.library@.take(i as int));
                lemma_selected_sum_prefix(self.library@, self.selected@, i + 1);
            }
            if self.selected[i] {
                total = total + self.library[i].tokens;
            }
            i = i + 1;
        }
        assert(self.library@.take(i as int) =~= self.library@);
        total
    }

    /// Selects exactly the skills named in `names`.
    pub fn preselect(&mut self, names: &[String])
        requires
            old(self).wf(),
        ensures
            final(self).wf(),
            final(self).library == old(self).library,
            final(self).cursor == old(self).cursor,
            final(self).without_menu_tokens == old(self).without_menu_tokens,
            final(self).max_menu_tokens == old(self).max_menu_tokens,
            forall|i: int| 0 <= i < final(self).selected@.len() ==> #[trigger] final(self).selected@[i]
                == views(names@).contains(old(self).library@[i].name@),
    {
        let ghost lib = self.library@;
        let mut i: usize = 0;
        while i < self.selected.len()
            invariant
                0 <= i <= self.selected@.len(),
                self.library@ == lib,
                self.wf(),
                self.library == old(self).library,
                self.cursor == old(self).cursor,
                self.without_menu_tokens == old(self).without_menu_tokens,
                self.max_menu_tokens == old(self).max_menu_tokens,
                forall|k: int| 0 <= k < i ==> #[trigger] self.selected@[k] == views(names@).contains(lib[k].name@),
            decreases self.selected@.len() - i,
        {
            let mut found = false;
            let mut j: usize = 0;
            while j < names.len()
                invariant
                    0 <= j <= names@.len(),
                    0 <= i < lib.len(),
                    self.library@ == lib,
                    found == exists|m: int| 0 <= m < j && (#[trigger] names@[m])@ == lib[i as int].name@,
                decreases names@.len() - j,
            {
                if names[j].eq(&self.library[i].name) {
                    found = true;
                }
                j = j + 1;
            }
            proof {
                if found {
                    let m = choose|m: int| 0 <= m < j && (#[trigger] names@[m])@ == lib[i as int].name@;
                    assert(views(names@)[m] == lib[i as int].name@);
                }
                if views(names@).contains(lib[i as int].name@) {
                    let m = choose|m: int| 0 <= m < views(names@).len() && views(names@)[m] == lib[i as int].name@;
                    assert(names@[m]@ == lib[i as int].name@);
                }
            }
            self.selected.set(i, found);
            i = i + 1;
        }
    }

    /// Whether the selected skills cost more than the budget allows.
    pub fn over_budget(&self) -> (b: bool)
        requires
            self.wf(),
        ensures
            b == (selected_sum(self.library@, self.selected@) > self.max_menu_tokens),
    {
        self.selected_tokens() > self.max_menu_tokens
    }
}

/// What a key does to the preview screen: `q`/Escape quit; up/down (or
/// `k`/`j`) move the cursor within the list; Space toggles the skill under
/// the cursor; `a` selects all and `n` none. Everything else is ignored.
pub fn handle_key(state: &mut PreviewState, key: &KeyPress) -> (a: Action)
    requires
        old(state).wf(),
    ensures
        final(state).wf(),
        final(state).library == old(state).library,
        final(state).without_menu_tokens == old(state).without_menu_tokens,
        final(state).max_menu_tokens == old(state).max_menu_tokens,
        !key.press ==> a == Action::Continue && *final(state) == *old(state),
        key.press && key.is_quit() ==> a == Action::Quit && *final(state) == *old(state),
        key.press && !key.is_quit() ==> a == Action::Continue,
        key.press && !key.is_quit() && key.is_up() ==> final(state).cursor == moved_cursor(
            old(state).cursor as int, -1, old(state).library@.len() as int) && final(state).selected == old(state).selected,
        key.press && !key.is_quit() && !key.is_up() && key.is_down() ==> final(state).cursor == moved_cursor(
            old(state).cursor as int, 1, old(state).library@.len() as int) && final(state).selected == old(state).selected,
        key.press && !key.is_quit() && !key.is_up() && !key.is_down() && key.key == Key::Char(' ') ==> {
            &&& final(state).cursor == old(state).cursor
            &&& old(state).cursor < old(state).selected@.len() ==> final(state).selected@ == old(state).selected@.update(
                old(state).cursor as int, !old(state).selected@[old(state).cursor as int])
            &&& old(state).cursor >= old(state).selected@.len() ==> final(state).selected == old(state).selected
        },
        key.press && !key.is_quit() && !key.is_up() && !key.is_down() && key.key != Key::Char(' ') && key.is_plain_char('a')
            ==> final(state).cursor == old(state).cursor && final(state).selected@ == Seq::new(old(state).selected@.len(), |i: int| true),
        key.press && !key.is_quit() && !key.is_up() && !key.is_down() && key.key != Key::Char(' ') && key.is_plain_char('n')
            ==> final(state).cursor == old(state).cursor && final(state).selected@ == Seq::new(old(state).selected@.len(), |i: int| false),
        key.press && !key.is_quit() && !key.is_up() && !key.is_down() && key.key != Key::Char(' ') && !key.is_plain_char('a')
            && !key.is_plain_char('n') ==> *final(state) == *old(state),
{
    if !key.press {
        return Action::Continue;
    }
    if key.quit() {
        return Action::Quit;
    }
    if key.up() {
        state.cursor = step_cursor(state.cursor, false, state.library.len());
        return Action::Continue;
    }
    if key.down() {
        state.cursor = step_cursor(state.cursor, true, state.library.len());
        return Action::Continue;
    }
    if key.key == Key::Char(' ') {
        if state.cursor < state.selected.len() {
            let flag = state.selected[state.cursor];
            let c = state.cursor;
            state.selected.set(c, !flag);
        }
        return Action::Continue;
    }
    if key.plain_char('a') || key.plain_char('n') {
        let value = key.plain_char('a');
        let n = state.selected.len();
        let mut i: usize = 0;
        while i < n
            invariant
                0 <= i <= n,
                n == state.selected@.len(),
                state.library == old(state).library,
                state.cursor == old(state).cursor,
                state.without_menu_tokens == old(state).without_menu_tokens,
                state.max_menu_tokens == old(state).max_menu_tokens,
                old(state).wf(),
                n == old(state).selected@.len(),
                forall|k: int| 0 <= k < i ==> #[trigger] state.selected@[k] == value,
            decreases n - i,
        {
            state.selected.set(i, value);
            i = i + 1;
        }
        assert(state.selected@ =~= Seq::new(n as nat, |k: int| value));
        return Action::Continue;
    }
    Action::Continue
}

} // verus!
