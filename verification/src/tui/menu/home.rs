//! The menu's home screen: the four places the menu leads to.
use crate::tui::menu::Action;
use crate::tui::view::{lines_view, marker, marker_str, push_line, text_of, two, Seg, Tone};
use crate::tui::KeyPress;
use vstd::prelude::*;

verus! {

/// The home screen: which row the cursor is on.
#[derive(Debug, Clone, Copy, PartialEq, Eq, Structural)]
pub struct HomeState {
    pub cursor: usize,
}

impl Default for HomeState {
    fn default() -> (s: Self)
        ensures
            s.cursor == 0,
    {
        HomeState { cursor: 0 }
    }
}

/// Where a home row leads.
#[derive(Debug, Clone, Copy, PartialEq, Eq, Structural)]
pub enum Route {
    Pantry,
    Manifests,
    Doctor,
    Policy,
}

impl Route {
    pub open spec fn label_spec(self) -> Seq<char> {
        match self {
            Route::Pantry => "Pantry"@,
            Route::Manifests => "Manifests"@,
            Route::Doctor => "Doctor"@,
            Route::Policy => "Policy"@,
        }
    }

    /// The row's label.
    pub fn label(self) -> (s: &'static str)
        ensures
            s@ == self.label_spec(),
    {
        match self {
            Route::Pantry => "Pantry",
            Route::Manifests => "Manifests",
            Route::Doctor => "Doctor",
            Route::Policy => "Policy",
        }
    }
}

/// How many rows the home screen has.
pub const ROW_COUNT: usize = 4;

/// The route of row `i`, top to bottom; the last row for anything beyond.
pub open spec fn row_spec(i: nat) -> Route {
    if i == 0 {
        Route::Pantry
    } else if i == 1 {
        Route::Manifests
    } else if i == 2 {
        Route::Doctor
    } else {
        Route::Policy
    }
}

/// The route of row `i`.
pub fn row(i: usize) -> (r: Route)
    requires
        i < ROW_COUNT,
    ensures
        r == row_spec(i as nat),
{
    if i == 0 {
        Route::Pantry
    } else if i == 1 {
        Route::Manifests
    } else if i == 2 {
        Route::Doctor
    } else {
        Route::Policy
    }
}

/// What `handle_key` does (its contract).
pub open spec fn home_key_post(o: HomeState, f: HomeState, key: KeyPress, a: Action) -> bool {
    &&& (f.cursor < ROW_COUNT)
    &&& (!key.press ==> a == Action::Continue && f == o)
    &&& (key.press && key.is_quit() ==> a == Action::Quit && f == o)
    &&& (key.press && !key.is_quit() && key.is_up() ==> a == Action::Continue && f.cursor == if o.cursor > 0 { o.cursor - 1 } else { 0 })
    &&& (key.press && !key.is_quit() && !key.is_up() && key.is_down() ==> a == Action::Continue && f.cursor == if o.cursor + 1 < ROW_COUNT { o.cursor + 1 } else { ROW_COUNT - 1 })
    &&& (key.press && !key.is_quit() && !key.is_up() && !key.is_down() && key.key == crate::tui::Key::Enter ==> a == Action::Open(row_spec(o.cursor as nat)) && f == o)
    &&& (key.press && !key.is_quit() && !key.is_up() && !key.is_down() && key.key != crate::tui::Key::Enter ==> a == Action::Continue && f == o)
}

/// What a key does on the home screen: `q`/Escape quit; up/`k` and down/`j`
/// move within the rows; Enter opens the row under the cursor.
pub fn handle_key(state: &mut HomeState, key: &KeyPress) -> (a: Action)
    requires
        old(state).cursor < ROW_COUNT,
    ensures
        home_key_post(*old(state), *final(state), *key, a),
{
    if !key.press {
        return Action::Continue;
    }
    if key.quit() {
        return Action::Quit;
    }
    if key.up() {
        state.cursor = if state.cursor > 0 { state.cursor - 1 } else { 0 };
        return Action::Continue;
    }
    if key.down() {
        state.cursor = if state.cursor + 1 < ROW_COUNT { state.cursor + 1 } else { ROW_COUNT - 1 };
        return Action::Continue;
    }
    if key.key == crate::tui::Key::Enter {
        return Action::Open(row(state.cursor));
    }
    Action::Continue
}

/// Row `i` of the home screen: the cursor marker and the route's label, bold
/// under the cursor.
pub open spec fn home_line(cursor: usize, i: int) -> Seq<(Seq<char>, Tone)> {
    seq![(marker(i == cursor), Tone::Plain), (row_spec(i as nat).label_spec(), if i == cursor { Tone::Bold } else { Tone::Plain })]
}

/// The home screen: one line per row.
pub open spec fn home_screen(s: HomeState) -> Seq<Seq<(Seq<char>, Tone)>> {
    Seq::new(ROW_COUNT as nat, |i: int| home_line(s.cursor, i))
}

/// The home screen (see `home_screen`).
pub fn render(state: &HomeState) -> (lines: Vec<Vec<Seg>>)
    ensures
        lines_view(lines@) == home_screen(*state),
{
    let mut lines: Vec<Vec<Seg>> = Vec::new();
    let mut i: usize = 0;
    while i < ROW_COUNT
        invariant
            0 <= i <= ROW_COUNT,
            lines_view(lines@) == Seq::new(i as nat, |k: int| home_line(state.cursor, k)),
        decreases ROW_COUNT - i,
    {
        let here = i == state.cursor;
        let ghost before = lines_view(lines@);
        push_line(
            &mut lines,
            two(text_of(marker_str(here)), Tone::Plain, text_of(row(i).label()), if here { Tone::Bold } else { Tone::Plain }),
        );
        assert(lines_view(lines@) =~= Seq::new((i + 1) as nat, |k: int| home_line(state.cursor, k)));
        i = i + 1;
    }
    lines
}

} // verus!
