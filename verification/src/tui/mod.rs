//! The terminal screens' state machines: what each key does to a screen's
//! state, what the screen asks its driver to do (start a run, write a file),
//! and the lines each screen shows. Terminal handling lives with the driver.
pub mod doctor;
pub mod menu;
pub mod picker;
pub mod policy;
pub mod preview;
pub mod view;

use vstd::prelude::*;

verus! {

/// A key, as the screens tell keys apart.
#[derive(Debug, Clone, Copy, PartialEq, Eq, Structural)]
pub enum Key {
    Char(char),
    Up,
    Down,
    Left,
    Right,
    Home,
    End,
    Enter,
    Esc,
    Tab,
    BackTab,
    Backspace,
    Other,
}

/// A key event: the key, whether no modifier was held, whether Shift alone
/// was held, and whether it is a press (releases and repeats are ignored).
#[derive(Debug, Clone, Copy, PartialEq, Eq, Structural)]
pub struct KeyPress {
    pub key: Key,
    pub plain: bool,
    pub shift: bool,
    pub press: bool,
}

impl KeyPress {
    /// A press of `key` with no modifier.
    pub fn plain(key: Key) -> (k: KeyPress)
        ensures
            k.key == key,
            k.plain,
            !k.shift,
            k.press,
    {
        KeyPress { key, plain: true, shift: false, press: true }
    }

    /// Whether this is a press of `c` with no modifier.
    pub open spec fn is_plain_char(self, c: char) -> bool {
        self.key == Key::Char(c) && self.plain
    }

    /// Up, or `k` without modifiers.
    pub open spec fn is_up(self) -> bool {
        self.key == Key::Up || self.is_plain_char('k')
    }

    /// Down, or `j` without modifiers.
    pub open spec fn is_down(self) -> bool {
        self.key == Key::Down || self.is_plain_char('j')
    }

    /// `q` (with any modifiers) or Escape.
    pub open spec fn is_quit(self) -> bool {
        self.key == Key::Char('q') || self.key == Key::Esc
    }

    pub fn up(&self) -> (b: bool)
        ensures
            b == self.is_up(),
    {
        match self.key {
            Key::Up => true,
            Key::Char(c) => c == 'k' && self.plain,
            _ => false,
        }
    }

    pub fn down(&self) -> (b: bool)
        ensures
            b == self.is_down(),
    {
        match self.key {
            Key::Down => true,
            Key::Char(c) => c == 'j' && self.plain,
            _ => false,
        }
    }

    pub fn quit(&self) -> (b: bool)
        ensures
            b == self.is_quit(),
    {
        match self.key {
            Key::Esc => true,
            Key::Char(c) => c == 'q',
            _ => false,
        }
    }

    pub fn plain_char(&self, c: char) -> (b: bool)
        ensures
            b == self.is_plain_char(c),
    {
        match self.key {
            Key::Char(d) => d == c && self.plain,
            _ => false,
        }
    }
}

/// A cursor moved by `delta` and kept within `0..len` (left alone when the list is empty).
pub open spec fn moved_cursor(cursor: int, delta: int, len: int) -> int {
    if len == 0 {
        cursor
    } else if cursor + delta < 0 {
        0
    } else if cursor + delta > len - 1 {
        len - 1
    } else {
        cursor + delta
    }
}

/// Moves a cursor by one step up (`down == false`) or down within a list of `len` entries.
pub fn step_cursor(cursor: usize, down: bool, len: usize) -> (c: usize)
    ensures
        c == moved_cursor(cursor as int, if down { 1int } else { -1int }, len as int),
{
    if len == 0 {
        cursor
    } else if down {
        if cursor >= len - 1 {
            len - 1
        } else {
            cursor + 1
        }
    } else {
        if cursor == 0 {
            0
        } else if cursor - 1 > len - 1 {
            len - 1
        } else {
            cursor - 1
        }
    }
}

} // verus!
