//! Keys, as the terminal reports them.

use vstd::prelude::*;

verus! {

/// A key.
#[derive(Clone, Copy, PartialEq, Eq, Structural, Debug)]
pub enum KeyCode {
    Char(char),
    Enter,
    Esc,
    Tab,
    BackTab,
    Backspace,
    Delete,
    Up,
    Down,
    Left,
    Right,
    Home,
    End,
    PageUp,
    PageDown,
    Insert,
    /// A function key.
    F(u8),
    /// Any other key.
    Other,
}

/// A key with the modifiers held down.
#[derive(Clone, Copy, PartialEq, Eq, Structural, Debug)]
pub struct KeyEvent {
    pub code: KeyCode,
    pub ctrl: bool,
    pub alt: bool,
    pub shift: bool,
    /// Super, Hyper or Meta.
    pub other: bool,
}

/// A key without modifiers.
pub open spec fn plain_key(code: KeyCode) -> KeyEvent {
    KeyEvent { code, ctrl: false, alt: false, shift: false, other: false }
}

impl KeyEvent {
    /// A key without modifiers.
    pub fn plain(code: KeyCode) -> (k: KeyEvent)
        ensures
            k == plain_key(code),
    {
        KeyEvent { code, ctrl: false, alt: false, shift: false, other: false }
    }

    /// A key with Ctrl.
    pub fn ctrl(code: KeyCode) -> (k: KeyEvent)
        ensures
            k == (KeyEvent { ctrl: true, ..plain_key(code) }),
    {
        KeyEvent { code, ctrl: true, alt: false, shift: false, other: false }
    }

    /// A key with Alt.
    pub fn alt(code: KeyCode) -> (k: KeyEvent)
        ensures
            k == (KeyEvent { alt: true, ..plain_key(code) }),
    {
        KeyEvent { code, ctrl: false, alt: true, shift: false, other: false }
    }
}

} // verus!
