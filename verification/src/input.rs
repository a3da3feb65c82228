//! Keys as the application hands them to the library.

use vstd::prelude::*;

verus! {

/// A key of the keyboard.
#[derive(Clone, Copy, PartialEq, Eq, Structural, Debug)]
pub enum KeyCode {
    Left,
    Right,
    Up,
    Down,
    Home,
    End,
    PageUp,
    PageDown,
    Enter,
    Tab,
    BackTab,
    Backspace,
    Delete,
    Esc,
    F(u8),
    Char(char),
    /// A key the explorer binds nothing to.
    Other,
}

/// A key event: the key, the modifiers held with it, and whether it is a press (and not a repeat or
/// a release).
#[derive(Clone, Copy, PartialEq, Eq, Structural, Debug)]
pub struct KeyEvent {
    pub code: KeyCode,
    pub ctrl: bool,
    pub alt: bool,
    pub shift: bool,
    pub press: bool,
}

impl KeyEvent {
    /// A key press with no modifier held.
    pub fn plain(code: KeyCode) -> (r: KeyEvent)
        ensures
            r == (KeyEvent { code, ctrl: false, alt: false, shift: false, press: true }),
    {
        KeyEvent { code, ctrl: false, alt: false, shift: false, press: true }
    }
}

} // verus!
