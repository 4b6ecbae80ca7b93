//! Key events.

use vstd::prelude::*;

verus! {

/// A key.
#[derive(Debug, Clone, Copy, PartialEq, Eq, Structural)]
pub enum KeyCode {
    Char(char),
    Enter,
    Esc,
    Backspace,
    Up,
    Down,
    Left,
    Right,
    Home,
    End,
    PageUp,
    PageDown,
    Tab,
    BackTab,
    /// Any other key.
    Other,
}

/// The modifier keys that are held.
#[derive(Debug, Clone, Copy, PartialEq, Eq, Structural)]
pub struct KeyModifiers {
    pub control: bool,
    pub shift: bool,
    pub alt: bool,
}

impl KeyModifiers {
    pub fn none() -> (r: Self)
        ensures
            r == (KeyModifiers { control: false, shift: false, alt: false }),
    {
        KeyModifiers { control: false, shift: false, alt: false }
    }

    pub fn control() -> (r: Self)
        ensures
            r == (KeyModifiers { control: true, shift: false, alt: false }),
    {
        KeyModifiers { control: true, shift: false, alt: false }
    }

    pub fn shift() -> (r: Self)
        ensures
            r == (KeyModifiers { control: false, shift: true, alt: false }),
    {
        KeyModifiers { control: false, shift: true, alt: false }
    }
}

/// A key press.
#[derive(Debug, Clone, Copy, PartialEq, Eq, Structural)]
pub struct KeyEvent {
    pub code: KeyCode,
    pub modifiers: KeyModifiers,
}

impl KeyEvent {
    pub fn new(code: KeyCode, modifiers: KeyModifiers) -> (r: Self)
        ensures
            r == (KeyEvent { code, modifiers }),
    {
        KeyEvent { code, modifiers }
    }
}

} // verus!
