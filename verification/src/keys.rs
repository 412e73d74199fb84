//! Key events.

use vstd::prelude::*;

verus! {

/// A key.
#[derive(Clone, Copy, PartialEq, Eq, Debug, Structural)]
pub enum KeyCode {
    Esc,
    Enter,
    Tab,
    Backspace,
    Delete,
    Left,
    Right,
    Up,
    Down,
    Home,
    End,
    PageUp,
    PageDown,
    Char(char),
    /// A key that does nothing here.
    Other,
}

/// The keys held down with another one.
#[derive(Clone, Copy, PartialEq, Eq, Debug, Structural)]
pub struct KeyModifiers {
    pub control: bool,
    pub alt: bool,
    pub shift: bool,
}

impl KeyModifiers {
    /// No key held down.
    pub fn none() -> (m: KeyModifiers)
        ensures
            m == (KeyModifiers { control: false, alt: false, shift: false }),
    {
        KeyModifiers { control: false, alt: false, shift: false }
    }

    /// The control key held down.
    pub fn control() -> (m: KeyModifiers)
        ensures
            m == (KeyModifiers { control: true, alt: false, shift: false }),
    {
        KeyModifiers { control: true, alt: false, shift: false }
    }

    /// The alt key held down.
    pub fn alt() -> (m: KeyModifiers)
        ensures
            m == (KeyModifiers { control: false, alt: true, shift: false }),
    {
        KeyModifiers { control: false, alt: true, shift: false }
    }

    /// The shift key held down.
    pub fn shift() -> (m: KeyModifiers)
        ensures
            m == (KeyModifiers { control: false, alt: false, shift: true }),
    {
        KeyModifiers { control: false, alt: false, shift: true }
    }
}

/// What happened to a key.
#[derive(Clone, Copy, PartialEq, Eq, Debug, Structural)]
pub enum KeyEventKind {
    Press,
    Repeat,
    Release,
}

/// A key event.
#[derive(Clone, Copy, PartialEq, Eq, Debug, Structural)]
pub struct KeyEvent {
    pub code: KeyCode,
    pub modifiers: KeyModifiers,
    pub kind: KeyEventKind,
}

impl KeyEvent {
    /// A key that was pressed.
    pub fn new(code: KeyCode, modifiers: KeyModifiers) -> (k: KeyEvent)
        ensures
            k == (KeyEvent { code, modifiers, kind: KeyEventKind::Press }),
    {
        KeyEvent { code, modifiers, kind: KeyEventKind::Press }
    }
}

} // verus!
