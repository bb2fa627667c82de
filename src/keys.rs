use vstd::prelude::*;

verus! {

/// A key, as the UI reacts to it.
#[derive(Clone, Copy, Debug, PartialEq, Eq, Structural)]
pub enum KeyCode {
    Char(char),
    Enter,
    Tab,
    BackTab,
    Backspace,
    Delete,
    Left,
    Right,
    Up,
    Down,
    Home,
    End,
    Esc,
    /// Any key the UI has no use for.
    Other,
}

/// The modifier keys held with a key, when they matter: exactly Control,
/// exactly Alt, none, or some other combination.
#[derive(Clone, Copy, Debug, PartialEq, Eq, Structural)]
pub enum Modifiers {
    NoModifier,
    Control,
    Alt,
    Mixed,
}

/// One key press.
#[derive(Clone, Copy, Debug, PartialEq, Eq, Structural)]
pub struct KeyPress {
    pub code: KeyCode,
    pub modifiers: Modifiers,
}

impl KeyPress {
    /// A key pressed alone.
    pub fn plain(code: KeyCode) -> (r: KeyPress)
        ensures
            r.code == code,
            r.modifiers == Modifiers::NoModifier,
    {
        KeyPress { code, modifiers: Modifiers::NoModifier }
    }
}

} // verus!
