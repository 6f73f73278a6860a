use vstd::prelude::*;

verus! {

/// The key that was pressed, as far as the planner tells keys apart.
#[derive(Clone, Copy, PartialEq, Eq, Structural, Debug)]
pub enum KeyCode {
    Char(char),
    Enter,
    Esc,
    Tab,
    BackTab,
    Left,
    Right,
    Up,
    Down,
    Home,
    End,
    Backspace,
    Delete,
    /// Any key the planner gives no meaning to.
    Other,
}

/// A key press with the modifiers that were held.
#[derive(Clone, Copy, PartialEq, Eq, Structural, Debug)]
pub struct KeyEvent {
    pub code: KeyCode,
    pub shift: bool,
    pub ctrl: bool,
    pub alt: bool,
}

/// A press of `code` with no modifier held.
pub open spec fn pressed(code: KeyCode) -> KeyEvent {
    KeyEvent { code, shift: false, ctrl: false, alt: false }
}

impl KeyEvent {
    /// A press of `code` with no modifier held.
    pub fn plain(code: KeyCode) -> (k: KeyEvent)
        ensures
            k == pressed(code),
    {
        KeyEvent { code, shift: false, ctrl: false, alt: false }
    }
}

} // verus!
