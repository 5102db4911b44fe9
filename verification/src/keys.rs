//! Key presses as the editor and the TUI state machines read them.
use vstd::prelude::*;

verus! {

/// The key that was pressed.
#[derive(Clone, Copy, PartialEq, Eq, Debug, Structural)]
pub enum KeyCode {
    Char(char),
    Esc,
    Enter,
    Backspace,
    Tab,
    Delete,
    Left,
    Right,
    Up,
    Down,
    Home,
    End,
    /// Any key the state machines do not react to by name.
    Other,
}

/// A key press: the key and the modifiers held with it.
#[derive(Clone, Copy, PartialEq, Eq, Debug, Structural)]
pub struct Key {
    pub code: KeyCode,
    /// The Control modifier was held.
    pub ctrl: bool,
    /// Some modifier other than Control (Shift, Alt, ...) was held.
    pub other_modifiers: bool,
}

impl Key {
    /// A key pressed with no modifier at all.
    pub open spec fn spec_plain(&self) -> bool {
        !self.ctrl && !self.other_modifiers
    }

    /// A key pressed with Control and nothing else.
    pub open spec fn spec_ctrl_only(&self) -> bool {
        self.ctrl && !self.other_modifiers
    }

    /// No modifier was held.
    #[verifier::when_used_as_spec(spec_plain)]
    pub fn plain(&self) -> (r: bool)
        ensures
            r == self.spec_plain(),
    {
        !self.ctrl && !self.other_modifiers
    }

    /// Exactly the Control modifier was held.
    #[verifier::when_used_as_spec(spec_ctrl_only)]
    pub fn ctrl_only(&self) -> (r: bool)
        ensures
            r == self.spec_ctrl_only(),
    {
        self.ctrl && !self.other_modifiers
    }
}

} // verus!
