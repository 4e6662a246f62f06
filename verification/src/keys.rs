//! Keys and what handling one asks the loop to do.
use vstd::prelude::*;

verus! {

#[derive(Debug, Clone, Copy, PartialEq, Eq, Structural)]
pub enum KeyCode {
    Char(char),
    Enter,
    Esc,
    Backspace,
    Tab,
    BackTab,
    Up,
    Down,
    Left,
    Right,
    /// A key without a binding.
    Other,
}

/// A key, and whether Control was held.
#[derive(Debug, Clone, Copy, PartialEq, Eq, Structural)]
pub struct KeyEvent {
    pub code: KeyCode,
    pub ctrl: bool,
}

impl KeyEvent {
    /// A key pressed on its own.
    #[verifier::allow_in_spec]
    pub fn plain(code: KeyCode) -> KeyEvent
        returns
            (KeyEvent { code, ctrl: false }),
    {
        KeyEvent { code, ctrl: false }
    }

    /// A key pressed with Control.
    #[verifier::allow_in_spec]
    pub fn with_ctrl(code: KeyCode) -> KeyEvent
        returns
            (KeyEvent { code, ctrl: true }),
    {
        KeyEvent { code, ctrl: true }
    }
}

/// Action returned by key handling for the render loop.
#[derive(Debug, Clone, Copy, PartialEq, Eq, Structural)]
pub enum Action {
    /// Nothing beyond the change of state.
    Idle,
    Quit,
    Refresh,
    ReloadConfig,
    ToggleConfig,
    OpenWizard,
    CloseWizard,
}

} // verus!
