//! The key presses that the front end reacts to.

use vstd::prelude::*;

verus! {

/// The key of a key event, as far as the front end tells keys apart.
#[derive(Debug, Clone, Copy, PartialEq, Eq, Structural)]
pub enum KeyCode {
    Char(char),
    Backspace,
    Enter,
    Esc,
    Tab,
    Up,
    Down,
    Other,
}

/// A key event: the key, and whether it was pressed rather than released
/// or repeated.
#[derive(Debug, Clone, Copy, PartialEq, Eq, Structural)]
pub struct KeyEvent {
    pub code: KeyCode,
    pub pressed: bool,
}

} // verus!
