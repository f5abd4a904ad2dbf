//! Key events as the interactive tools see them.

use vstd::prelude::*;

verus! {

/// A key press: the keys the interactive views react to, a typed
/// character, or any other key.
#[derive(Debug, Clone, Copy, PartialEq, Eq, Structural)]
pub enum Key {
    Char(char),
    Enter,
    Esc,
    Tab,
    Backspace,
    Up,
    Down,
    Left,
    Right,
    Other,
}

} // verus!
