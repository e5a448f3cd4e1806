//! Keyboard layouts: how keys map to characters.
use vstd::prelude::*;

use crate::keyboard::decode::{DecodedKey, HandleControl, Modifiers};
use crate::keyboard::keycode::KeyCode;

verus! {

/// The physical arrangement of a keyboard.
#[derive(Debug, PartialEq, Eq, Structural, Clone, Copy)]
pub enum PhysicalKeyboard {
    Iso,
    Ansi,
    Jis,
}

/// A keyboard layout maps a key pressed under given modifiers to what it
/// types.
pub trait KeyboardLayout {
    /// What the layout maps `keycode` to under `modifiers`.
    spec fn map_keycode_spec(&self, keycode: KeyCode, modifiers: Modifiers, handle_ctrl: HandleControl) -> DecodedKey;

    /// Maps `keycode` pressed under `modifiers`.
    fn map_keycode(&self, keycode: KeyCode, modifiers: &Modifiers, handle_ctrl: HandleControl) -> (r:
        DecodedKey)
        ensures
            r == self.map_keycode_spec(keycode, *modifiers, handle_ctrl),
    ;

    /// The physical arrangement the layout is made for.
    fn get_physical(&self) -> PhysicalKeyboard;
}

} // verus!
