//! Modifier state and the decoded form of key presses.
use vstd::prelude::*;

use crate::keyboard::keycode::KeyCode;

verus! {

/// Number of bits in a PS/2 frame: start bit, eight data bits, parity, stop bit.
pub const KEYCODE_BITS: u8 = 11;
/// Prefix byte of extended scancodes.
pub const EXTENDED_KEY_CODE: u8 = 0xE0;
/// Prefix byte of the second extended scancode set.
pub const EXTENDED2_KEY_CODE: u8 = 0xE1;
/// Byte that announces a key release.
pub const KEY_RELEASE_CODE: u8 = 0xF0;

/// The single quote character.
pub const QUO: char = '\'';
/// The backslash character.
pub const SLS: char = '\\';

/// Whether control combinations with letters produce control characters.
#[derive(Debug, PartialEq, Eq, Structural, Clone, Copy)]
pub enum HandleControl {
    Ignore,
    MapLettersToUnicode,
}

/// The state of the modifier keys.
#[derive(Debug, Default, Clone, Copy, Eq, PartialEq, Structural, Hash)]
pub struct Modifiers {
    pub lshift: bool,
    pub rshift: bool,
    pub lctrl: bool,
    pub rctrl: bool,
    pub numlock: bool,
    pub capslock: bool,
    pub lalt: bool,
    pub ralt: bool,
    pub rctrl2: bool,
}

/// A decoded key press: a key without a character, or a character.
#[derive(Debug, PartialEq, Eq, Structural, Clone, Copy)]
pub enum DecodedKey {
    RawKey(KeyCode),
    Unicode(char),
}

/// Whether a key went up, went down, or was pressed and released at once.
#[derive(Debug, Clone, Copy, PartialEq, Eq, Structural)]
pub enum KeyState {
    Up,
    Down,
    OneShot,
}

/// A change of state of one key.
#[derive(Debug, Clone, Copy, PartialEq, Eq, Structural)]
pub struct KeyEvent {
    pub code: KeyCode,
    pub state: KeyState,
}

impl KeyEvent {
    /// Creates a key event.
    pub fn new(code: KeyCode, state: KeyState) -> (r: KeyEvent)
        ensures
            r.code == code && r.state == state,
    {
        KeyEvent { code, state }
    }
}

/// States of a scancode decoder.
#[derive(Debug, Copy, Clone, Eq, PartialEq, Structural)]
pub enum DecodeState {
    Start,
    Extended,
    Release,
    ExtendedRelease,
    Extended2,
    Extended2Release,
}

/// `c` is an upper-case ASCII letter.
pub open spec fn is_ascii_upper(c: char) -> bool {
    'A' <= c <= 'Z'
}

/// The control character of a letter (Ctrl+C gives U+0003).
pub open spec fn control_char(letter: char) -> char {
    ((letter as int) - 64) as char
}

/// The lower-case form of an upper-case ASCII letter.
pub open spec fn lower_char(letter: char) -> char {
    ((letter as int) + 32) as char
}

impl Modifiers {
    /// Either shift key is held.
    pub open spec fn shifted(self) -> bool {
        self.lshift || self.rshift
    }

    /// Either control key is held.
    pub open spec fn ctrl(self) -> bool {
        self.lctrl || self.rctrl
    }

    /// Either alt key is held.
    pub open spec fn alt(self) -> bool {
        self.lalt || self.ralt
    }

    /// AltGr is held, or left alt together with control.
    pub open spec fn altgr(self) -> bool {
        self.ralt || (self.lalt && self.ctrl())
    }

    /// Letters come out in upper case: shift or caps lock, but not both.
    pub open spec fn caps(self) -> bool {
        self.shifted() != self.capslock
    }

    /// What a letter key with two meanings gives.
    pub open spec fn ascii2_spec(self, letter: char, handle_ctrl: HandleControl) -> DecodedKey {
        if handle_ctrl == HandleControl::MapLettersToUnicode && self.ctrl() {
            DecodedKey::Unicode(control_char(letter))
        } else if self.caps() {
            DecodedKey::Unicode(letter)
        } else {
            DecodedKey::Unicode(lower_char(letter))
        }
    }

    /// What a plain symbol key with a shifted meaning gives.
    pub open spec fn symbol2_spec(self, plain: char, shifted: char) -> DecodedKey {
        if self.shifted() {
            DecodedKey::Unicode(shifted)
        } else {
            DecodedKey::Unicode(plain)
        }
    }

    /// What a number pad key gives: its digit with num lock on, else its key.
    pub open spec fn num_pad_spec(self, letter: char, key: KeyCode) -> DecodedKey {
        if self.numlock {
            DecodedKey::Unicode(letter)
        } else {
            DecodedKey::RawKey(key)
        }
    }

    /// What the number pad period gives.
    pub open spec fn num_del_spec(self, letter: char, other: char) -> DecodedKey {
        if self.numlock {
            DecodedKey::Unicode(letter)
        } else {
            DecodedKey::Unicode(other)
        }
    }

    /// Whether either shift key is held.
    pub fn is_shifted(&self) -> (r: bool)
        ensures
            r == self.shifted(),
    {
        self.lshift || self.rshift
    }

    /// Whether either control key is held.
    pub fn is_ctrl(&self) -> (r: bool)
        ensures
            r == self.ctrl(),
    {
        self.lctrl || self.rctrl
    }

    /// Whether either alt key is held.
    pub fn is_alt(&self) -> (r: bool)
        ensures
            r == self.alt(),
    {
        self.lalt || self.ralt
    }

    /// Whether AltGr is held (or left alt with control).
    pub fn is_altgr(&self) -> (r: bool)
        ensures
            r == self.altgr(),
    {
        self.ralt || (self.lalt && self.is_ctrl())
    }

    /// Whether letters come out in upper case.
    pub fn is_caps(&self) -> (r: bool)
        ensures
            r == self.caps(),
    {
        self.is_shifted() != self.capslock
    }

    /// Decodes a letter key: a control code with control held (when asked
    /// for), else the letter in the case that shift and caps lock give.
    pub(crate) fn handle_ascii_2(&self, letter: char, handle_ctrl: HandleControl) -> (r: DecodedKey)
        requires
            is_ascii_upper(letter),
        ensures
            r == self.ascii2_spec(letter, handle_ctrl),
    {
        if handle_ctrl == HandleControl::MapLettersToUnicode && self.is_ctrl() {
            DecodedKey::Unicode(((letter as u8) - 64) as char)
        } else if self.is_caps() {
            DecodedKey::Unicode(letter)
        } else {
            DecodedKey::Unicode(((letter as u8) + 32) as char)
        }
    }

    /// Decodes a key with a lower- and an upper-case letter.
    pub(crate) fn handle_letter2(&self, letter_lower: char, letter_upper: char) -> (r: DecodedKey)
        ensures
            r == (if self.caps() {
                DecodedKey::Unicode(letter_upper)
            } else {
                DecodedKey::Unicode(letter_lower)
            }),
    {
        if self.is_caps() {
            DecodedKey::Unicode(letter_upper)
        } else {
            DecodedKey::Unicode(letter_lower)
        }
    }

    /// Decodes a letter key that also has an AltGr character.
    pub(crate) fn handle_ascii_3(&self, letter_upper: char, alt: char, handle_ctrl: HandleControl) -> (r:
        DecodedKey)
        requires
            is_ascii_upper(letter_upper),
        ensures
            r == (if handle_ctrl == HandleControl::MapLettersToUnicode && self.ctrl() {
                DecodedKey::Unicode(control_char(letter_upper))
            } else if self.ralt {
                DecodedKey::Unicode(alt)
            } else if self.caps() {
                DecodedKey::Unicode(letter_upper)
            } else {
                DecodedKey::Unicode(lower_char(letter_upper))
            }),
    {
        if handle_ctrl == HandleControl::MapLettersToUnicode && self.is_ctrl() {
            DecodedKey::Unicode(((letter_upper as u8) - 64) as char)
        } else if self.ralt {
            DecodedKey::Unicode(alt)
        } else if self.is_caps() {
            DecodedKey::Unicode(letter_upper)
        } else {
            DecodedKey::Unicode(((letter_upper as u8) + 32) as char)
        }
    }

    /// Decodes a letter key that also has lower- and upper-case AltGr letters.
    pub(crate) fn handle_ascii_4(
        &self,
        letter_upper: char,
        alt_letter_lower: char,
        alt_letter_upper: char,
        handle_ctrl: HandleControl,
    ) -> (r: DecodedKey)
        requires
            is_ascii_upper(letter_upper),
        ensures
            r == (if handle_ctrl == HandleControl::MapLettersToUnicode && self.ctrl() {
                DecodedKey::Unicode(control_char(letter_upper))
            } else if self.ralt && self.caps() {
                DecodedKey::Unicode(alt_letter_upper)
            } else if self.ralt {
                DecodedKey::Unicode(alt_letter_lower)
            } else if self.caps() {
                DecodedKey::Unicode(letter_upper)
            } else {
                DecodedKey::Unicode(lower_char(letter_upper))
            }),
    {
        if handle_ctrl == HandleControl::MapLettersToUnicode && self.is_ctrl() {
            DecodedKey::Unicode(((letter_upper as u8) - 64) as char)
        } else if self.ralt && self.is_caps() {
            DecodedKey::Unicode(alt_letter_upper)
        } else if self.ralt {
            DecodedKey::Unicode(alt_letter_lower)
        } else if self.is_caps() {
            DecodedKey::Unicode(letter_upper)
        } else {
            DecodedKey::Unicode(((letter_upper as u8) + 32) as char)
        }
    }

    /// Decodes a number pad key.
    pub(crate) fn handle_num_pad(&self, letter: char, key: KeyCode) -> (r: DecodedKey)
        ensures
            r == self.num_pad_spec(letter, key),
    {
        if self.numlock {
            DecodedKey::Unicode(letter)
        } else {
            DecodedKey::RawKey(key)
        }
    }

    /// Decodes the number pad period.
    pub(crate) fn handle_num_del(&self, letter: char, other: char) -> (r: DecodedKey)
        ensures
            r == self.num_del_spec(letter, other),
    {
        if self.numlock {
            DecodedKey::Unicode(letter)
        } else {
            DecodedKey::Unicode(other)
        }
    }

    /// Decodes a symbol key with a shifted symbol.
    pub(crate) fn handle_symbol2(&self, plain: char, shifted: char) -> (r: DecodedKey)
        ensures
            r == self.symbol2_spec(plain, shifted),
    {
        if self.is_shifted() {
            DecodedKey::Unicode(shifted)
        } else {
            DecodedKey::Unicode(plain)
        }
    }

    /// Decodes a symbol key with a shifted and an AltGr symbol.
    pub(crate) fn handle_symbol3(&self, plain: char, shifted: char, alt: char) -> (r: DecodedKey)
        ensures
            r == (if self.altgr() {
                DecodedKey::Unicode(alt)
            } else if self.shifted() {
                DecodedKey::Unicode(shifted)
            } else {
                DecodedKey::Unicode(plain)
            }),
    {
        if self.is_altgr() {
            DecodedKey::Unicode(alt)
        } else if self.is_shifted() {
            DecodedKey::Unicode(shifted)
        } else {
            DecodedKey::Unicode(plain)
        }
    }
}

} // verus!
