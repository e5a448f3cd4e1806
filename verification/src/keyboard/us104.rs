//! The US 104-key keyboard layout.
use vstd::prelude::*;

use crate::keyboard::decode::{DecodedKey, HandleControl, Modifiers, QUO, SLS};
use crate::keyboard::keycode::KeyCode;
use crate::keyboard::layout::{KeyboardLayout, PhysicalKeyboard};

verus! {

/// What a key types on a US 104-key keyboard under the given modifiers.
pub open spec fn us104_map(keycode: KeyCode, modifiers: Modifiers, handle_ctrl: HandleControl) -> DecodedKey {
    match keycode {
        KeyCode::Oem8 => modifiers.symbol2_spec('`', '~'),
        KeyCode::Escape => DecodedKey::Unicode('\u{001B}'),
        KeyCode::Key1 => modifiers.symbol2_spec('1', '!'),
        KeyCode::Key2 => modifiers.symbol2_spec('2', '@'),
        KeyCode::Key3 => modifiers.symbol2_spec('3', '#'),
        KeyCode::Key4 => modifiers.symbol2_spec('4', '$'),
        KeyCode::Key5 => modifiers.symbol2_spec('5', '%'),
        KeyCode::Key6 => modifiers.symbol2_spec('6', '^'),
        KeyCode::Key7 => modifiers.symbol2_spec('7', '&'),
        KeyCode::Key8 => modifiers.symbol2_spec('8', '*'),
        KeyCode::Key9 => modifiers.symbol2_spec('9', '('),
        KeyCode::Key0 => modifiers.symbol2_spec('0', ')'),
        KeyCode::OemMinus => modifiers.symbol2_spec('-', '_'),
        KeyCode::OemPlus => modifiers.symbol2_spec('=', '+'),
        KeyCode::Backspace => DecodedKey::Unicode('\u{0008}'),
        KeyCode::Tab => DecodedKey::Unicode('\u{0009}'),
        KeyCode::Q => modifiers.ascii2_spec('Q', handle_ctrl),
        KeyCode::W => modifiers.ascii2_spec('W', handle_ctrl),
        KeyCode::E => modifiers.ascii2_spec('E', handle_ctrl),
        KeyCode::R => modifiers.ascii2_spec('R', handle_ctrl),
        KeyCode::T => modifiers.ascii2_spec('T', handle_ctrl),
        KeyCode::Y => modifiers.ascii2_spec('Y', handle_ctrl),
        KeyCode::U => modifiers.ascii2_spec('U', handle_ctrl),
        KeyCode::I => modifiers.ascii2_spec('I', handle_ctrl),
        KeyCode::O => modifiers.ascii2_spec('O', handle_ctrl),
        KeyCode::P => modifiers.ascii2_spec('P', handle_ctrl),
        KeyCode::Oem4 => modifiers.symbol2_spec('[', '{'),
        KeyCode::Oem6 => modifiers.symbol2_spec(']', '}'),
        KeyCode::Oem7 => modifiers.symbol2_spec(SLS, '|'),
        KeyCode::A => modifiers.ascii2_spec('A', handle_ctrl),
        KeyCode::S => modifiers.ascii2_spec('S', handle_ctrl),
        KeyCode::D => modifiers.ascii2_spec('D', handle_ctrl),
        KeyCode::F => modifiers.ascii2_spec('F', handle_ctrl),
        KeyCode::G => modifiers.ascii2_spec('G', handle_ctrl),
        KeyCode::H => modifiers.ascii2_spec('H', handle_ctrl),
        KeyCode::J => modifiers.ascii2_spec('J', handle_ctrl),
        KeyCode::K => modifiers.ascii2_spec('K', handle_ctrl),
        KeyCode::L => modifiers.ascii2_spec('L', handle_ctrl),
        KeyCode::Oem1 => modifiers.symbol2_spec(';', ':'),
        KeyCode::Oem3 => modifiers.symbol2_spec(QUO, '"'),
        KeyCode::Return => DecodedKey::Unicode('\u{000A}'),
        KeyCode::Z => modifiers.ascii2_spec('Z', handle_ctrl),
        KeyCode::X => modifiers.ascii2_spec('X', handle_ctrl),
        KeyCode::C => modifiers.ascii2_spec('C', handle_ctrl),
        KeyCode::V => modifiers.ascii2_spec('V', handle_ctrl),
        KeyCode::B => modifiers.ascii2_spec('B', handle_ctrl),
        KeyCode::N => modifiers.ascii2_spec('N', handle_ctrl),
        KeyCode::M => modifiers.ascii2_spec('M', handle_ctrl),
        KeyCode::OemComma => modifiers.symbol2_spec(',', '<'),
        KeyCode::OemPeriod => modifiers.symbol2_spec('.', '>'),
        KeyCode::Oem2 => modifiers.symbol2_spec('/', '?'),
        KeyCode::Spacebar => DecodedKey::Unicode(' '),
        KeyCode::Delete => DecodedKey::Unicode('\u{007f}'),
        KeyCode::NumpadDivide => DecodedKey::Unicode('/'),
        KeyCode::NumpadMultiply => DecodedKey::Unicode('*'),
        KeyCode::NumpadSubtract => DecodedKey::Unicode('-'),
        KeyCode::Numpad7 => modifiers.num_pad_spec('7', KeyCode::Home),
        KeyCode::Numpad8 => modifiers.num_pad_spec('8', KeyCode::ArrowUp),
        KeyCode::Numpad9 => modifiers.num_pad_spec('9', KeyCode::PageUp),
        KeyCode::NumpadAdd => DecodedKey::Unicode('+'),
        KeyCode::Numpad4 => modifiers.num_pad_spec('4', KeyCode::ArrowLeft),
        KeyCode::Numpad5 => DecodedKey::Unicode('5'),
        KeyCode::Numpad6 => modifiers.num_pad_spec('6', KeyCode::ArrowRight),
        KeyCode::Numpad1 => modifiers.num_pad_spec('1', KeyCode::End),
        KeyCode::Numpad2 => modifiers.num_pad_spec('2', KeyCode::ArrowDown),
        KeyCode::Numpad3 => modifiers.num_pad_spec('3', KeyCode::PageDown),
        KeyCode::Numpad0 => modifiers.num_pad_spec('0', KeyCode::Insert),
        KeyCode::NumpadPeriod => modifiers.num_del_spec('.', '\u{007f}'),
        KeyCode::NumpadEnter => DecodedKey::Unicode('\u{000A}'),
        k => DecodedKey::RawKey(k),
    }
}

/// The US 104-key keyboard layout.
pub struct Us104Key;

impl KeyboardLayout for Us104Key {
    open spec fn map_keycode_spec(&self, keycode: KeyCode, modifiers: Modifiers, handle_ctrl: HandleControl) -> DecodedKey {
        us104_map(keycode, modifiers, handle_ctrl)
    }

    fn map_keycode(&self, keycode: KeyCode, modifiers: &Modifiers, handle_ctrl: HandleControl) -> (r:
        DecodedKey) {
        match keycode {
            KeyCode::Oem8 => modifiers.handle_symbol2('`', '~'),
            KeyCode::Escape => DecodedKey::Unicode('\u{001B}'),
            KeyCode::Key1 => modifiers.handle_symbol2('1', '!'),
            KeyCode::Key2 => modifiers.handle_symbol2('2', '@'),
            KeyCode::Key3 => modifiers.handle_symbol2('3', '#'),
            KeyCode::Key4 => modifiers.handle_symbol2('4', '$'),
            KeyCode::Key5 => modifiers.handle_symbol2('5', '%'),
            KeyCode::Key6 => modifiers.handle_symbol2('6', '^'),
            KeyCode::Key7 => modifiers.handle_symbol2('7', '&'),
            KeyCode::Key8 => modifiers.handle_symbol2('8', '*'),
            KeyCode::Key9 => modifiers.handle_symbol2('9', '('),
            KeyCode::Key0 => modifiers.handle_symbol2('0', ')'),
            KeyCode::OemMinus => modifiers.handle_symbol2('-', '_'),
            KeyCode::OemPlus => modifiers.handle_symbol2('=', '+'),
            KeyCode::Backspace => DecodedKey::Unicode('\u{0008}'),
            KeyCode::Tab => DecodedKey::Unicode('\u{0009}'),
            KeyCode::Q => modifiers.handle_ascii_2('Q', handle_ctrl),
            KeyCode::W => modifiers.handle_ascii_2('W', handle_ctrl),
            KeyCode::E => modifiers.handle_ascii_2('E', handle_ctrl),
            KeyCode::R => modifiers.handle_ascii_2('R', handle_ctrl),
            KeyCode::T => modifiers.handle_ascii_2('T', handle_ctrl),
            KeyCode::Y => modifiers.handle_ascii_2('Y', handle_ctrl),
            KeyCode::U => modifiers.handle_ascii_2('U', handle_ctrl),
            KeyCode::I => modifiers.handle_ascii_2('I', handle_ctrl),
            KeyCode::O => modifiers.handle_ascii_2('O', handle_ctrl),
            KeyCode::P => modifiers.handle_ascii_2('P', handle_ctrl),
            KeyCode::Oem4 => modifiers.handle_symbol2('[', '{'),
            KeyCode::Oem6 => modifiers.handle_symbol2(']', '}'),
            KeyCode::Oem7 => modifiers.handle_symbol2(SLS, '|'),
            KeyCode::A => modifiers.handle_ascii_2('A', handle_ctrl),
            KeyCode::S => modifiers.handle_ascii_2('S', handle_ctrl),
            KeyCode::D => modifiers.handle_ascii_2('D', handle_ctrl),
            KeyCode::F => modifiers.handle_ascii_2('F', handle_ctrl),
            KeyCode::G => modifiers.handle_ascii_2('G', handle_ctrl),
            KeyCode::H => modifiers.handle_ascii_2('H', handle_ctrl),
            KeyCode::J => modifiers.handle_ascii_2('J', handle_ctrl),
            KeyCode::K => modifiers.handle_ascii_2('K', handle_ctrl),
            KeyCode::L => modifiers.handle_ascii_2('L', handle_ctrl),
            KeyCode::Oem1 => modifiers.handle_symbol2(';', ':'),
            KeyCode::Oem3 => modifiers.handle_symbol2(QUO, '"'),
            KeyCode::Return => DecodedKey::Unicode('\u{000A}'),
            KeyCode::Z => modifiers.handle_ascii_2('Z', handle_ctrl),
            KeyCode::X => modifiers.handle_ascii_2('X', handle_ctrl),
            KeyCode::C => modifiers.handle_ascii_2('C', handle_ctrl),
            KeyCode::V => modifiers.handle_ascii_2('V', handle_ctrl),
            KeyCode::B => modifiers.handle_ascii_2('B', handle_ctrl),
            KeyCode::N => modifiers.handle_ascii_2('N', handle_ctrl),
            KeyCode::M => modifiers.handle_ascii_2('M', handle_ctrl),
            KeyCode::OemComma => modifiers.handle_symbol2(',', '<'),
            KeyCode::OemPeriod => modifiers.handle_symbol2('.', '>'),
            KeyCode::Oem2 => modifiers.handle_symbol2('/', '?'),
            KeyCode::Spacebar => DecodedKey::Unicode(' '),
            KeyCode::Delete => DecodedKey::Unicode('\u{007f}'),
            KeyCode::NumpadDivide => DecodedKey::Unicode('/'),
            KeyCode::NumpadMultiply => DecodedKey::Unicode('*'),
            KeyCode::NumpadSubtract => DecodedKey::Unicode('-'),
            KeyCode::Numpad7 => modifiers.handle_num_pad('7', KeyCode::Home),
            KeyCode::Numpad8 => modifiers.handle_num_pad('8', KeyCode::ArrowUp),
            KeyCode::Numpad9 => modifiers.handle_num_pad('9', KeyCode::PageUp),
            KeyCode::NumpadAdd => DecodedKey::Unicode('+'),
            KeyCode::Numpad4 => modifiers.handle_num_pad('4', KeyCode::ArrowLeft),
            KeyCode::Numpad5 => DecodedKey::Unicode('5'),
            KeyCode::Numpad6 => modifiers.handle_num_pad('6', KeyCode::ArrowRight),
            KeyCode::Numpad1 => modifiers.handle_num_pad('1', KeyCode::End),
            KeyCode::Numpad2 => modifiers.handle_num_pad('2', KeyCode::ArrowDown),
            KeyCode::Numpad3 => modifiers.handle_num_pad('3', KeyCode::PageDown),
            KeyCode::Numpad0 => modifiers.handle_num_pad('0', KeyCode::Insert),
            KeyCode::NumpadPeriod => modifiers.handle_num_del('.', '\u{007f}'),
            KeyCode::NumpadEnter => DecodedKey::Unicode('\u{000A}'),
            k => DecodedKey::RawKey(k),
        }
    }

    fn get_physical(&self) -> (r: PhysicalKeyboard)
        ensures
            r == PhysicalKeyboard::Ansi,
    {
        PhysicalKeyboard::Ansi
    }
}

/// The characters printed on the symbol and digit keys of a US 104-key
/// keyboard: the lower one, typed without shift, and the upper one, typed
/// with shift.
pub open spec fn us104_key_legend(keycode: KeyCode) -> Option<(char, char)> {
    match keycode {
        KeyCode::Oem8 => Some(('`', '~')),
        KeyCode::Key1 => Some(('1', '!')),
        KeyCode::Key2 => Some(('2', '@')),
        KeyCode::Key3 => Some(('3', '#')),
        KeyCode::Key4 => Some(('4', '$')),
        KeyCode::Key5 => Some(('5', '%')),
        KeyCode::Key6 => Some(('6', '^')),
        KeyCode::Key7 => Some(('7', '&')),
        KeyCode::Key8 => Some(('8', '*')),
        KeyCode::Key9 => Some(('9', '(')),
        KeyCode::Key0 => Some(('0', ')')),
        KeyCode::OemMinus => Some(('-', '_')),
        KeyCode::OemPlus => Some(('=', '+')),
        KeyCode::Oem4 => Some(('[', '{')),
        KeyCode::Oem6 => Some((']', '}')),
        KeyCode::Oem7 => Some(('\\', '|')),
        KeyCode::Oem1 => Some((';', ':')),
        KeyCode::Oem3 => Some(('\'', '"')),
        KeyCode::OemComma => Some((',', '<')),
        KeyCode::OemPeriod => Some(('.', '>')),
        KeyCode::Oem2 => Some(('/', '?')),
        _ => None,
    }
}

/// On the US 104-key layout every symbol and digit key types its lower
/// character while neither shift key is held and its upper character while
/// either is, whatever the other modifiers and the control handling.
pub proof fn lemma_us104_symbol_keys(keycode: KeyCode, modifiers: Modifiers, handle_ctrl: HandleControl)
    requires
        us104_key_legend(keycode) is Some,
    ensures
        !modifiers.lshift && !modifiers.rshift ==> us104_map(keycode, modifiers, handle_ctrl)
            == DecodedKey::Unicode(us104_key_legend(keycode)->Some_0.0),
        (modifiers.lshift || modifiers.rshift) ==> us104_map(keycode, modifiers, handle_ctrl)
            == DecodedKey::Unicode(us104_key_legend(keycode)->Some_0.1),
{
}

} // verus!
