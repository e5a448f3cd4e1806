use nullex::keyboard::decode::{DecodedKey, HandleControl, KeyEvent, KeyState};
use nullex::keyboard::error::KeyboardError;
use nullex::keyboard::keycode::KeyCode;
use nullex::keyboard::layout::{KeyboardLayout, PhysicalKeyboard};
use nullex::keyboard::ps2::{EventDecoder, Keyboard, Ps2Decoder, ScancodeSet};
use nullex::keyboard::us104::Us104Key;

fn frame(data: u8) -> u16 {
    let parity: u16 = if data.count_ones() % 2 == 0 { 1 } else { 0 };
    (1 << 10) | (parity << 9) | ((data as u16) << 1)
}

#[test]
fn ps2_frame_accepted() {
    let d = Ps2Decoder::new();
    assert_eq!(d.add_word(frame(0x1E)), Ok(0x1E));
    assert_eq!(d.add_word(frame(0x01)), Ok(0x01));
    assert_eq!(d.add_word(frame(0xFF)), Ok(0xFF));
}

#[test]
fn ps2_frame_errors() {
    let d = Ps2Decoder::new();
    assert_eq!(d.add_word(frame(0x1E) | 1), Err(KeyboardError::BadStartBit));
    assert_eq!(d.add_word(frame(0x1E) & !(1 << 10)), Err(KeyboardError::BadStopBit));
    assert_eq!(d.add_word(frame(0x1E) ^ (1 << 9)), Err(KeyboardError::ParityError));
}

#[test]
fn ps2_bits_make_a_byte() {
    let mut d = Ps2Decoder::new();
    let w = frame(0x5A);
    for i in 0..10 {
        assert_eq!(d.add_bit((w >> i) & 1 == 1), Ok(None));
    }
    assert_eq!(d.add_bit((w >> 10) & 1 == 1), Ok(Some(0x5A)));
    assert_eq!(d.reg, 0);
    assert_eq!(d.num_bits, 0);
    d.add_bit(true).unwrap();
    d.clear();
    assert_eq!(d.num_bits, 0);
}

#[test]
fn us104_letters_and_shift() {
    let mut e = EventDecoder::new(Us104Key, HandleControl::MapLettersToUnicode);
    assert_eq!(e.process_keyevent(KeyEvent::new(KeyCode::A, KeyState::Down)), Some(DecodedKey::Unicode('a')));
    assert_eq!(e.process_keyevent(KeyEvent::new(KeyCode::A, KeyState::Up)), None);
    assert_eq!(
        e.process_keyevent(KeyEvent::new(KeyCode::LShift, KeyState::Down)),
        Some(DecodedKey::RawKey(KeyCode::LShift))
    );
    assert_eq!(e.process_keyevent(KeyEvent::new(KeyCode::A, KeyState::Down)), Some(DecodedKey::Unicode('A')));
    assert_eq!(e.process_keyevent(KeyEvent::new(KeyCode::Key1, KeyState::Down)), Some(DecodedKey::Unicode('!')));
    assert_eq!(e.process_keyevent(KeyEvent::new(KeyCode::LShift, KeyState::Up)), None);
    assert_eq!(e.process_keyevent(KeyEvent::new(KeyCode::Key1, KeyState::Down)), Some(DecodedKey::Unicode('1')));
}

#[test]
fn us104_caps_lock_toggles() {
    let mut e = EventDecoder::new(Us104Key, HandleControl::Ignore);
    e.process_keyevent(KeyEvent::new(KeyCode::CapsLock, KeyState::Down));
    assert_eq!(e.process_keyevent(KeyEvent::new(KeyCode::Q, KeyState::Down)), Some(DecodedKey::Unicode('Q')));
    e.process_keyevent(KeyEvent::new(KeyCode::CapsLock, KeyState::Down));
    assert_eq!(e.process_keyevent(KeyEvent::new(KeyCode::Q, KeyState::Down)), Some(DecodedKey::Unicode('q')));
}

#[test]
fn us104_control_letters() {
    let mut e = EventDecoder::new(Us104Key, HandleControl::MapLettersToUnicode);
    e.process_keyevent(KeyEvent::new(KeyCode::LControl, KeyState::Down));
    assert_eq!(e.process_keyevent(KeyEvent::new(KeyCode::C, KeyState::Down)), Some(DecodedKey::Unicode('\u{3}')));
    e.set_ctrl_handling(HandleControl::Ignore);
    assert_eq!(e.get_ctrl_handling(), HandleControl::Ignore);
    assert_eq!(e.process_keyevent(KeyEvent::new(KeyCode::C, KeyState::Down)), Some(DecodedKey::Unicode('c')));
}

#[test]
fn us104_fixed_keys() {
    let mut e = EventDecoder::new(Us104Key, HandleControl::Ignore);
    assert_eq!(e.process_keyevent(KeyEvent::new(KeyCode::Return, KeyState::Down)), Some(DecodedKey::Unicode('\n')));
    assert_eq!(e.process_keyevent(KeyEvent::new(KeyCode::Tab, KeyState::Down)), Some(DecodedKey::Unicode('\t')));
    assert_eq!(
        e.process_keyevent(KeyEvent::new(KeyCode::Backspace, KeyState::Down)),
        Some(DecodedKey::Unicode('\u{8}'))
    );
    assert_eq!(Us104Key.get_physical(), PhysicalKeyboard::Ansi);
}

struct Passthrough;

impl ScancodeSet for Passthrough {
    fn advance_state(&mut self, code: u8) -> Result<Option<KeyEvent>, KeyboardError> {
        if code == 0x10 {
            Ok(Some(KeyEvent::new(KeyCode::Q, KeyState::Down)))
        } else {
            Ok(None)
        }
    }
}

#[test]
fn keyboard_bits_to_key_event() {
    let mut kb = Keyboard::new(Passthrough, Us104Key, HandleControl::Ignore);
    let w = frame(0x10);
    let mut last = Ok(None);
    for i in 0..11 {
        last = kb.add_bit((w >> i) & 1 == 1);
    }
    assert_eq!(last, Ok(Some(KeyEvent::new(KeyCode::Q, KeyState::Down))));
    assert_eq!(kb.add_word(frame(0x10)), Ok(Some(KeyEvent::new(KeyCode::Q, KeyState::Down))));
    assert_eq!(kb.add_word(frame(0x10) | 1), Err(KeyboardError::BadStartBit));
    let ev = kb.add_byte(0x10).unwrap().unwrap();
    assert_eq!(kb.process_keyevent(ev), Some(DecodedKey::Unicode('q')));
    assert!(kb.get_modifiers().numlock);
}
