//! The PS/2 keyboard decoder: frames of bits to bytes, bytes to key events
//! (through a scancode set), key events to characters (through a layout).
use vstd::prelude::*;

use crate::keyboard::decode::{DecodedKey, HandleControl, KEYCODE_BITS, KeyEvent, KeyState, Modifiers};
use crate::keyboard::error::KeyboardError;
use crate::keyboard::keycode::KeyCode;
use crate::keyboard::layout::KeyboardLayout;

verus! {

/// Bit `offset` of `word`.
pub open spec fn word_bit(word: u16, offset: u16) -> bool {
    (word >> offset) & 1 != 0
}

/// Number of one bits in `x`.
pub open spec fn popcount(x: u8) -> nat
    decreases x,
{
    if x == 0 {
        0
    } else {
        (x % 2) as nat + popcount(x / 2)
    }
}

/// The data byte of a PS/2 frame (bits 1 to 8).
pub open spec fn frame_data(word: u16) -> u8 {
    ((word >> 1u16) & 0xFF) as u8
}

/// The outcome of checking a PS/2 frame: its data byte, or why it is refused.
pub open spec fn check_word_spec(word: u16) -> Result<u8, KeyboardError> {
    if word_bit(word, 0) {
        Err(KeyboardError::BadStartBit)
    } else if !word_bit(word, 10) {
        Err(KeyboardError::BadStopBit)
    } else if (popcount(frame_data(word)) % 2 == 0) != word_bit(word, 9) {
        Err(KeyboardError::ParityError)
    } else {
        Ok(frame_data(word))
    }
}

/// The PS/2 frame that carries `data`: start bit 0, the data bits, an odd
/// parity bit, stop bit 1.
pub open spec fn frame_of(data: u8) -> u16 {
    let parity: u16 = if popcount(data) % 2 == 0 { 1 } else { 0 };
    ((1u16 << 10u16) | (parity << 9u16) | ((data as u16) << 1u16)) as u16
}

/// Collects the bits of PS/2 frames.
#[derive(Debug)]
pub struct Ps2Decoder {
    pub reg: u16,
    pub num_bits: u8,
}

/// What feeding one bit to a decoder gives: the new register and bit count,
/// and the outcome.
pub open spec fn add_bit_spec(reg: u16, num_bits: u8, bit: bool) -> (u16, u8, Result<Option<u8>, KeyboardError>) {
    let b: u16 = if bit { 1 } else { 0 };
    let reg2 = reg | (b << (num_bits as u16));
    let n2 = (num_bits + 1) as u8;
    if n2 == KEYCODE_BITS {
        (0, 0, match check_word_spec(reg2) {
            Ok(byte) => Ok(Some(byte)),
            Err(e) => Err(e),
        })
    } else {
        (reg2, n2, Ok(None))
    }
}

proof fn lemma_frame_bits(data: u8, parity: u16)
    by (bit_vector)
    requires
        parity <= 1,
    ensures
        ((((1u16 << 10u16) | (parity << 9u16) | ((data as u16) << 1u16)) >> 0u16) & 1) == 0,
        ((((1u16 << 10u16) | (parity << 9u16) | ((data as u16) << 1u16)) >> 10u16) & 1) == 1,
        ((((1u16 << 10u16) | (parity << 9u16) | ((data as u16) << 1u16)) >> 9u16) & 1) == parity,
        ((((1u16 << 10u16) | (parity << 9u16) | ((data as u16) << 1u16)) >> 1u16) & 0xFF) == data as u16,
{
}

/// A frame built from a byte with its odd parity is accepted and gives the
/// byte back.
pub proof fn lemma_check_word_accepts_frame(data: u8)
    ensures
        check_word_spec(frame_of(data)) == Ok::<u8, KeyboardError>(data),
{
    let parity: u16 = if popcount(data) % 2 == 0 { 1 } else { 0 };
    lemma_frame_bits(data, parity);
}

impl Ps2Decoder {
    /// A decoder that has collected no bits.
    pub fn new() -> (r: Ps2Decoder)
        ensures
            r.reg == 0 && r.num_bits == 0,
    {
        Ps2Decoder { reg: 0, num_bits: 0 }
    }

    /// Drops the bits collected so far.
    pub fn clear(&mut self)
        ensures
            final(self).reg == 0 && final(self).num_bits == 0,
    {
        self.reg = 0;
        self.num_bits = 0;
    }

    /// Feeds one bit; once a whole frame is in, checks it and gives its byte.
    pub fn add_bit(&mut self, bit: bool) -> (r: Result<Option<u8>, KeyboardError>)
        requires
            old(self).num_bits < 16,
        ensures
            (final(self).reg, final(self).num_bits, r) == add_bit_spec(
                old(self).reg,
                old(self).num_bits,
                bit,
            ),
    {
        let b: u16 = if bit { 1 } else { 0 };
        self.reg = self.reg | (b << self.num_bits);
        self.num_bits = self.num_bits + 1;
        if self.num_bits == KEYCODE_BITS {
            let word = self.reg;
            self.reg = 0;
            self.num_bits = 0;
            match Self::check_word(word) {
                Ok(byte) => Ok(Some(byte)),
                Err(e) => Err(e),
            }
        } else {
            Ok(None)
        }
    }

    /// Checks a whole frame and gives its byte.
    pub fn add_word(&self, word: u16) -> (r: Result<u8, KeyboardError>)
        ensures
            r == check_word_spec(word),
    {
        Self::check_word(word)
    }

    fn check_word(word: u16) -> (r: Result<u8, KeyboardError>)
        ensures
            r == check_word_spec(word),
    {
        let start_bit = Self::get_bit(word, 0);
        let parity_bit = Self::get_bit(word, 9);
        let stop_bit = Self::get_bit(word, 10);
        let data = ((word >> 1) & 0xFF) as u8;
        if start_bit {
            return Err(KeyboardError::BadStartBit);
        }
        if !stop_bit {
            return Err(KeyboardError::BadStopBit);
        }
        let need_parity = Self::has_even_number_bits(data);
        if need_parity != parity_bit {
            return Err(KeyboardError::ParityError);
        }
        Ok(data)
    }

    fn get_bit(word: u16, offset: u16) -> (r: bool)
        requires
            offset < 16,
        ensures
            r == word_bit(word, offset),
    {
        ((word >> offset) & 0x0001) != 0
    }

    fn has_even_number_bits(data: u8) -> (r: bool)
        ensures
            r == (popcount(data) % 2 == 0),
    {
        let mut x = data;
        let mut ones: u8 = 0;
        proof {
            lemma_popcount_bound(data);
        }
        while x != 0
            invariant
                ones + popcount(x) == popcount(data),
                popcount(data) <= 8,
            decreases x,
        {
            ones = ones + x % 2;
            x = x / 2;
        }
        ones % 2 == 0
    }
}

proof fn lemma_popcount_bound(x: u8)
    ensures
        popcount(x) <= 8,
{
    reveal_with_fuel(pow2_nat, 9);
    lemma_popcount_bits(x, 8);
}

proof fn lemma_popcount_bits(x: u8, n: nat)
    requires
        x < pow2_nat(n),
    ensures
        popcount(x) <= n,
    decreases n,
{
    if n > 0 && x != 0 {
        lemma_popcount_bits(x / 2, (n - 1) as nat);
    }
}

/// `2^n` as a natural number.
pub open spec fn pow2_nat(n: nat) -> nat
    decreases n,
{
    if n == 0 {
        1
    } else {
        2 * pow2_nat((n - 1) as nat)
    }
}

/// What a modifier key event does to the modifiers and gives, or `None`
/// when the event is not a change of a modifier key.
pub open spec fn modifier_step(m: Modifiers, ev: KeyEvent) -> Option<(Modifiers, Option<DecodedKey>)> {
    let c = ev.code;
    let down = ev.state == KeyState::Down;
    let up = ev.state == KeyState::Up;
    if c == KeyCode::LShift && down {
        Some((Modifiers { lshift: true, ..m }, Some(DecodedKey::RawKey(KeyCode::LShift))))
    } else if c == KeyCode::RShift && down {
        Some((Modifiers { rshift: true, ..m }, Some(DecodedKey::RawKey(KeyCode::RShift))))
    } else if c == KeyCode::LShift && up {
        Some((Modifiers { lshift: false, ..m }, None))
    } else if c == KeyCode::RShift && up {
        Some((Modifiers { rshift: false, ..m }, None))
    } else if c == KeyCode::CapsLock && down {
        Some((Modifiers { capslock: !m.capslock, ..m }, Some(DecodedKey::RawKey(KeyCode::CapsLock))))
    } else if c == KeyCode::NumpadLock && down {
        if m.rctrl2 {
            Some((m, Some(DecodedKey::RawKey(KeyCode::PauseBreak))))
        } else {
            Some((Modifiers { numlock: !m.numlock, ..m }, Some(DecodedKey::RawKey(KeyCode::NumpadLock))))
        }
    } else if c == KeyCode::LControl && down {
        Some((Modifiers { lctrl: true, ..m }, Some(DecodedKey::RawKey(KeyCode::LControl))))
    } else if c == KeyCode::LControl && up {
        Some((Modifiers { lctrl: false, ..m }, None))
    } else if c == KeyCode::RControl && down {
        Some((Modifiers { rctrl: true, ..m }, Some(DecodedKey::RawKey(KeyCode::RControl))))
    } else if c == KeyCode::RControl && up {
        Some((Modifiers { rctrl: false, ..m }, None))
    } else if c == KeyCode::LAlt && down {
        Some((Modifiers { lalt: true, ..m }, Some(DecodedKey::RawKey(KeyCode::LAlt))))
    } else if c == KeyCode::LAlt && up {
        Some((Modifiers { lalt: false, ..m }, None))
    } else if c == KeyCode::RAltGr && down {
        Some((Modifiers { ralt: true, ..m }, Some(DecodedKey::RawKey(KeyCode::RAltGr))))
    } else if c == KeyCode::RAltGr && up {
        Some((Modifiers { ralt: false, ..m }, None))
    } else if c == KeyCode::RControl2 && down {
        Some((Modifiers { rctrl2: true, ..m }, Some(DecodedKey::RawKey(KeyCode::RControl2))))
    } else if c == KeyCode::RControl2 && up {
        Some((Modifiers { rctrl2: false, ..m }, None))
    } else {
        None
    }
}

/// Pressing caps lock twice, or num lock twice while the second right
/// control key is up, leaves the modifiers as they were.
pub proof fn lemma_lock_keys_toggle(m: Modifiers)
    ensures
        ({
            let ev = KeyEvent { code: KeyCode::CapsLock, state: KeyState::Down };
            modifier_step(modifier_step(m, ev).unwrap().0, ev).unwrap().0 == m
        }),
        !m.rctrl2 ==> ({
            let ev = KeyEvent { code: KeyCode::NumpadLock, state: KeyState::Down };
            modifier_step(modifier_step(m, ev).unwrap().0, ev).unwrap().0 == m
        }),
{
}

/// Pressing a shift, control or alt key that is up and releasing it
/// leaves the modifiers as they were.
pub proof fn lemma_press_release(m: Modifiers, code: KeyCode)
    requires
        code == KeyCode::LShift && !m.lshift || code == KeyCode::RShift && !m.rshift || code == KeyCode::LControl
            && !m.lctrl || code == KeyCode::RControl && !m.rctrl || code == KeyCode::LAlt && !m.lalt || code
            == KeyCode::RAltGr && !m.ralt || code == KeyCode::RControl2 && !m.rctrl2,
    ensures
        ({
            let down = KeyEvent { code, state: KeyState::Down };
            let up = KeyEvent { code, state: KeyState::Up };
            modifier_step(modifier_step(m, down).unwrap().0, up).unwrap().0 == m
        }),
{
}

/// Applies a modifier key event to `m`; gives what the event produces, or
/// `None` (leaving `m` alone) when the event is not a change of a modifier key.
fn apply_modifier_event(m: &mut Modifiers, ev: KeyEvent) -> (r: Option<Option<DecodedKey>>)
    ensures
        match modifier_step(*old(m), ev) {
            Some((m2, out)) => *final(m) == m2 && r == Some(out),
            None => *final(m) == *old(m) && r is None,
        },
{
    let c = ev.code;
    let down = ev.state == KeyState::Down;
    let up = ev.state == KeyState::Up;
    if c == KeyCode::LShift && down {
        m.lshift = true;
        Some(Some(DecodedKey::RawKey(KeyCode::LShift)))
    } else if c == KeyCode::RShift && down {
        m.rshift = true;
        Some(Some(DecodedKey::RawKey(KeyCode::RShift)))
    } else if c == KeyCode::LShift && up {
        m.lshift = false;
        Some(None)
    } else if c == KeyCode::RShift && up {
        m.rshift = false;
        Some(None)
    } else if c == KeyCode::CapsLock && down {
        m.capslock = !m.capslock;
        Some(Some(DecodedKey::RawKey(KeyCode::CapsLock)))
    } else if c == KeyCode::NumpadLock && down {
        if m.rctrl2 {
            // A pause key sends the hidden rctrl2 sequence first.
            Some(Some(DecodedKey::RawKey(KeyCode::PauseBreak)))
        } else {
            m.numlock = !m.numlock;
            Some(Some(DecodedKey::RawKey(KeyCode::NumpadLock)))
        }
    } else if c == KeyCode::LControl && down {
        m.lctrl = true;
        Some(Some(DecodedKey::RawKey(KeyCode::LControl)))
    } else if c == KeyCode::LControl && up {
        m.lctrl = false;
        Some(None)
    } else if c == KeyCode::RControl && down {
        m.rctrl = true;
        Some(Some(DecodedKey::RawKey(KeyCode::RControl)))
    } else if c == KeyCode::RControl && up {
        m.rctrl = false;
        Some(None)
    } else if c == KeyCode::LAlt && down {
        m.lalt = true;
        Some(Some(DecodedKey::RawKey(KeyCode::LAlt)))
    } else if c == KeyCode::LAlt && up {
        m.lalt = false;
        Some(None)
    } else if c == KeyCode::RAltGr && down {
        m.ralt = true;
        Some(Some(DecodedKey::RawKey(KeyCode::RAltGr)))
    } else if c == KeyCode::RAltGr && up {
        m.ralt = false;
        Some(None)
    } else if c == KeyCode::RControl2 && down {
        m.rctrl2 = true;
        Some(Some(DecodedKey::RawKey(KeyCode::RControl2)))
    } else if c == KeyCode::RControl2 && up {
        m.rctrl2 = false;
        Some(None)
    } else {
        None
    }
}

/// Turns key events into decoded keys, keeping track of the modifiers.
#[derive(Debug)]
pub struct EventDecoder<L> where L: KeyboardLayout {
    handle_ctrl: HandleControl,
    modifiers: Modifiers,
    layout: L,
}

impl<L> EventDecoder<L> where L: KeyboardLayout {
    /// The control handling in use.
    pub closed spec fn handle_ctrl_spec(&self) -> HandleControl {
        self.handle_ctrl
    }

    /// The current modifier state.
    pub closed spec fn modifiers_spec(&self) -> Modifiers {
        self.modifiers
    }

    /// The layout in use.
    pub closed spec fn layout_spec(&self) -> &L {
        &self.layout
    }

    /// A decoder with num lock on and every other modifier released.
    pub fn new(layout: L, handle_ctrl: HandleControl) -> (r: EventDecoder<L>)
        ensures
            r.handle_ctrl_spec() == handle_ctrl,
            r.layout_spec() == &layout,
            r.modifiers_spec() == (Modifiers {
                lshift: false,
                rshift: false,
                lctrl: false,
                rctrl: false,
                numlock: true,
                capslock: false,
                lalt: false,
                ralt: false,
                rctrl2: false,
            }),
    {
        EventDecoder {
            handle_ctrl,
            modifiers: Modifiers {
                lshift: false,
                rshift: false,
                lctrl: false,
                rctrl: false,
                numlock: true,
                capslock: false,
                lalt: false,
                ralt: false,
                rctrl2: false,
            },
            layout,
        }
    }

    /// Processes a key event: modifier keys update the modifier state (and
    /// report themselves when pressed); any other key pressed is mapped by
    /// the layout; other releases give nothing.
    pub fn process_keyevent(&mut self, ev: KeyEvent) -> (r: Option<DecodedKey>)
        ensures
            final(self).handle_ctrl_spec() == old(self).handle_ctrl_spec(),
            final(self).layout_spec() == old(self).layout_spec(),
            match modifier_step(old(self).modifiers_spec(), ev) {
                Some((m2, out)) => final(self).modifiers_spec() == m2 && r == out,
                None => final(self).modifiers_spec() == old(self).modifiers_spec() && r == (if ev.state
                    == KeyState::Down {
                    Some(
                        old(self).layout_spec().map_keycode_spec(
                            ev.code,
                            old(self).modifiers_spec(),
                            old(self).handle_ctrl_spec(),
                        ),
                    )
                } else {
                    None
                }),
            },
    {
        match apply_modifier_event(&mut self.modifiers, ev) {
            Some(out) => out,
            None => {
                if ev.state == KeyState::Down {
                    Some(self.layout.map_keycode(ev.code, &self.modifiers, self.handle_ctrl))
                } else {
                    None
                }
            },
        }
    }

    /// Changes how control combinations are handled.
    pub fn set_ctrl_handling(&mut self, new_value: HandleControl)
        ensures
            final(self).handle_ctrl_spec() == new_value,
            final(self).modifiers_spec() == old(self).modifiers_spec(),
            final(self).layout_spec() == old(self).layout_spec(),
    {
        self.handle_ctrl = new_value;
    }

    /// How control combinations are handled.
    pub fn get_ctrl_handling(&self) -> (r: HandleControl)
        ensures
            r == self.handle_ctrl_spec(),
    {
        self.handle_ctrl
    }
}

/// A scancode set turns the bytes a keyboard sends into key events.
pub trait ScancodeSet {
    /// Feeds one byte; gives a key event once a whole scancode is in.
    fn advance_state(&mut self, code: u8) -> Result<Option<KeyEvent>, KeyboardError>;
}

/// A PS/2 keyboard: a bit decoder, a scancode set and an event decoder.
pub struct Keyboard<L, S> where S: ScancodeSet, L: KeyboardLayout {
    ps2_decoder: Ps2Decoder,
    scancode_set: S,
    event_decoder: EventDecoder<L>,
}

impl<L, S> Keyboard<L, S> where L: KeyboardLayout, S: ScancodeSet {
    /// The bit decoder.
    pub closed spec fn ps2_spec(&self) -> (u16, u8) {
        (self.ps2_decoder.reg, self.ps2_decoder.num_bits)
    }

    /// The scancode set, with whatever state it keeps.
    pub closed spec fn scancode_set_spec(&self) -> S {
        self.scancode_set
    }

    /// The event decoder.
    pub closed spec fn events_spec(&self) -> &EventDecoder<L> {
        &self.event_decoder
    }

    /// A keyboard that has decoded nothing yet.
    pub fn new(scancode_set: S, layout: L, handle_ctrl: HandleControl) -> (r: Keyboard<L, S>)
        ensures
            r.ps2_spec() == (0u16, 0u8),
            r.events_spec().handle_ctrl_spec() == handle_ctrl,
            r.events_spec().layout_spec() == &layout,
            r.events_spec().modifiers_spec() == (Modifiers {
                lshift: false,
                rshift: false,
                lctrl: false,
                rctrl: false,
                numlock: true,
                capslock: false,
                lalt: false,
                ralt: false,
                rctrl2: false,
            }),
    {
        Keyboard {
            ps2_decoder: Ps2Decoder::new(),
            scancode_set,
            event_decoder: EventDecoder::new(layout, handle_ctrl),
        }
    }

    /// The current modifier state.
    pub fn get_modifiers(&self) -> (r: &Modifiers)
        ensures
            *r == self.events_spec().modifiers_spec(),
    {
        &self.event_decoder.modifiers
    }

    /// Changes how control combinations are handled.
    pub fn set_ctrl_handling(&mut self, new_value: HandleControl)
        ensures
            final(self).events_spec().handle_ctrl_spec() == new_value,
            final(self).events_spec().modifiers_spec() == old(self).events_spec().modifiers_spec(),
            final(self).ps2_spec() == old(self).ps2_spec(),
    {
        self.event_decoder.set_ctrl_handling(new_value);
    }

    /// How control combinations are handled.
    pub fn get_ctrl_handling(&self) -> (r: HandleControl)
        ensures
            r == self.events_spec().handle_ctrl_spec(),
    {
        self.event_decoder.get_ctrl_handling()
    }

    /// Drops the bits collected so far.
    pub fn clear(&mut self)
        ensures
            final(self).ps2_spec() == (0u16, 0u8),
            final(self).events_spec() == old(self).events_spec(),
    {
        self.ps2_decoder.clear();
    }

    /// Feeds a whole frame: checks it, then feeds its byte to the scancode set.
    pub fn add_word(&mut self, word: u16) -> (r: Result<Option<KeyEvent>, KeyboardError>)
        ensures
            check_word_spec(word) matches Err(e) ==> r == Err::<Option<KeyEvent>, KeyboardError>(e)
                && *final(self) == *old(self),
            final(self).ps2_spec() == old(self).ps2_spec(),
            final(self).events_spec() == old(self).events_spec(),
    {
        let byte = match self.ps2_decoder.add_word(word) {
            Ok(b) => b,
            Err(e) => {
                return Err(e);
            },
        };
        self.add_byte(byte)
    }

    /// Feeds a byte to the scancode set and gives its answer. The scancode
    /// set is the caller's own type, whose method promises nothing, so what
    /// is stated is that the bit and event decoders stay as they were.
    pub fn add_byte(&mut self, byte: u8) -> (r: Result<Option<KeyEvent>, KeyboardError>)
        ensures
            final(self).ps2_spec() == old(self).ps2_spec(),
            final(self).events_spec() == old(self).events_spec(),
    {
        self.scancode_set.advance_state(byte)
    }

    /// Feeds one bit; once a whole frame is in, feeds its byte to the scancode set.
    pub fn add_bit(&mut self, bit: bool) -> (r: Result<Option<KeyEvent>, KeyboardError>)
        requires
            old(self).ps2_spec().1 < 16,
        ensures
            (final(self).ps2_spec().0, final(self).ps2_spec().1) == (
                add_bit_spec(old(self).ps2_spec().0, old(self).ps2_spec().1, bit).0,
                add_bit_spec(old(self).ps2_spec().0, old(self).ps2_spec().1, bit).1,
            ),
            add_bit_spec(old(self).ps2_spec().0, old(self).ps2_spec().1, bit).2 matches Err(e) ==> r
                == Err::<Option<KeyEvent>, KeyboardError>(e),
            add_bit_spec(old(self).ps2_spec().0, old(self).ps2_spec().1, bit).2 == Ok::<
                Option<u8>,
                KeyboardError,
            >(None) ==> r == Ok::<Option<KeyEvent>, KeyboardError>(None),
            !(add_bit_spec(old(self).ps2_spec().0, old(self).ps2_spec().1, bit).2 is Ok && add_bit_spec(
                old(self).ps2_spec().0,
                old(self).ps2_spec().1,
                bit,
            ).2->Ok_0 is Some) ==> final(self).scancode_set_spec() == old(self).scancode_set_spec(),
            final(self).events_spec() == old(self).events_spec(),
    {
        match self.ps2_decoder.add_bit(bit) {
            Ok(Some(byte)) => self.scancode_set.advance_state(byte),
            Ok(None) => Ok(None),
            Err(e) => Err(e),
        }
    }

    /// Processes a key event with the event decoder.
    pub fn process_keyevent(&mut self, ev: KeyEvent) -> (r: Option<DecodedKey>)
        ensures
            final(self).ps2_spec() == old(self).ps2_spec(),
            final(self).events_spec().handle_ctrl_spec() == old(self).events_spec().handle_ctrl_spec(),
            final(self).events_spec().layout_spec() == old(self).events_spec().layout_spec(),
            match modifier_step(old(self).events_spec().modifiers_spec(), ev) {
                Some((m2, out)) => final(self).events_spec().modifiers_spec() == m2 && r == out,
                None => final(self).events_spec().modifiers_spec() == old(
                    self,
                ).events_spec().modifiers_spec() && r == (if ev.state == KeyState::Down {
                    Some(
                        old(self).events_spec().layout_spec().map_keycode_spec(
                            ev.code,
                            old(self).events_spec().modifiers_spec(),
                            old(self).events_spec().handle_ctrl_spec(),
                        ),
                    )
                } else {
                    None
                }),
            },
    {
        self.event_decoder.process_keyevent(ev)
    }
}

} // verus!
