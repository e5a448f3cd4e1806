//! Errors of the keyboard decoder.
use vstd::prelude::*;

verus! {

/// What can go wrong while decoding keyboard input.
#[derive(Debug, PartialEq, Eq, Structural, Copy, Clone)]
pub enum KeyboardError {
    BadStartBit,
    BadStopBit,
    ParityError,
    UnknownKeyCode,
    InvalidState,
}

} // verus!
