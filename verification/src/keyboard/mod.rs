//! PS/2 keyboard decoding: from bits on the wire to bytes, from key events
//! to characters through a keyboard layout.
pub mod decode;
pub mod error;
pub mod keycode;
pub mod layout;
pub mod ps2;
pub mod queue;
pub mod us104;
