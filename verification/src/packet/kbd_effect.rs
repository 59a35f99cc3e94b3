//! Keyboard hardware effect ids (argument 0 of `set_kbd_effect`). Only the
//! ids the reference implementation actively exercises are exposed.
use vstd::prelude::*;

verus! {

pub const OFF: u8 = 0x00;

/// param: direction (1 = left-to-right, 2 = right-to-left)
pub const WAVE: u8 = 0x01;

pub const SPECTRUM: u8 = 0x04;

/// params: r, g, b
pub const STATIC: u8 = 0x06;

} // verus!
