//! Response status bytes from the EC.
use vstd::prelude::*;

verus! {

pub const NEW: u8 = 0x00;

pub const BUSY: u8 = 0x01;

pub const SUCCESS: u8 = 0x02;

pub const FAILURE: u8 = 0x03;

pub const TIMEOUT: u8 = 0x04;

pub const NOT_SUPPORTED: u8 = 0x05;

} // verus!
