//! Codes that follow the status byte of a reply.
use vstd::prelude::*;

verus! {

pub const OK_CODE: u8 = 0x30;
pub const ALREADY_EXISTS_ERROR: u8 = 0x31;
pub const SERVICE_DOWN_ERROR: u8 = 0x32;
pub const NAME_INVALID_ERROR: u8 = 0x33;
pub const DOES_NOT_EXIST_ERROR: u8 = 0x34;
pub const INCOMPLETE_FRAME_ERROR: u8 = 0x35;
pub const FRAME_PARSE_ERROR: u8 = 0x36;

} // verus!
