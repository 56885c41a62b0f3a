//! Method bytes: the second byte of a frame, and the status bytes of replies.
use vstd::prelude::*;

verus! {

pub const REG_SERVICE: u8 = 0x10;
pub const REG_SERVICE_ACK: u8 = 0x11;
pub const REG_CALLER: u8 = 0x12;
pub const REG_CALLER_ACK: u8 = 0x13;
pub const CALL: u8 = 0x14;
pub const CALLRESP: u8 = 0x15;
pub const STOP_SERVICE: u8 = 0x16;
pub const STOP_SERVICE_ACK: u8 = 0x17;
pub const STOP_CALLER: u8 = 0x18;
pub const STOP_CALLER_ACK: u8 = 0x19;

/// Status byte of a reply that succeeded.
pub const OK: u8 = 0x20;
/// Status byte of a reply that failed; also the header of a frame whose
/// header byte has not arrived yet.
pub const ERR: u8 = 0x21;

} // verus!
