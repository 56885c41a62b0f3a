//! Byte values of the wire protocol.
pub mod methods;
pub mod errors;

use vstd::prelude::*;

verus! {

/// First byte of every frame.
pub const START: u8 = 0x02;

/// Separates the names of a name list (`REG_CALLER`).
pub const ETX: u8 = 0x03;

/// Ends a name or a number written in text.
pub const CR: u8 = 0x0D;

/// Ends a frame whose length is known in advance.
pub const END: u8 = 0x0D;

} // verus!
