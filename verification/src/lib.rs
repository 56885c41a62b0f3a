//! Incremental parser for the BBB service-bus wire protocol.
//!
//! A frame starts with `START` and a method byte; what follows depends on the
//! method (a name, a list of names, status bytes, a length-prefixed payload,
//! ...). `BBBParse` keeps enough state between calls that a caller can hand it
//! a growing buffer and get `IncompleteFrame` until the whole frame is there.
pub mod protocol_defs;
pub mod wire;
pub mod grammar;
pub mod debug_text;
pub mod parser;
pub mod laws;
pub mod frames;

pub use parser::{ParseResult, ParsedFrame, BBBParse};
