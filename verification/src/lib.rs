//! The Shroom protocol and data-file libraries, verified: a bounds-checked
//! packet reader and writer with the wire encodings of the protocol's types
//! and their round-trip laws (`pkt`, `proto`, `reader`, `writer`, `util`,
//! `analyzer`); the pieces of the WZ data-file format (`wz`); and the
//! decisions of the tick-based game server (`srv`).
use vstd::prelude::*;

pub mod analyzer;
pub mod error;
pub mod opcode;
pub mod pkt;
pub mod proto;
pub mod reader;
pub mod srv;
pub mod util;
pub mod writer;
pub mod wz;

verus! {

/// Result of every packet operation.
pub type PacketResult<T> = Result<T, error::Error>;

/// The check a conditional field uses by default: the flag itself.
pub fn default_check(val: &bool) -> (r: bool)
    ensures
        r == *val,
{
    *val
}

} // verus!
