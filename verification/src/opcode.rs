//! Operation codes that open every message.
use vstd::prelude::*;

use crate::error::Error;
use crate::PacketResult;

verus! {

/// An opcode type, convertible from and to the `u16` that goes on the wire.
pub trait ShroomOpCode: Copy + Sized {
    /// The opcode that a wire value stands for, if any.
    spec fn spec_from_u16(v: u16) -> Option<Self>;

    /// The wire value of an opcode.
    spec fn spec_to_u16(op: Self) -> u16;

    fn try_from_u16(v: u16) -> (r: Option<Self>)
        ensures
            r == Self::spec_from_u16(v),
    ;

    fn into_u16(self) -> (r: u16)
        ensures
            r == Self::spec_to_u16(self),
    ;

    /// Parses the opcode from its wire value.
    fn get_opcode(v: u16) -> (r: PacketResult<Self>)
        ensures
            match Self::spec_from_u16(v) {
                Some(op) => r == Ok::<Self, Error>(op),
                None => r matches Err(Error::InvalidOpCode(c)) && c == v,
            },
    {
        match Self::try_from_u16(v) {
            Some(op) => Ok(op),
            None => Err(Error::InvalidOpCode(v)),
        }
    }
}

impl ShroomOpCode for u16 {
    open spec fn spec_from_u16(v: u16) -> Option<u16> {
        Some(v)
    }

    open spec fn spec_to_u16(op: u16) -> u16 {
        op
    }

    fn try_from_u16(v: u16) -> (r: Option<u16>) {
        Some(v)
    }

    fn into_u16(self) -> (r: u16) {
        self
    }
}

/// A packet type bound to an opcode.
pub trait HasOpCode {
    type OpCode: ShroomOpCode;

    spec fn spec_opcode() -> Self::OpCode;

    /// The opcode of this packet type.
    fn opcode() -> (r: Self::OpCode)
        ensures
            r == Self::spec_opcode(),
    ;
}

} // verus!
