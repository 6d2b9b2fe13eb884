//! Buffer to encode messages onto.
use vstd::prelude::*;

use crate::error::Error;
use crate::opcode::HasOpCode;
use crate::pkt::{encode_message, spec_message_bytes, Message};
use crate::proto::EncodePacket;
use crate::writer::PacketWriter;
use crate::PacketResult;

verus! {

/// Buffer that messages are encoded onto before they are split off.
#[derive(Debug)]
pub struct EncodeBuf(Vec<u8>);

impl View for EncodeBuf {
    type V = Seq<u8>;

    /// The bytes the buffer holds.
    closed spec fn view(&self) -> Seq<u8> {
        self.0@
    }
}

impl EncodeBuf {
    /// An empty buffer with room for 4096 bytes.
    pub fn new() -> (r: Self)
        ensures
            r@ == Seq::<u8>::empty(),
    {
        Self::with_capacity(4096)
    }

    /// An empty buffer with room for `cap` bytes.
    pub fn with_capacity(cap: usize) -> (r: Self)
        ensures
            r@ == Seq::<u8>::empty(),
    {
        EncodeBuf(Vec::with_capacity(cap))
    }

    /// Encodes the message holding `data` and splits it off as a message.
    pub fn encode_onto<T: EncodePacket + HasOpCode>(&mut self, data: &T) -> (r: PacketResult<
        Message,
    >)
        ensures
            spec_message_bytes::<T>(data.deep_view()).len() <= usize::MAX ==> (r matches Ok(m)
                && m@ == spec_message_bytes::<T>(data.deep_view())),
            spec_message_bytes::<T>(data.deep_view()).len() > usize::MAX ==> r matches Err(
                Error::OutOfCapacity,
            ),
    {
        let mut buf: Vec<u8> = Vec::new();
        std::mem::swap(&mut buf, &mut self.0);
        buf.truncate(0);
        buf.reserve(4096);
        let mut pw = PacketWriter::new(buf);
        encode_message(data, &mut pw)?;
        proof {
            vstd::bytes::lemma_auto_spec_u16_to_from_le_bytes();
        }
        Message::try_from_writer(pw)
    }
}

} // verus!
