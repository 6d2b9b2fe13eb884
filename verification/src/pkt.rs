//! Packets and messages: a message is a packet that starts with its opcode.
use vstd::prelude::*;
use vstd::bytes::*;
use vstd::slice::slice_subrange;

use crate::error::Error;
use crate::opcode::{HasOpCode, ShroomOpCode};
use crate::proto::compound::{lemma_encoded_concat, lemma_encoded_fail_first};
use crate::proto::primitive::lemma_appended_encoded;
use crate::proto::{decoded, encoded, DecodeFail, DecodePacket, EncodePacket, PacketCodec};
use crate::reader::{le_u16, PacketReader};
use crate::writer::{le16, PacketWriter};
use crate::PacketResult;

verus! {

broadcast use vstd::seq_lib::group_seq_properties;

/// The bytes of one packet.
#[derive(Debug, Clone)]
pub struct Packet(pub Vec<u8>);

impl View for Packet {
    type V = Seq<u8>;

    open spec fn view(&self) -> Seq<u8> {
        self.0@
    }
}

impl Packet {
    /// A packet holding a copy of `bytes`.
    pub fn from_static(bytes: &'static [u8]) -> (r: Self)
        ensures
            r@ == bytes@,
    {
        Packet(vstd::slice::slice_to_vec(bytes))
    }

    /// A packet holding `bytes`.
    pub fn from_vec(bytes: Vec<u8>) -> (r: Self)
        ensures
            r@ == bytes@,
    {
        Packet(bytes)
    }

    /// A reader at the start of the packet.
    pub fn into_reader(&self) -> (r: PacketReader<'_>)
        ensures
            r.data() == self@,
            r.pos() == 0,
            r.rest() == self@,
    {
        PacketReader::new(self.0.as_slice())
    }

    /// The bytes of the packet.
    pub fn as_slice(&self) -> (r: &[u8])
        ensures
            r@ == self@,
    {
        self.0.as_slice()
    }

    pub fn len(&self) -> (r: usize)
        ensures
            r == self@.len(),
    {
        self.0.len()
    }
}

/// A packet of at least two bytes, the first two being the opcode.
#[derive(Debug)]
pub struct Message(Packet);

impl View for Message {
    type V = Seq<u8>;

    closed spec fn view(&self) -> Seq<u8> {
        self.0@
    }
}

impl Message {
    #[verifier::type_invariant]
    spec fn inv(self) -> bool {
        self.0@.len() >= 2
    }

    /// Every message holds an opcode.
    pub fn len(&self) -> (r: usize)
        ensures
            r == self@.len(),
            r >= 2,
    {
        proof {
            use_type_invariant(self);
        }
        self.0.len()
    }

    /// The packet as a message, or `NoOpCode` when it is shorter than an
    /// opcode.
    pub fn try_from_packet(value: Packet) -> (r: PacketResult<Message>)
        ensures
            value@.len() >= 2 ==> (r matches Ok(m) && m@ == value@),
            value@.len() < 2 ==> r matches Err(Error::NoOpCode),
    {
        if value.len() < 2 {
            return Err(Error::NoOpCode);
        }
        Ok(Message(value))
    }

    /// The written bytes as a message.
    pub fn try_from_writer(value: PacketWriter) -> (r: PacketResult<Message>)
        ensures
            value@.len() >= 2 ==> (r matches Ok(m) && m@ == value@),
            value@.len() < 2 ==> r matches Err(Error::NoOpCode),
    {
        Self::try_from_packet(value.into_packet())
    }

    /// The opcode's wire value.
    pub fn opcode_value(&self) -> (r: u16)
        ensures
            r == le_u16(self@),
    {
        proof {
            use_type_invariant(self);
        }
        let b = slice_subrange(self.0.as_slice(), 0, 2);
        proof {
            assert(b@ =~= self@.take(2));
        }
        u16_from_le_bytes(b)
    }

    /// The typed opcode, or `InvalidOpCode` when the wire value stands for
    /// none.
    pub fn opcode<Op: ShroomOpCode>(&self) -> (r: PacketResult<Op>)
        ensures
            match Op::spec_from_u16(le_u16(self@)) {
                Some(op) => r == Ok::<Op, Error>(op),
                None => r matches Err(Error::InvalidOpCode(c)) && c == le_u16(self@),
            },
    {
        Op::get_opcode(self.opcode_value())
    }

    /// The bytes after the opcode.
    pub fn payload(&self) -> (r: &[u8])
        ensures
            r@ == self@.skip(2),
    {
        proof {
            use_type_invariant(self);
        }
        slice_subrange(self.0.as_slice(), 2, self.0.len())
    }

    /// A reader at the start of the payload.
    pub fn reader(&self) -> (r: PacketReader<'_>)
        ensures
            r.data() == self@.skip(2),
            r.pos() == 0,
            r.rest() == self@.skip(2),
    {
        PacketReader::new(self.payload())
    }

    /// Decodes the payload.
    pub fn decode<T: DecodePacket>(&self) -> (r: PacketResult<T>)
        ensures
            match T::spec_decode(self@.skip(2)) {
                Ok((v, n)) => r matches Ok(x) && x.deep_view() == v,
                Err(DecodeFail::Eof) => r matches Err(e) && e is EOF,
                Err(DecodeFail::Invalid) => r matches Err(e) && !(e is EOF),
            },
    {
        let mut pr = self.reader();
        T::decode(&mut pr)
    }

    /// The bytes of the message.
    pub fn as_slice(&self) -> (r: &[u8])
        ensures
            r@ == self@,
    {
        self.0.as_slice()
    }
}

impl PacketWriter {
    /// The written bytes as a packet.
    pub fn into_packet(self) -> (r: Packet)
        ensures
            r@ == self@,
    {
        Packet(self.buf)
    }
}

/// Bytes of a message holding `v`: the opcode of `T`, then the encoding.
pub open spec fn spec_message_bytes<T: EncodePacket + HasOpCode>(v: T::V) -> Seq<u8> {
    le16(T::OpCode::spec_to_u16(T::spec_opcode())) + T::spec_encode(v)
}

/// A message built from `v` carries the opcode of `T` and decodes back to
/// `v`, taking its whole payload.
pub proof fn lemma_message_roundtrip<T: PacketCodec + HasOpCode>(v: T::V)
    requires
        T::spec_wf(v),
    ensures
        spec_message_bytes::<T>(v).len() >= 2,
        le_u16(spec_message_bytes::<T>(v)) == T::OpCode::spec_to_u16(T::spec_opcode()),
        T::spec_decode(spec_message_bytes::<T>(v).skip(2)) == Ok::<(T::V, nat), DecodeFail>(
            (v, (spec_message_bytes::<T>(v).len() - 2) as nat),
        ),
{
    vstd::bytes::lemma_auto_spec_u16_to_from_le_bytes();
    let op = le16(T::OpCode::spec_to_u16(T::spec_opcode()));
    let m = spec_message_bytes::<T>(v);
    assert(m.take(2) =~= op);
    assert(m.skip(2) =~= T::spec_encode(v) + Seq::<u8>::empty());
    T::lemma_roundtrip(v, Seq::<u8>::empty());
}

/// Appends the message holding `v`: the opcode, then the encoding.
pub fn encode_message<T: EncodePacket + HasOpCode>(v: &T, pw: &mut PacketWriter) -> (r:
    PacketResult<()>)
    ensures
        encoded(old(pw)@, final(pw)@, spec_message_bytes::<T>(v.deep_view()), r),
{
    let ghost b0 = pw@;
    let ghost x = le16(T::OpCode::spec_to_u16(T::spec_opcode()));
    let ghost y = T::spec_encode(v.deep_view());
    let r0 = pw.write_opcode(T::opcode());
    proof {
        lemma_appended_encoded(b0, pw@, x, r0);
    }
    if r0.is_err() {
        proof {
            lemma_encoded_fail_first(b0, pw@, x, y, r0);
        }
        return r0;
    }
    let ghost b1 = pw@;
    let r = v.encode(pw);
    proof {
        lemma_encoded_concat(b0, b1, pw@, x, y, r);
    }
    r
}

/// The message holding `v`.
pub fn to_message<T: EncodePacket + HasOpCode>(v: &T) -> (r: PacketResult<Message>)
    ensures
        spec_message_bytes::<T>(v.deep_view()).len() <= usize::MAX ==> (r matches Ok(m) && m@
            == spec_message_bytes::<T>(v.deep_view())),
        spec_message_bytes::<T>(v.deep_view()).len() > usize::MAX ==> r matches Err(
            Error::OutOfCapacity,
        ),
{
    let mut pw = PacketWriter::default();
    encode_message(v, &mut pw)?;
    proof {
        vstd::bytes::lemma_auto_spec_u16_to_from_le_bytes();
    }
    Message::try_from_writer(pw)
}

/// Decodes a message holding a `T`: fails with `InvalidOpCode` when the
/// message's opcode is not that of `T`, else decodes the payload.
pub fn decode_message<T: DecodePacket + HasOpCode>(msg: &Message) -> (r: PacketResult<T>)
    ensures
        le_u16(msg@) != T::OpCode::spec_to_u16(T::spec_opcode()) ==> (r matches Err(
            Error::InvalidOpCode(c),
        ) && c == le_u16(msg@)),
        le_u16(msg@) == T::OpCode::spec_to_u16(T::spec_opcode()) ==> match T::spec_decode(
            msg@.skip(2),
        ) {
            Ok((v, n)) => r matches Ok(x) && x.deep_view() == v,
            Err(DecodeFail::Eof) => r matches Err(e) && e is EOF,
            Err(DecodeFail::Invalid) => r matches Err(e) && !(e is EOF),
        },
{
    let op = T::opcode().into_u16();
    if msg.opcode_value() != op {
        return Err(Error::InvalidOpCode(msg.opcode_value()));
    }
    msg.decode()
}

} // verus!
