//! Typed ids: a value on the wire, kept apart by a tag type.
use vstd::prelude::*;

use crate::reader::PacketReader;
use crate::writer::PacketWriter;
use crate::PacketResult;

use super::{DecodeFail, DecodePacket, DecodePacketOwned, EncodePacket, PacketCodec};

verus! {

/// Tag of an id type, naming the type of its value.
pub trait Tag {
    type Value: PacketCodec + DecodePacketOwned + std::fmt::Debug + PartialEq + Eq;
}

/// An id of kind `T`, encoded as its value.
#[derive(Debug, Copy, Clone, PartialEq, Eq, PartialOrd, Ord, Hash)]
pub struct Id<T: Tag>(pub T::Value);

impl<T: Tag> DeepView for Id<T> {
    type V = <T::Value as DeepView>::V;

    open spec fn deep_view(&self) -> Self::V {
        self.0.deep_view()
    }
}

impl<T: Tag> EncodePacket for Id<T> {
    open spec fn spec_encode(v: Self::V) -> Seq<u8> {
        T::Value::spec_encode(v)
    }

    fn encode_len(&self) -> (n: usize) {
        self.0.encode_len()
    }

    fn encode(&self, pw: &mut PacketWriter) -> (r: PacketResult<()>) {
        self.0.encode(pw)
    }
}

impl<T: Tag> DecodePacket for Id<T> {
    open spec fn spec_decode(s: Seq<u8>) -> Result<(Self::V, nat), DecodeFail> {
        T::Value::spec_decode(s)
    }

    proof fn lemma_decode_len(s: Seq<u8>) {
        T::Value::lemma_decode_len(s);
    }

    fn decode(pr: &mut PacketReader<'_>) -> (r: PacketResult<Self>) {
        let v = T::Value::decode(pr)?;
        Ok(Id(v))
    }
}

impl<T: Tag> PacketCodec for Id<T> {
    open spec fn spec_wf(v: Self::V) -> bool {
        T::Value::spec_wf(v)
    }

    proof fn lemma_roundtrip(v: Self::V, rest: Seq<u8>) {
        T::Value::lemma_roundtrip(v, rest);
    }
}

} // verus!
