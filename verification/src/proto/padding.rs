//! Padding bytes: read and skipped, written as zeros.
use vstd::prelude::*;

use crate::reader::PacketReader;
use crate::writer::PacketWriter;
use crate::PacketResult;

use super::primitive::lemma_appended_encoded;
use super::{DecodeFail, DecodePacket, EncodePacket, PacketCodec};

verus! {

broadcast use vstd::seq_lib::group_seq_properties;

/// `N` zero bytes.
pub open spec fn padding_zeros(n: nat) -> Seq<u8> {
    Seq::new(n, |i: int| 0u8)
}

/// `N` padding bytes. The bytes are not kept: whatever was read, `N` zero
/// bytes are written in their place. This is the release build of the
/// padding; a debug build would keep the bytes it read and write them back.
#[derive(Debug)]
pub struct Padding<const N: usize>();

impl<const N: usize> DeepView for Padding<N> {
    type V = ();

    open spec fn deep_view(&self) -> () {
        ()
    }
}

impl<const N: usize> Padding<N> {
    /// Padding read as `data`; the bytes are dropped.
    pub fn from_data(data: [u8; N]) -> (r: Self)
        ensures
            r.deep_view() == (),
    {
        Padding()
    }
}

impl<const N: usize> EncodePacket for Padding<N> {
    open spec fn spec_encode(v: ()) -> Seq<u8> {
        padding_zeros(N as nat)
    }

    fn encode_len(&self) -> (n: usize) {
        N
    }

    fn encode(&self, pw: &mut PacketWriter) -> (r: PacketResult<()>) {
        let mut zeros: Vec<u8> = Vec::new();
        let mut i: usize = 0;
        while i < N
            invariant
                i <= N,
                zeros@ == padding_zeros(i as nat),
            decreases N - i,
        {
            zeros.push(0u8);
            i = i + 1;
            proof {
                assert(zeros@ =~= padding_zeros(i as nat));
            }
        }
        let r = pw.write_bytes(zeros.as_slice());
        proof {
            lemma_appended_encoded(old(pw)@, pw@, padding_zeros(N as nat), r);
        }
        r
    }
}

impl<const N: usize> DecodePacket for Padding<N> {
    open spec fn spec_decode(s: Seq<u8>) -> Result<((), nat), DecodeFail> {
        if s.len() < N {
            Err(DecodeFail::Eof)
        } else {
            Ok(((), N as nat))
        }
    }

    proof fn lemma_decode_len(s: Seq<u8>) {
    }

    fn decode(pr: &mut PacketReader<'_>) -> (r: PacketResult<Self>) {
        let data = pr.read_array::<N>()?;
        Ok(Self::from_data(data))
    }
}

impl<const N: usize> PacketCodec for Padding<N> {
    open spec fn spec_wf(v: ()) -> bool {
        true
    }

    proof fn lemma_roundtrip(v: (), rest: Seq<u8>) {
    }
}

} // verus!
