//! Small values of WZ images: strings, positions, links and vectors, and the
//! keys an archive is read with.
use vstd::prelude::*;

use crate::proto::compound::{lemma_encoded_concat, lemma_encoded_fail_first};
use crate::proto::{DecodeFail, DecodePacket, EncodePacket, PacketCodec};
use crate::reader::PacketReader;
use crate::writer::PacketWriter;
use crate::PacketResult;

use super::str_table::RcStr;
use super::ty::WzInt;

verus! {

broadcast use vstd::seq_lib::group_seq_properties;

/// String of a WZ image.
#[derive(Debug, Clone)]
pub struct WzImgStr(pub RcStr);

impl WzImgStr {
    /// The string `s`.
    pub fn new(s: RcStr) -> (r: Self)
        ensures
            r.0@ == s@,
    {
        WzImgStr(s)
    }
}

/// A value with the byte position where it starts.
#[derive(Debug, Clone, PartialEq, Eq)]
pub struct WzPosValue<T> {
    /// The value read.
    pub val: T,
    /// The byte position of the start of the value.
    pub pos: u64,
}

impl WzPosValue<()> {
    /// The position `pos`, with no value.
    pub fn new(pos: u64) -> (r: WzPosValue<()>)
        ensures
            r.pos == pos,
    {
        WzPosValue { val: (), pos }
    }
}

/// Link to another node of the image.
#[derive(Debug, Clone)]
pub struct WzLink {
    pub unknown: u8,
    pub link: WzImgStr,
}

/// Two-dimensional vector.
#[derive(Debug, Clone, Copy)]
pub struct WzVector2D {
    pub x: WzInt,
    pub y: WzInt,
}

impl DeepView for WzVector2D {
    type V = (i32, i32);

    open spec fn deep_view(&self) -> (i32, i32) {
        (self.x.0, self.y.0)
    }
}

impl EncodePacket for WzVector2D {
    open spec fn spec_encode(v: (i32, i32)) -> Seq<u8> {
        WzInt::spec_encode(v.0) + WzInt::spec_encode(v.1)
    }

    fn encode_len(&self) -> (n: usize) {
        self.x.encode_len() + self.y.encode_len()
    }

    fn encode(&self, pw: &mut PacketWriter) -> (r: PacketResult<()>) {
        let ghost b0 = pw@;
        let ghost a = WzInt::spec_encode(self.x.0);
        let ghost b = WzInt::spec_encode(self.y.0);
        let r0 = self.x.encode(pw);
        if r0.is_err() {
            proof {
                lemma_encoded_fail_first(b0, pw@, a, b, r0);
            }
            return r0;
        }
        let ghost b1 = pw@;
        let r = self.y.encode(pw);
        proof {
            lemma_encoded_concat(b0, b1, pw@, a, b, r);
        }
        r
    }
}

impl DecodePacket for WzVector2D {
    open spec fn spec_decode(s: Seq<u8>) -> Result<((i32, i32), nat), DecodeFail> {
        match WzInt::spec_decode(s) {
            Ok((x, n)) => match WzInt::spec_decode(s.skip(n as int)) {
                Ok((y, m)) => Ok(((x, y), n + m)),
                Err(f) => Err(f),
            },
            Err(f) => Err(f),
        }
    }

    proof fn lemma_decode_len(s: Seq<u8>) {
        WzInt::lemma_decode_len(s);
        if let Ok((x, n)) = WzInt::spec_decode(s) {
            WzInt::lemma_decode_len(s.skip(n as int));
        }
    }

    fn decode(pr: &mut PacketReader<'_>) -> (r: PacketResult<WzVector2D>) {
        let ghost s = pr.rest();
        proof {
            WzInt::lemma_decode_len(s);
        }
        let x = WzInt::decode(pr)?;
        let y = WzInt::decode(pr)?;
        proof {
            let n = WzInt::spec_decode(s)->Ok_0.1;
            let m = WzInt::spec_decode(s.skip(n as int))->Ok_0.1;
            assert(s.skip(n as int).skip(m as int) =~= s.skip((n + m) as int));
        }
        Ok(WzVector2D { x, y })
    }
}

impl PacketCodec for WzVector2D {
    open spec fn spec_wf(v: (i32, i32)) -> bool {
        true
    }

    proof fn lemma_roundtrip(v: (i32, i32), rest: Seq<u8>) {
        let a = WzInt::spec_encode(v.0);
        let b = WzInt::spec_encode(v.1);
        assert((a + b) + rest =~= a + (b + rest));
        WzInt::lemma_roundtrip(v.0, b + rest);
        assert((a + (b + rest)).skip(a.len() as int) =~= b + rest);
        WzInt::lemma_roundtrip(v.1, rest);
    }
}

/// Convex shape given by its corner vectors.
#[derive(Debug, Clone)]
pub struct WzConvex2D(pub Vec<WzVector2D>);

/// Keys that an archive's data and offsets are encrypted with.
#[derive(Debug)]
pub struct WzCryptoContext {
    pub initial_iv: [u8; 16],
    pub key: [u8; 32],
    pub offset_magic: u32,
    pub no_crypto: bool,
}

} // verus!
