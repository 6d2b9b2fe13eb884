//! Encodings of tuples, vectors, options and boxes, built from those of
//! their parts.
use vstd::prelude::*;

use crate::reader::PacketReader;
use crate::writer::PacketWriter;
use crate::PacketResult;

use super::{
    decoded, encode_all, encode_n, encoded, lemma_encode_all_prefix, DecodeFail, DecodePacket,
    EncodePacket, PacketCodec,
};

verus! {

broadcast use vstd::seq_lib::group_seq_properties;

/// Two encodings in a row meet the encoding contract of their concatenation.
pub proof fn lemma_encoded_concat(
    b0: Seq<u8>,
    b1: Seq<u8>,
    b2: Seq<u8>,
    x: Seq<u8>,
    y: Seq<u8>,
    r: crate::PacketResult<()>,
)
    requires
        b0.len() + x.len() <= usize::MAX,
        b1 == b0 + x,
        encoded(b1, b2, y, r),
    ensures
        encoded(b0, b2, x + y, r),
{
    assert(b1 + y =~= b0 + (x + y));
    if !(b1.len() + y.len() <= usize::MAX) {
        assert(b0.is_prefix_of(b1));
    }
}

/// A failed first encoding fails the encoding of a concatenation.
pub proof fn lemma_encoded_fail_first(
    b0: Seq<u8>,
    b1: Seq<u8>,
    x: Seq<u8>,
    y: Seq<u8>,
    r: crate::PacketResult<()>,
)
    requires
        encoded(b0, b1, x, r),
        r is Err,
    ensures
        encoded(b0, b1, x + y, r),
{
}

impl<A: EncodePacket, B: EncodePacket> EncodePacket for (A, B) {
    open spec fn spec_encode(v: (A::V, B::V)) -> Seq<u8> {
        A::spec_encode(v.0) + B::spec_encode(v.1)
    }

    fn encode_len(&self) -> (n: usize) {
        self.0.encode_len() + self.1.encode_len()
    }

    fn encode(&self, pw: &mut PacketWriter) -> (r: PacketResult<()>) {
        let ghost b0 = pw@;
        let ghost x = A::spec_encode(self.0.deep_view());
        let ghost y = B::spec_encode(self.1.deep_view());
        let r0 = self.0.encode(pw);
        if r0.is_err() {
            proof {
                lemma_encoded_fail_first(b0, pw@, x, y, r0);
            }
            return r0;
        }
        let ghost b1 = pw@;
        let r = self.1.encode(pw);
        proof {
            lemma_encoded_concat(b0, b1, pw@, x, y, r);
        }
        r
    }
}

impl<A: DecodePacket, B: DecodePacket> DecodePacket for (A, B) {
    open spec fn spec_decode(s: Seq<u8>) -> Result<((A::V, B::V), nat), DecodeFail> {
        match A::spec_decode(s) {
            Ok((a, na)) => match B::spec_decode(s.skip(na as int)) {
                Ok((b, nb)) => Ok(((a, b), na + nb)),
                Err(f) => Err(f),
            },
            Err(f) => Err(f),
        }
    }

    proof fn lemma_decode_len(s: Seq<u8>) {
        A::lemma_decode_len(s);
        if let Ok((a, na)) = A::spec_decode(s) {
            B::lemma_decode_len(s.skip(na as int));
        }
    }

    fn decode(pr: &mut PacketReader<'_>) -> (r: PacketResult<(A, B)>) {
        let ghost s = pr.rest();
        proof {
            A::lemma_decode_len(s);
        }
        let a = A::decode(pr)?;
        let ghost na = A::spec_decode(s)->Ok_0.1;
        proof {
            B::lemma_decode_len(s.skip(na as int));
        }
        let b = B::decode(pr)?;
        proof {
            let nb = B::spec_decode(s.skip(na as int))->Ok_0.1;
            assert(s.skip(na as int).skip(nb as int) =~= s.skip((na + nb) as int));
        }
        Ok((a, b))
    }
}

impl<A: PacketCodec, B: PacketCodec> PacketCodec for (A, B) {
    open spec fn spec_wf(v: (A::V, B::V)) -> bool {
        A::spec_wf(v.0) && B::spec_wf(v.1)
    }

    proof fn lemma_roundtrip(v: (A::V, B::V), rest: Seq<u8>) {
        let x = A::spec_encode(v.0);
        let y = B::spec_encode(v.1);
        assert((x + y) + rest =~= x + (y + rest));
        A::lemma_roundtrip(v.0, y + rest);
        assert((x + (y + rest)).skip(x.len() as int) =~= y + rest);
        B::lemma_roundtrip(v.1, rest);
    }
}

impl<A: EncodePacket, B: EncodePacket, C: EncodePacket> EncodePacket for (A, B, C) {
    open spec fn spec_encode(v: (A::V, B::V, C::V)) -> Seq<u8> {
        A::spec_encode(v.0) + B::spec_encode(v.1) + C::spec_encode(v.2)
    }

    fn encode_len(&self) -> (n: usize) {
        self.0.encode_len() + self.1.encode_len() + self.2.encode_len()
    }

    fn encode(&self, pw: &mut PacketWriter) -> (r: PacketResult<()>) {
        let ghost b0 = pw@;
        let ghost x = A::spec_encode(self.0.deep_view());
        let ghost y = B::spec_encode(self.1.deep_view());
        let ghost z = C::spec_encode(self.2.deep_view());
        let r0 = self.0.encode(pw);
        if r0.is_err() {
            proof {
                lemma_encoded_fail_first(b0, pw@, x, y + z, r0);
                assert(x + (y + z) =~= x + y + z);
            }
            return r0;
        }
        let ghost b1 = pw@;
        let r1 = self.1.encode(pw);
        if r1.is_err() {
            proof {
                lemma_encoded_fail_first(b1, pw@, y, z, r1);
                lemma_encoded_concat(b0, b1, pw@, x, y + z, r1);
                assert(x + (y + z) =~= x + y + z);
            }
            return r1;
        }
        let ghost b2 = pw@;
        let r = self.2.encode(pw);
        proof {
            lemma_encoded_concat(b1, b2, pw@, y, z, r);
            lemma_encoded_concat(b0, b1, pw@, x, y + z, r);
            assert(x + (y + z) =~= x + y + z);
        }
        r
    }
}

impl<A: DecodePacket, B: DecodePacket, C: DecodePacket> DecodePacket for (A, B, C) {
    open spec fn spec_decode(s: Seq<u8>) -> Result<((A::V, B::V, C::V), nat), DecodeFail> {
        match <(A, B)>::spec_decode(s) {
            Ok((ab, nab)) => match C::spec_decode(s.skip(nab as int)) {
                Ok((c, nc)) => Ok(((ab.0, ab.1, c), nab + nc)),
                Err(f) => Err(f),
            },
            Err(f) => Err(f),
        }
    }

    proof fn lemma_decode_len(s: Seq<u8>) {
        <(A, B)>::lemma_decode_len(s);
        if let Ok((ab, nab)) = <(A, B)>::spec_decode(s) {
            C::lemma_decode_len(s.skip(nab as int));
        }
    }

    fn decode(pr: &mut PacketReader<'_>) -> (r: PacketResult<(A, B, C)>) {
        let ghost s = pr.rest();
        proof {
            <(A, B)>::lemma_decode_len(s);
        }
        let (a, b) = <(A, B)>::decode(pr)?;
        let ghost nab = <(A, B)>::spec_decode(s)->Ok_0.1;
        proof {
            C::lemma_decode_len(s.skip(nab as int));
        }
        let c = C::decode(pr)?;
        proof {
            let nc = C::spec_decode(s.skip(nab as int))->Ok_0.1;
            assert(s.skip(nab as int).skip(nc as int) =~= s.skip((nab + nc) as int));
        }
        Ok((a, b, c))
    }
}

impl<A: PacketCodec, B: PacketCodec, C: PacketCodec> PacketCodec for (A, B, C) {
    open spec fn spec_wf(v: (A::V, B::V, C::V)) -> bool {
        A::spec_wf(v.0) && B::spec_wf(v.1) && C::spec_wf(v.2)
    }

    proof fn lemma_roundtrip(v: (A::V, B::V, C::V), rest: Seq<u8>) {
        let x = A::spec_encode(v.0);
        let y = B::spec_encode(v.1);
        let z = C::spec_encode(v.2);
        assert(x + y + z + rest =~= (x + y) + (z + rest));
        <(A, B)>::lemma_roundtrip((v.0, v.1), z + rest);
        assert(((x + y) + (z + rest)).skip((x + y).len() as int) =~= z + rest);
        C::lemma_roundtrip(v.2, rest);
    }
}

impl<T: EncodePacket> EncodePacket for Vec<T> {
    open spec fn spec_encode(v: Seq<T::V>) -> Seq<u8> {
        encode_all::<T>(v)
    }

    fn encode_len(&self) -> (n: usize) {
        let mut n: usize = 0;
        let mut i: usize = 0;
        proof {
            assert(self.deep_view().take(0) =~= Seq::<T::V>::empty());
        }
        while i < self.len()
            invariant
                0 <= i <= self.len(),
                encode_all::<T>(self.deep_view()).len() <= usize::MAX,
                n == encode_all::<T>(self.deep_view().take(i as int)).len(),
            decreases self.len() - i,
        {
            proof {
                assert(self.deep_view().take(i + 1).drop_last() =~= self.deep_view().take(
                    i as int,
                ));
                lemma_encode_all_prefix::<T>(self.deep_view(), i + 1);
            }
            n = n + self[i].encode_len();
            i = i + 1;
        }
        proof {
            assert(self.deep_view().take(self.len() as int) =~= self.deep_view());
        }
        n
    }

    fn encode(&self, pw: &mut PacketWriter) -> (r: PacketResult<()>) {
        encode_n(self.as_slice(), pw)
    }
}

impl<D: EncodePacket> EncodePacket for Option<D> {
    open spec fn spec_encode(v: Option<D::V>) -> Seq<u8> {
        match v {
            Some(x) => D::spec_encode(x),
            None => Seq::empty(),
        }
    }

    fn encode_len(&self) -> (n: usize) {
        match self {
            Some(v) => v.encode_len(),
            None => 0,
        }
    }

    fn encode(&self, pw: &mut PacketWriter) -> (r: PacketResult<()>) {
        match self {
            Some(v) => v.encode(pw),
            None => {
                let _ = pw.len();
                proof {
                    assert(pw@ =~= old(pw)@ + Seq::<u8>::empty());
                }
                Ok(())
            },
        }
    }
}

impl<T: EncodePacket> EncodePacket for Box<T> {
    open spec fn spec_encode(v: T::V) -> Seq<u8> {
        T::spec_encode(v)
    }

    fn encode_len(&self) -> (n: usize) {
        (**self).encode_len()
    }

    fn encode(&self, pw: &mut PacketWriter) -> (r: PacketResult<()>) {
        (**self).encode(pw)
    }
}

impl<T: DecodePacket> DecodePacket for Box<T> {
    open spec fn spec_decode(s: Seq<u8>) -> Result<(T::V, nat), DecodeFail> {
        T::spec_decode(s)
    }

    proof fn lemma_decode_len(s: Seq<u8>) {
        T::lemma_decode_len(s);
    }

    fn decode(pr: &mut PacketReader<'_>) -> (r: PacketResult<Box<T>>) {
        let v = T::decode(pr)?;
        Ok(Box::new(v))
    }
}

impl<T: PacketCodec> PacketCodec for Box<T> {
    open spec fn spec_wf(v: T::V) -> bool {
        T::spec_wf(v)
    }

    proof fn lemma_roundtrip(v: T::V, rest: Seq<u8>) {
        T::lemma_roundtrip(v, rest);
    }
}

} // verus!
