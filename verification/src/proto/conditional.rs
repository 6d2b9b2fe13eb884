//! Values that are present on the wire or not depending on a condition
//! known from an earlier field.
use vstd::prelude::*;

use crate::reader::PacketReader;
use crate::writer::PacketWriter;
use crate::PacketResult;

use super::{encoded, decoded, DecodeFail, DecodePacket, EncodePacket, PacketCodec};

verus! {

broadcast use vstd::seq_lib::group_seq_properties;

/// En- and decoding that depends on a condition.
pub trait PacketConditional: DeepView + Sized {
    /// The bytes written for `v` under `cond`.
    spec fn spec_encode_cond(v: Self::V, cond: bool) -> Seq<u8>;

    /// The value read from the front of `s` under `cond`.
    spec fn spec_decode_cond(cond: bool, s: Seq<u8>) -> Result<(Self::V, nat), DecodeFail>;

    /// Values that fit the condition and survive the round trip.
    spec fn spec_cond_wf(v: Self::V, cond: bool) -> bool;

    proof fn lemma_decode_cond_len(cond: bool, s: Seq<u8>)
        ensures
            Self::spec_decode_cond(cond, s) matches Ok((_, n)) ==> n <= s.len(),
    ;

    /// A value that fits the condition decodes back to itself.
    proof fn lemma_cond_roundtrip(v: Self::V, cond: bool, rest: Seq<u8>)
        requires
            Self::spec_cond_wf(v, cond),
        ensures
            Self::spec_decode_cond(cond, Self::spec_encode_cond(v, cond) + rest) == Ok::<
                (Self::V, nat),
                DecodeFail,
            >((v, Self::spec_encode_cond(v, cond).len())),
    ;

    /// Encodes under the condition.
    fn encode_cond(&self, cond: bool, pw: &mut PacketWriter) -> (r: PacketResult<()>)
        ensures
            encoded(old(pw)@, final(pw)@, Self::spec_encode_cond(self.deep_view(), cond), r),
    ;

    /// Decodes under the condition.
    fn decode_cond(cond: bool, pr: &mut PacketReader<'_>) -> (r: PacketResult<Self>)
        ensures
            decoded(Self::spec_decode_cond(cond, old(pr).rest()), r, *old(pr), *final(pr)),
    ;
}

/// Value present exactly when the condition holds.
#[derive(Debug, Clone, Copy, PartialEq, Eq)]
pub struct CondOption<T>(pub Option<T>);

impl<T: DeepView> DeepView for CondOption<T> {
    type V = Option<T::V>;

    open spec fn deep_view(&self) -> Option<T::V> {
        self.0.deep_view()
    }
}

impl<T> CondOption<T> {
    /// The absent value.
    pub fn new_none() -> (r: Self)
        ensures
            r.0 is None,
    {
        CondOption(None)
    }
}

impl<T: EncodePacket> EncodePacket for CondOption<T> {
    open spec fn spec_encode(v: Option<T::V>) -> Seq<u8> {
        match v {
            Some(x) => T::spec_encode(x),
            None => Seq::empty(),
        }
    }

    fn encode_len(&self) -> (n: usize) {
        match &self.0 {
            Some(v) => v.encode_len(),
            None => 0,
        }
    }

    fn encode(&self, pw: &mut PacketWriter) -> (r: PacketResult<()>) {
        self.0.encode(pw)
    }
}

impl<T: DeepView> CondOption<T> {
    /// Length of the encoding under `cond`: that of the value when `cond`
    /// holds, which then must be present, else zero.
    pub fn encode_len_cond(&self, cond: bool) -> (n: usize)
        where
            T: EncodePacket,
        requires
            cond ==> self.0 is Some,
            cond ==> T::spec_encode(self.0->Some_0.deep_view()).len() <= usize::MAX,
        ensures
            n == if cond {
                T::spec_encode(self.0->Some_0.deep_view()).len()
            } else {
                0
            },
    {
        if cond {
            match &self.0 {
                Some(v) => v.encode_len(),
                None => 0,
            }
        } else {
            0
        }
    }
}

impl<T: PacketCodec> PacketConditional for CondOption<T> {
    open spec fn spec_encode_cond(v: Option<T::V>, cond: bool) -> Seq<u8> {
        match v {
            Some(x) => T::spec_encode(x),
            None => Seq::empty(),
        }
    }

    open spec fn spec_decode_cond(cond: bool, s: Seq<u8>) -> Result<(Option<T::V>, nat), DecodeFail> {
        if cond {
            match T::spec_decode(s) {
                Ok((v, n)) => Ok((Some(v), n)),
                Err(f) => Err(f),
            }
        } else {
            Ok((None, 0))
        }
    }

    open spec fn spec_cond_wf(v: Option<T::V>, cond: bool) -> bool {
        match v {
            Some(x) => cond && T::spec_wf(x),
            None => !cond,
        }
    }

    proof fn lemma_decode_cond_len(cond: bool, s: Seq<u8>) {
        T::lemma_decode_len(s);
    }

    proof fn lemma_cond_roundtrip(v: Option<T::V>, cond: bool, rest: Seq<u8>) {
        match v {
            Some(x) => T::lemma_roundtrip(x, rest),
            None => {},
        }
    }

    fn encode_cond(&self, cond: bool, pw: &mut PacketWriter) -> (r: PacketResult<()>) {
        self.0.encode(pw)
    }

    fn decode_cond(cond: bool, pr: &mut PacketReader<'_>) -> (r: PacketResult<Self>) {
        if cond {
            let v = T::decode(pr)?;
            Ok(CondOption(Some(v)))
        } else {
            proof {
                assert(pr.rest().skip(0) =~= pr.rest());
            }
            Ok(CondOption(None))
        }
    }
}

/// One of two values.
#[derive(Debug, Clone, Copy, PartialEq, Eq)]
pub enum Either<L, R> {
    Left(L),
    Right(R),
}

impl<L: DeepView, R: DeepView> DeepView for Either<L, R> {
    type V = Either<L::V, R::V>;

    open spec fn deep_view(&self) -> Either<L::V, R::V> {
        match self {
            Either::Left(l) => Either::Left(l.deep_view()),
            Either::Right(r) => Either::Right(r.deep_view()),
        }
    }
}

/// Left value when the condition holds, right value otherwise.
#[derive(Debug, Clone, Copy, PartialEq, Eq)]
pub struct CondEither<L, R>(pub Either<L, R>);

impl<L: DeepView, R: DeepView> DeepView for CondEither<L, R> {
    type V = Either<L::V, R::V>;

    open spec fn deep_view(&self) -> Either<L::V, R::V> {
        self.0.deep_view()
    }
}

impl<L: PacketCodec, R: PacketCodec> CondEither<L, R> {
    /// Length of the encoding of the value held, whatever the condition.
    pub fn encode_len_cond(&self, cond: bool) -> (n: usize)
        requires
            Self::spec_encode_cond(self.deep_view(), cond).len() <= usize::MAX,
        ensures
            n == Self::spec_encode_cond(self.deep_view(), cond).len(),
    {
        match &self.0 {
            Either::Left(v) => v.encode_len(),
            Either::Right(v) => v.encode_len(),
        }
    }
}

impl<L: PacketCodec, R: PacketCodec> PacketConditional for CondEither<L, R> {
    open spec fn spec_encode_cond(v: Either<L::V, R::V>, cond: bool) -> Seq<u8> {
        match v {
            Either::Left(x) => L::spec_encode(x),
            Either::Right(x) => R::spec_encode(x),
        }
    }

    open spec fn spec_decode_cond(cond: bool, s: Seq<u8>) -> Result<
        (Either<L::V, R::V>, nat),
        DecodeFail,
    > {
        if cond {
            match L::spec_decode(s) {
                Ok((v, n)) => Ok((Either::Left(v), n)),
                Err(f) => Err(f),
            }
        } else {
            match R::spec_decode(s) {
                Ok((v, n)) => Ok((Either::Right(v), n)),
                Err(f) => Err(f),
            }
        }
    }

    open spec fn spec_cond_wf(v: Either<L::V, R::V>, cond: bool) -> bool {
        match v {
            Either::Left(x) => cond && L::spec_wf(x),
            Either::Right(x) => !cond && R::spec_wf(x),
        }
    }

    proof fn lemma_decode_cond_len(cond: bool, s: Seq<u8>) {
        L::lemma_decode_len(s);
        R::lemma_decode_len(s);
    }

    proof fn lemma_cond_roundtrip(v: Either<L::V, R::V>, cond: bool, rest: Seq<u8>) {
        match v {
            Either::Left(x) => L::lemma_roundtrip(x, rest),
            Either::Right(x) => R::lemma_roundtrip(x, rest),
        }
    }

    fn encode_cond(&self, cond: bool, pw: &mut PacketWriter) -> (r: PacketResult<()>) {
        match &self.0 {
            Either::Left(v) => v.encode(pw),
            Either::Right(v) => v.encode(pw),
        }
    }

    fn decode_cond(cond: bool, pr: &mut PacketReader<'_>) -> (r: PacketResult<Self>) {
        if cond {
            let v = L::decode(pr)?;
            Ok(CondEither(Either::Left(v)))
        } else {
            let v = R::decode(pr)?;
            Ok(CondEither(Either::Right(v)))
        }
    }
}

} // verus!
