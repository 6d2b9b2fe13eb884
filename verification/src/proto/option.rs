//! Optional values behind a discriminant.
use vstd::prelude::*;

use std::marker::PhantomData;

use crate::reader::PacketReader;
use crate::writer::PacketWriter;
use crate::PacketResult;

use super::compound::{lemma_encoded_concat, lemma_encoded_fail_first};
use super::{DecodeFail, DecodePacket, EncodePacket, PacketCodec};

verus! {

broadcast use vstd::seq_lib::group_seq_properties;

/// Discriminant of an optional value: one value stands for "absent", one for
/// "present", and `has_value` tells them apart.
pub trait ShroomOptionDiscriminant: PacketCodec + Copy {
    spec fn spec_none() -> Self::V;

    spec fn spec_some() -> Self::V;

    spec fn spec_has_value(v: Self::V) -> bool;

    /// The two values are told apart and survive the round trip.
    proof fn lemma_discriminant()
        ensures
            !Self::spec_has_value(Self::spec_none()),
            Self::spec_has_value(Self::spec_some()),
            Self::spec_wf(Self::spec_none()),
            Self::spec_wf(Self::spec_some()),
    ;

    fn none_value() -> (r: Self)
        ensures
            r.deep_view() == Self::spec_none(),
    ;

    fn some_value() -> (r: Self)
        ensures
            r.deep_view() == Self::spec_some(),
    ;

    fn has_value(&self) -> (r: bool)
        ensures
            r == Self::spec_has_value(self.deep_view()),
    ;

    /// The discriminant of the opposite case.
    fn reverse(&self) -> (r: Self)
        ensures
            r.deep_view() == if Self::spec_has_value(self.deep_view()) {
                Self::spec_none()
            } else {
                Self::spec_some()
            },
    {
        if self.has_value() {
            Self::none_value()
        } else {
            Self::some_value()
        }
    }
}

impl ShroomOptionDiscriminant for u8 {
    open spec fn spec_none() -> u8 {
        0
    }

    open spec fn spec_some() -> u8 {
        1
    }

    open spec fn spec_has_value(v: u8) -> bool {
        v != 0
    }

    proof fn lemma_discriminant() {
    }

    fn none_value() -> (r: u8) {
        0
    }

    fn some_value() -> (r: u8) {
        1
    }

    fn has_value(&self) -> (r: bool) {
        *self != 0
    }
}

impl ShroomOptionDiscriminant for bool {
    open spec fn spec_none() -> bool {
        false
    }

    open spec fn spec_some() -> bool {
        true
    }

    open spec fn spec_has_value(v: bool) -> bool {
        v
    }

    proof fn lemma_discriminant() {
    }

    fn none_value() -> (r: bool) {
        false
    }

    fn some_value() -> (r: bool) {
        true
    }

    fn has_value(&self) -> (r: bool) {
        *self
    }
}

/// Reversed discriminant: the wire value that `Opt` reads as "absent" means
/// "present", and the other way round.
#[derive(Debug, Clone, Copy)]
pub struct RevShroomOptionDiscriminant<Opt>(pub Opt);

impl<Opt: DeepView> DeepView for RevShroomOptionDiscriminant<Opt> {
    type V = Opt::V;

    open spec fn deep_view(&self) -> Opt::V {
        self.0.deep_view()
    }
}

impl<Opt: ShroomOptionDiscriminant> RevShroomOptionDiscriminant<Opt> {
    /// The reversed discriminant of the case opposite to `value`.
    pub fn from_discriminant(value: Opt) -> (r: Self)
        ensures
            r.deep_view() == if Opt::spec_has_value(value.deep_view()) {
                Opt::spec_none()
            } else {
                Opt::spec_some()
            },
    {
        Self(value.reverse())
    }
}

impl<Opt: ShroomOptionDiscriminant> EncodePacket for RevShroomOptionDiscriminant<Opt> {
    open spec fn spec_encode(v: Opt::V) -> Seq<u8> {
        Opt::spec_encode(v)
    }

    fn encode_len(&self) -> (n: usize) {
        self.0.encode_len()
    }

    fn encode(&self, pw: &mut PacketWriter) -> (r: PacketResult<()>) {
        self.0.encode(pw)
    }
}

impl<Opt: ShroomOptionDiscriminant> DecodePacket for RevShroomOptionDiscriminant<Opt> {
    open spec fn spec_decode(s: Seq<u8>) -> Result<(Opt::V, nat), DecodeFail> {
        Opt::spec_decode(s)
    }

    proof fn lemma_decode_len(s: Seq<u8>) {
        Opt::lemma_decode_len(s);
    }

    fn decode(pr: &mut PacketReader<'_>) -> (r: PacketResult<Self>) {
        let d = Opt::decode(pr)?;
        Ok(Self(d))
    }
}

impl<Opt: ShroomOptionDiscriminant> PacketCodec for RevShroomOptionDiscriminant<Opt> {
    open spec fn spec_wf(v: Opt::V) -> bool {
        Opt::spec_wf(v)
    }

    proof fn lemma_roundtrip(v: Opt::V, rest: Seq<u8>) {
        Opt::lemma_roundtrip(v, rest);
    }
}

impl<Opt: ShroomOptionDiscriminant> ShroomOptionDiscriminant for RevShroomOptionDiscriminant<Opt> {
    open spec fn spec_none() -> Opt::V {
        Opt::spec_some()
    }

    open spec fn spec_some() -> Opt::V {
        Opt::spec_none()
    }

    open spec fn spec_has_value(v: Opt::V) -> bool {
        !Opt::spec_has_value(v)
    }

    proof fn lemma_discriminant() {
        Opt::lemma_discriminant();
    }

    fn none_value() -> (r: Self) {
        Self(Opt::some_value())
    }

    fn some_value() -> (r: Self) {
        Self(Opt::none_value())
    }

    fn has_value(&self) -> (r: bool) {
        !self.0.has_value()
    }
}

/// Optional value: the discriminant `D`, then the value when `D` says it is
/// present.
#[derive(Debug)]
pub struct ShroomOption<T, D> {
    pub opt: Option<T>,
    pub _t: PhantomData<D>,
}

impl<T: DeepView, D> DeepView for ShroomOption<T, D> {
    type V = Option<T::V>;

    open spec fn deep_view(&self) -> Option<T::V> {
        self.opt.deep_view()
    }
}

impl<T, D> ShroomOption<T, D> {
    pub fn from_opt(opt: Option<T>) -> (r: Self)
        ensures
            r.opt == opt,
    {
        ShroomOption { opt, _t: PhantomData }
    }
}

/// Encoding of an optional value behind the discriminant `D`.
pub open spec fn spec_encode_option<T: EncodePacket, D: ShroomOptionDiscriminant>(
    v: Option<T::V>,
) -> Seq<u8> {
    match v {
        Some(x) => D::spec_encode(D::spec_some()) + T::spec_encode(x),
        None => D::spec_encode(D::spec_none()),
    }
}

impl<T: EncodePacket, D: ShroomOptionDiscriminant> EncodePacket for ShroomOption<T, D> {
    open spec fn spec_encode(v: Option<T::V>) -> Seq<u8> {
        spec_encode_option::<T, D>(v)
    }

    fn encode_len(&self) -> (n: usize) {
        match &self.opt {
            Some(v) => D::some_value().encode_len() + v.encode_len(),
            None => D::none_value().encode_len(),
        }
    }

    fn encode(&self, pw: &mut PacketWriter) -> (r: PacketResult<()>) {
        match &self.opt {
            Some(v) => {
                let ghost b0 = pw@;
                let d = D::some_value();
                let r0 = d.encode(pw);
                if r0.is_err() {
                    proof {
                        lemma_encoded_fail_first(
                            b0,
                            pw@,
                            D::spec_encode(D::spec_some()),
                            T::spec_encode(v.deep_view()),
                            r0,
                        );
                    }
                    return r0;
                }
                let ghost b1 = pw@;
                let r = v.encode(pw);
                proof {
                    lemma_encoded_concat(
                        b0,
                        b1,
                        pw@,
                        D::spec_encode(D::spec_some()),
                        T::spec_encode(v.deep_view()),
                        r,
                    );
                }
                r
            },
            None => D::none_value().encode(pw),
        }
    }
}

impl<T: DecodePacket, D: ShroomOptionDiscriminant> DecodePacket for ShroomOption<T, D> {
    open spec fn spec_decode(s: Seq<u8>) -> Result<(Option<T::V>, nat), DecodeFail> {
        match D::spec_decode(s) {
            Ok((d, nd)) => if D::spec_has_value(d) {
                match T::spec_decode(s.skip(nd as int)) {
                    Ok((v, nv)) => Ok((Some(v), nd + nv)),
                    Err(f) => Err(f),
                }
            } else {
                Ok((None, nd))
            },
            Err(f) => Err(f),
        }
    }

    proof fn lemma_decode_len(s: Seq<u8>) {
        D::lemma_decode_len(s);
        if let Ok((d, nd)) = D::spec_decode(s) {
            T::lemma_decode_len(s.skip(nd as int));
        }
    }

    fn decode(pr: &mut PacketReader<'_>) -> (r: PacketResult<Self>) {
        let ghost s = pr.rest();
        proof {
            D::lemma_decode_len(s);
        }
        let d = D::decode(pr)?;
        let ghost nd = D::spec_decode(s)->Ok_0.1;
        if d.has_value() {
            proof {
                T::lemma_decode_len(s.skip(nd as int));
            }
            let v = T::decode(pr)?;
            proof {
                let nv = T::spec_decode(s.skip(nd as int))->Ok_0.1;
                assert(s.skip(nd as int).skip(nv as int) =~= s.skip((nd + nv) as int));
            }
            Ok(Self::from_opt(Some(v)))
        } else {
            Ok(Self::from_opt(None))
        }
    }
}

impl<T: PacketCodec, D: ShroomOptionDiscriminant> PacketCodec for ShroomOption<T, D> {
    open spec fn spec_wf(v: Option<T::V>) -> bool {
        match v {
            Some(x) => T::spec_wf(x),
            None => true,
        }
    }

    proof fn lemma_roundtrip(v: Option<T::V>, rest: Seq<u8>) {
        D::lemma_discriminant();
        match v {
            Some(x) => {
                let a = D::spec_encode(D::spec_some());
                let b = T::spec_encode(x);
                assert((a + b) + rest =~= a + (b + rest));
                D::lemma_roundtrip(D::spec_some(), b + rest);
                assert((a + (b + rest)).skip(a.len() as int) =~= b + rest);
                T::lemma_roundtrip(x, rest);
            },
            None => {
                D::lemma_roundtrip(D::spec_none(), rest);
            },
        }
    }
}

/// Optional value behind a `u8`: `0` for absent, otherwise present.
pub type ShroomOption8<T> = ShroomOption<T, u8>;

/// Optional value behind a reversed `u8`: `0` for present, otherwise absent.
pub type ShroomOptionR8<T> = ShroomOption<T, RevShroomOptionDiscriminant<u8>>;

/// Optional value behind a `bool`: `false` for absent.
pub type ShroomOptionBool<T> = ShroomOption<T, bool>;

/// Optional value behind a reversed `bool`: `false` for present.
pub type ShroomOptionRBool<T> = ShroomOption<T, RevShroomOptionDiscriminant<bool>>;

/// On the wire, a present value is the byte `1` and then the value, and an
/// absent one the byte `0`, both with a `u8` and with a `bool` in front; the
/// reversed forms put `0` before a present value and `1` for an absent one.
pub proof fn lemma_option_wire_bytes<T: EncodePacket>(x: T::V)
    ensures
        <ShroomOption8<T> as EncodePacket>::spec_encode(Some(x)) == seq![1u8] + T::spec_encode(x),
        <ShroomOption8<T> as EncodePacket>::spec_encode(None) == seq![0u8],
        <ShroomOptionBool<T> as EncodePacket>::spec_encode(Some(x)) == seq![1u8]
            + T::spec_encode(x),
        <ShroomOptionBool<T> as EncodePacket>::spec_encode(None) == seq![0u8],
        <ShroomOptionR8<T> as EncodePacket>::spec_encode(Some(x)) == seq![0u8] + T::spec_encode(x),
        <ShroomOptionR8<T> as EncodePacket>::spec_encode(None) == seq![1u8],
        <ShroomOptionRBool<T> as EncodePacket>::spec_encode(Some(x)) == seq![0u8]
            + T::spec_encode(x),
        <ShroomOptionRBool<T> as EncodePacket>::spec_encode(None) == seq![1u8],
{
}

/// Reading an option: a first byte other than `0` means a value follows
/// (for a `u8` and a `bool` discriminant), and takes one byte more than the
/// value; a `0` means none, in one byte. The reversed forms read the other
/// way round.
pub proof fn lemma_option_wire_decode<T: DecodePacket>(s: Seq<u8>)
    requires
        s.len() >= 1,
    ensures
        s[0] != 0 ==> <ShroomOption8<T> as DecodePacket>::spec_decode(s) == spec_some_then::<T>(s),
        s[0] != 0 ==> <ShroomOptionBool<T> as DecodePacket>::spec_decode(s) == spec_some_then::<T>(
            s,
        ),
        s[0] != 0 ==> <ShroomOptionR8<T> as DecodePacket>::spec_decode(s) == Ok::<
            (Option<T::V>, nat),
            DecodeFail,
        >((None, 1)),
        s[0] != 0 ==> <ShroomOptionRBool<T> as DecodePacket>::spec_decode(s) == Ok::<
            (Option<T::V>, nat),
            DecodeFail,
        >((None, 1)),
        s[0] == 0 ==> <ShroomOption8<T> as DecodePacket>::spec_decode(s) == Ok::<
            (Option<T::V>, nat),
            DecodeFail,
        >((None, 1)),
        s[0] == 0 ==> <ShroomOptionBool<T> as DecodePacket>::spec_decode(s) == Ok::<
            (Option<T::V>, nat),
            DecodeFail,
        >((None, 1)),
        s[0] == 0 ==> <ShroomOptionR8<T> as DecodePacket>::spec_decode(s) == spec_some_then::<T>(s),
        s[0] == 0 ==> <ShroomOptionRBool<T> as DecodePacket>::spec_decode(s) == spec_some_then::<T>(
            s,
        ),
{
}

/// A value read after a one-byte discriminant: the value and one byte more
/// than it takes, or why it cannot be read.
pub open spec fn spec_some_then<T: DecodePacket>(s: Seq<u8>) -> Result<(Option<T::V>, nat), DecodeFail> {
    match T::spec_decode(s.skip(1)) {
        Ok((v, n)) => Ok((Some(v), 1 + n)),
        Err(f) => Err(f),
    }
}

} // verus!
