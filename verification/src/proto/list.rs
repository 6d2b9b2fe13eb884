//! Lists: a length followed by the items, or (index, item) pairs closed by a
//! terminator index.
use vstd::prelude::*;

use std::marker::PhantomData;

use crate::reader::PacketReader;
use crate::writer::PacketWriter;
use crate::PacketResult;

use super::compound::{lemma_encoded_concat, lemma_encoded_fail_first};
use super::{
    decode_n, decode_seq, encode_all, encode_n, lemma_decode_seq_len, DecodeFail, DecodePacket,
    EncodePacket, PacketCodec,
};

verus! {

broadcast use vstd::seq_lib::group_seq_properties;

/// Type of a list length.
pub trait ShroomListLen: PacketCodec + Copy {
    /// The length a value stands for.
    spec fn spec_to_len(v: Self::V) -> nat;

    /// The value written for a length (truncated to the type's width).
    spec fn spec_from_len(n: nat) -> Self::V;

    /// Largest length that the type holds faithfully.
    spec fn spec_max_len() -> nat;

    /// Lengths up to the maximum survive, and every value survives encoding.
    proof fn lemma_len(n: nat)
        ensures
            n <= Self::spec_max_len() ==> Self::spec_to_len(Self::spec_from_len(n)) == n,
            Self::spec_wf(Self::spec_from_len(n)),
            Self::spec_max_len() <= usize::MAX,
    ;

    /// Every value survives encoding.
    proof fn lemma_all_wf(v: Self::V)
        ensures
            Self::spec_wf(v),
    ;

    /// A length always takes at least one byte.
    proof fn lemma_decode_nonempty(s: Seq<u8>)
        ensures
            Self::spec_decode(s) matches Ok((_, n)) ==> n >= 1,
    ;

    fn to_len(&self) -> (r: usize)
        ensures
            r == Self::spec_to_len(self.deep_view()),
    ;

    fn from_len(ix: usize) -> (r: Self)
        ensures
            r.deep_view() == Self::spec_from_len(ix as nat),
    ;
}

/// Type of a list index, with the terminators that close an index list.
pub trait ShroomListIndex: ShroomListLen {
    /// Terminator of `ShroomIndexList`.
    spec fn spec_terminator() -> Self::V;

    /// Terminator of `ShroomIndexListZ`.
    spec fn spec_zero_terminator() -> Self::V;

    fn terminator() -> (r: Self)
        ensures
            r.deep_view() == Self::spec_terminator(),
    ;

    fn zero_terminator() -> (r: Self)
        ensures
            r.deep_view() == Self::spec_zero_terminator(),
    ;

    fn eq_index(&self, other: &Self) -> (r: bool)
        ensures
            r == (self.deep_view() == other.deep_view()),
    ;
}

impl ShroomListLen for u8 {
    open spec fn spec_to_len(v: u8) -> nat {
        (v as usize) as nat
    }

    open spec fn spec_from_len(n: nat) -> u8 {
        n as u8
    }

    open spec fn spec_max_len() -> nat {
        u8::MAX as nat
    }

    proof fn lemma_len(n: nat) {
    }

    proof fn lemma_decode_nonempty(s: Seq<u8>) {
    }

    proof fn lemma_all_wf(v: Self) {
    }

    fn to_len(&self) -> (r: usize) {
        #[verifier::truncate]
        (*self as usize)
    }

    fn from_len(ix: usize) -> (r: u8) {
        #[verifier::truncate]
        (ix as u8)
    }
}

impl ShroomListIndex for u8 {
    open spec fn spec_terminator() -> u8 {
        u8::MAX
    }

    open spec fn spec_zero_terminator() -> u8 {
        u8::MIN
    }

    fn terminator() -> (r: u8) {
        u8::MAX
    }

    fn zero_terminator() -> (r: u8) {
        u8::MIN
    }

    fn eq_index(&self, other: &Self) -> (r: bool) {
        *self == *other
    }
}

impl ShroomListLen for u16 {
    open spec fn spec_to_len(v: u16) -> nat {
        (v as usize) as nat
    }

    open spec fn spec_from_len(n: nat) -> u16 {
        n as u16
    }

    open spec fn spec_max_len() -> nat {
        u16::MAX as nat
    }

    proof fn lemma_len(n: nat) {
    }

    proof fn lemma_decode_nonempty(s: Seq<u8>) {
    }

    proof fn lemma_all_wf(v: Self) {
    }

    fn to_len(&self) -> (r: usize) {
        #[verifier::truncate]
        (*self as usize)
    }

    fn from_len(ix: usize) -> (r: u16) {
        #[verifier::truncate]
        (ix as u16)
    }
}

impl ShroomListIndex for u16 {
    open spec fn spec_terminator() -> u16 {
        u16::MAX
    }

    open spec fn spec_zero_terminator() -> u16 {
        u16::MIN
    }

    fn terminator() -> (r: u16) {
        u16::MAX
    }

    fn zero_terminator() -> (r: u16) {
        u16::MIN
    }

    fn eq_index(&self, other: &Self) -> (r: bool) {
        *self == *other
    }
}

impl ShroomListLen for u32 {
    open spec fn spec_to_len(v: u32) -> nat {
        (v as usize) as nat
    }

    open spec fn spec_from_len(n: nat) -> u32 {
        n as u32
    }

    open spec fn spec_max_len() -> nat {
        u32::MAX as nat
    }

    proof fn lemma_len(n: nat) {
    }

    proof fn lemma_decode_nonempty(s: Seq<u8>) {
    }

    proof fn lemma_all_wf(v: Self) {
    }

    fn to_len(&self) -> (r: usize) {
        #[verifier::truncate]
        (*self as usize)
    }

    fn from_len(ix: usize) -> (r: u32) {
        #[verifier::truncate]
        (ix as u32)
    }
}

impl ShroomListIndex for u32 {
    open spec fn spec_terminator() -> u32 {
        u32::MAX
    }

    open spec fn spec_zero_terminator() -> u32 {
        u32::MIN
    }

    fn terminator() -> (r: u32) {
        u32::MAX
    }

    fn zero_terminator() -> (r: u32) {
        u32::MIN
    }

    fn eq_index(&self, other: &Self) -> (r: bool) {
        *self == *other
    }
}

impl ShroomListLen for u64 {
    open spec fn spec_to_len(v: u64) -> nat {
        (v as usize) as nat
    }

    open spec fn spec_from_len(n: nat) -> u64 {
        n as u64
    }

    open spec fn spec_max_len() -> nat {
        usize::MAX as nat
    }

    proof fn lemma_len(n: nat) {
    }

    proof fn lemma_decode_nonempty(s: Seq<u8>) {
    }

    proof fn lemma_all_wf(v: Self) {
    }

    fn to_len(&self) -> (r: usize) {
        #[verifier::truncate]
        (*self as usize)
    }

    fn from_len(ix: usize) -> (r: u64) {
        #[verifier::truncate]
        (ix as u64)
    }
}

impl ShroomListIndex for u64 {
    open spec fn spec_terminator() -> u64 {
        u64::MAX
    }

    open spec fn spec_zero_terminator() -> u64 {
        u64::MIN
    }

    fn terminator() -> (r: u64) {
        u64::MAX
    }

    fn zero_terminator() -> (r: u64) {
        u64::MIN
    }

    fn eq_index(&self, other: &Self) -> (r: bool) {
        *self == *other
    }
}

/// Terminator index of an index list: the zero terminator when `z`, the
/// maximum otherwise.
pub open spec fn spec_term<I: ShroomListIndex>(z: bool) -> I::V {
    if z {
        I::spec_zero_terminator()
    } else {
        I::spec_terminator()
    }
}

/// The terminator for `z`.
pub fn get_term<I: ShroomListIndex>(z: bool) -> (r: I)
    ensures
        r.deep_view() == spec_term::<I>(z),
{
    if z {
        I::zero_terminator()
    } else {
        I::terminator()
    }
}

/// Encoding of a sequence put in front of another.
pub proof fn lemma_encode_all_cons<T: EncodePacket>(x: T::V, vs: Seq<T::V>)
    ensures
        encode_all::<T>(seq![x] + vs) == T::spec_encode(x) + encode_all::<T>(vs),
    decreases vs.len(),
{
    if vs.len() == 0 {
        assert(seq![x] + vs =~= seq![x]);
        assert(seq![x].drop_last() =~= Seq::<T::V>::empty());
        assert(T::spec_encode(x) + Seq::<u8>::empty() =~= T::spec_encode(x));
    } else {
        lemma_encode_all_cons::<T>(x, vs.drop_last());
        assert((seq![x] + vs).drop_last() =~= seq![x] + vs.drop_last());
        assert(T::spec_encode(x) + encode_all::<T>(vs.drop_last()) + T::spec_encode(vs.last())
            =~= T::spec_encode(x) + (encode_all::<T>(vs.drop_last()) + T::spec_encode(
            vs.last(),
        )));
    }
}

/// Decoding the encodings of items that all survive the round trip gives
/// them back.
pub proof fn lemma_decode_seq_roundtrip<T: PacketCodec>(vs: Seq<T::V>, rest: Seq<u8>)
    requires
        forall|i: int| 0 <= i < vs.len() ==> T::spec_wf(#[trigger] vs[i]),
    ensures
        decode_seq::<T>(encode_all::<T>(vs) + rest, vs.len()) == Ok::<(Seq<T::V>, nat), DecodeFail>(
            (vs, encode_all::<T>(vs).len()),
        ),
    decreases vs.len(),
{
    if vs.len() > 0 {
        let init = vs.drop_last();
        let x = vs.last();
        let e0 = encode_all::<T>(init);
        let e1 = T::spec_encode(x);
        assert(e0 + e1 + rest =~= e0 + (e1 + rest));
        assert(T::spec_wf(vs[vs.len() - 1]));
        lemma_decode_seq_roundtrip::<T>(init, e1 + rest);
        assert((e0 + (e1 + rest)).skip(e0.len() as int) =~= e1 + rest);
        T::lemma_roundtrip(x, rest);
        assert(init.push(x) =~= vs);
    } else {
        assert(vs =~= Seq::<T::V>::empty());
    }
}

/// List with the length `L` in front of the items.
#[derive(Debug)]
pub struct ShroomList<L, T> {
    pub items: Vec<T>,
    pub _index: PhantomData<L>,
}

impl<L, T: DeepView> DeepView for ShroomList<L, T> {
    type V = Seq<T::V>;

    open spec fn deep_view(&self) -> Seq<T::V> {
        self.items.deep_view()
    }
}

impl<L, T> ShroomList<L, T> {
    /// The list of `items`.
    pub fn from_vec(items: Vec<T>) -> (r: Self)
        ensures
            r.items@ == items@,
    {
        ShroomList { items, _index: PhantomData }
    }

    /// An empty list.
    pub fn new() -> (r: Self)
        ensures
            r.items@.len() == 0,
    {
        ShroomList { items: Vec::new(), _index: PhantomData }
    }

    /// Number of items.
    pub fn len(&self) -> (r: usize)
        ensures
            r == self.items@.len(),
    {
        self.items.len()
    }
}

impl<L: ShroomListLen, T: EncodePacket> EncodePacket for ShroomList<L, T> {
    open spec fn spec_encode(v: Seq<T::V>) -> Seq<u8> {
        L::spec_encode(L::spec_from_len(v.len())) + encode_all::<T>(v)
    }

    fn encode_len(&self) -> (n: usize) {
        let l = L::from_len(self.items.len());
        l.encode_len() + self.items.encode_len()
    }

    fn encode(&self, pw: &mut PacketWriter) -> (r: PacketResult<()>) {
        let ghost b0 = pw@;
        let ghost x = L::spec_encode(L::spec_from_len(self.items@.len()));
        let ghost y = encode_all::<T>(self.items.deep_view());
        let l = L::from_len(self.items.len());
        let r0 = l.encode(pw);
        if r0.is_err() {
            proof {
                lemma_encoded_fail_first(b0, pw@, x, y, r0);
            }
            return r0;
        }
        let ghost b1 = pw@;
        let r = encode_n(self.items.as_slice(), pw);
        proof {
            lemma_encoded_concat(b0, b1, pw@, x, y, r);
        }
        r
    }
}

impl<L: ShroomListLen, T: DecodePacket> DecodePacket for ShroomList<L, T> {
    open spec fn spec_decode(s: Seq<u8>) -> Result<(Seq<T::V>, nat), DecodeFail> {
        match L::spec_decode(s) {
            Ok((l, nl)) => match decode_seq::<T>(s.skip(nl as int), L::spec_to_len(l)) {
                Ok((vs, m)) => Ok((vs, nl + m)),
                Err(f) => Err(f),
            },
            Err(f) => Err(f),
        }
    }

    proof fn lemma_decode_len(s: Seq<u8>) {
        L::lemma_decode_len(s);
        if let Ok((l, nl)) = L::spec_decode(s) {
            lemma_decode_seq_len::<T>(s.skip(nl as int), L::spec_to_len(l));
        }
    }

    fn decode(pr: &mut PacketReader<'_>) -> (r: PacketResult<Self>) {
        let ghost s = pr.rest();
        proof {
            L::lemma_decode_len(s);
        }
        let n = L::decode(pr)?;
        let n = n.to_len();
        let ghost nl = L::spec_decode(s)->Ok_0.1;
        proof {
            lemma_decode_seq_len::<T>(s.skip(nl as int), n as nat);
        }
        let items = decode_n::<T>(pr, n)?;
        proof {
            let m = decode_seq::<T>(s.skip(nl as int), n as nat)->Ok_0.1;
            assert(s.skip(nl as int).skip(m as int) =~= s.skip((nl + m) as int));
        }
        Ok(Self::from_vec(items))
    }
}

impl<L: ShroomListLen, T: PacketCodec> PacketCodec for ShroomList<L, T> {
    open spec fn spec_wf(v: Seq<T::V>) -> bool {
        &&& v.len() <= L::spec_max_len()
        &&& forall|i: int| 0 <= i < v.len() ==> T::spec_wf(#[trigger] v[i])
    }

    proof fn lemma_roundtrip(v: Seq<T::V>, rest: Seq<u8>) {
        let l = L::spec_from_len(v.len());
        let x = L::spec_encode(l);
        let y = encode_all::<T>(v);
        L::lemma_len(v.len());
        assert((x + y) + rest =~= x + (y + rest));
        L::lemma_roundtrip(l, y + rest);
        assert((x + (y + rest)).skip(x.len() as int) =~= y + rest);
        lemma_decode_seq_roundtrip::<T>(v, rest);
    }
}

/// List with a `u8` length.
pub type ShroomList8<T> = ShroomList<u8, T>;

/// List with a `u16` length.
pub type ShroomList16<T> = ShroomList<u16, T>;

/// List with a `u32` length.
pub type ShroomList32<T> = ShroomList<u32, T>;

/// List with a `u64` length.
pub type ShroomList64<T> = ShroomList<u64, T>;

/// Puts decoded `items`, taking `used` bytes, in front of the outcome `r` of
/// decoding what follows them.
pub open spec fn prepend_outcome<V>(
    items: Seq<V>,
    used: nat,
    r: Result<(Seq<V>, nat), DecodeFail>,
) -> Result<(Seq<V>, nat), DecodeFail> {
    match r {
        Ok((vs, m)) => Ok((items + vs, used + m)),
        Err(f) => Err(f),
    }
}

/// The (index, item) pairs at the front of `s`, up to and including the
/// terminator index for `z`.
pub open spec fn spec_decode_index_list<I: ShroomListIndex, T: DecodePacket>(
    s: Seq<u8>,
    z: bool,
) -> Result<(Seq<(I::V, T::V)>, nat), DecodeFail>
    decreases s.len(),
{
    match I::spec_decode(s) {
        Ok((ix, ni)) => if ix == spec_term::<I>(z) {
            Ok((Seq::empty(), ni))
        } else {
            match T::spec_decode(s.skip(ni as int)) {
                Ok((v, nv)) => {
                    proof {
                        I::lemma_decode_nonempty(s);
                        I::lemma_decode_len(s);
                        T::lemma_decode_len(s.skip(ni as int));
                    }
                    prepend_outcome(
                        seq![(ix, v)],
                        ni + nv,
                        spec_decode_index_list::<I, T>(s.skip((ni + nv) as int), z),
                    )
                },
                Err(f) => Err(f),
            }
        },
        Err(f) => Err(f),
    }
}

pub proof fn lemma_decode_index_list_len<I: ShroomListIndex, T: DecodePacket>(s: Seq<u8>, z: bool)
    ensures
        spec_decode_index_list::<I, T>(s, z) matches Ok((_, n)) ==> n <= s.len(),
    decreases s.len(),
{
    I::lemma_decode_len(s);
    I::lemma_decode_nonempty(s);
    if let Ok((ix, ni)) = I::spec_decode(s) {
        if ix != spec_term::<I>(z) {
            T::lemma_decode_len(s.skip(ni as int));
            if let Ok((v, nv)) = T::spec_decode(s.skip(ni as int)) {
                lemma_decode_index_list_len::<I, T>(s.skip((ni + nv) as int), z);
            }
        }
    }
}

/// List of (index, item) pairs closed by a terminator index: the maximum
/// index when `Z` is false, the zero index when it is true.
#[derive(Debug)]
pub struct ShroomBaseIndexList<const Z: bool, I, T>(pub Vec<(I, T)>);

impl<const Z: bool, I: DeepView, T: DeepView> DeepView for ShroomBaseIndexList<Z, I, T> {
    type V = Seq<(I::V, T::V)>;

    open spec fn deep_view(&self) -> Seq<(I::V, T::V)> {
        self.0.deep_view()
    }
}

impl<const Z: bool, I: ShroomListIndex, T: EncodePacket> EncodePacket for ShroomBaseIndexList<
    Z,
    I,
    T,
> {
    open spec fn spec_encode(v: Seq<(I::V, T::V)>) -> Seq<u8> {
        encode_all::<(I, T)>(v) + I::spec_encode(spec_term::<I>(Z))
    }

    fn encode_len(&self) -> (n: usize) {
        self.0.encode_len() + get_term::<I>(Z).encode_len()
    }

    fn encode(&self, pw: &mut PacketWriter) -> (r: PacketResult<()>) {
        let ghost b0 = pw@;
        let ghost x = encode_all::<(I, T)>(self.0.deep_view());
        let ghost y = I::spec_encode(spec_term::<I>(Z));
        let r0 = encode_n(self.0.as_slice(), pw);
        if r0.is_err() {
            proof {
                lemma_encoded_fail_first(b0, pw@, x, y, r0);
            }
            return r0;
        }
        let ghost b1 = pw@;
        let r = get_term::<I>(Z).encode(pw);
        proof {
            lemma_encoded_concat(b0, b1, pw@, x, y, r);
        }
        r
    }
}

impl<const Z: bool, I: ShroomListIndex, T: DecodePacket> DecodePacket for ShroomBaseIndexList<
    Z,
    I,
    T,
> {
    open spec fn spec_decode(s: Seq<u8>) -> Result<(Seq<(I::V, T::V)>, nat), DecodeFail> {
        spec_decode_index_list::<I, T>(s, Z)
    }

    proof fn lemma_decode_len(s: Seq<u8>) {
        lemma_decode_index_list_len::<I, T>(s, Z);
    }

    fn decode(pr: &mut PacketReader<'_>) -> (r: PacketResult<Self>) {
        let mut items: Vec<(I, T)> = Vec::new();
        let ghost start = *pr;
        let term = get_term::<I>(Z);
        proof {
            assert(start.rest().skip(0) =~= start.rest());
            assert(items.deep_view() =~= Seq::<(I::V, T::V)>::empty());
            assert(prepend_outcome(
                Seq::<(I::V, T::V)>::empty(),
                0,
                spec_decode_index_list::<I, T>(start.rest(), Z),
            ) =~= spec_decode_index_list::<I, T>(start.rest(), Z));
        }
        loop
            invariant
                pr.data() == start.data(),
                start == *old(pr),
                term.deep_view() == spec_term::<I>(Z),
                pr.pos() >= start.pos(),
                pr.rest() == start.rest().skip(pr.pos() - start.pos()),
                pr.pos() - start.pos() <= start.rest().len(),
                spec_decode_index_list::<I, T>(start.rest(), Z) == prepend_outcome(
                    items.deep_view(),
                    (pr.pos() - start.pos()) as nat,
                    spec_decode_index_list::<I, T>(pr.rest(), Z),
                ),
            decreases pr.rest().len(),
        {
            let ghost s = pr.rest();
            let ghost used = (pr.pos() - start.pos()) as nat;
            let ghost prev_items = items.deep_view();
            proof {
                I::lemma_decode_len(s);
                I::lemma_decode_nonempty(s);
            }
            let ix = I::decode(pr)?;
            let ghost ni = I::spec_decode(s)->Ok_0.1;
            if ix.eq_index(&term) {
                proof {
                    assert(spec_decode_index_list::<I, T>(s, Z) == Ok::<
                        (Seq<(I::V, T::V)>, nat),
                        DecodeFail,
                    >((Seq::empty(), ni)));
                    assert(items.deep_view() + Seq::<(I::V, T::V)>::empty() =~= items.deep_view());
                    assert(start.rest().skip(used as int).skip(ni as int) =~= start.rest().skip(
                        (used + ni) as int,
                    ));
                }
                return Ok(ShroomBaseIndexList(items));
            }
            proof {
                T::lemma_decode_len(s.skip(ni as int));
            }
            let item = T::decode(pr)?;
            let ghost nv = T::spec_decode(s.skip(ni as int))->Ok_0.1;
            items.push((ix, item));
            proof {
                assert(items.deep_view() =~= prev_items.push((ix.deep_view(), item.deep_view())));
                assert(s.skip(ni as int).skip(nv as int) =~= s.skip((ni + nv) as int));
                assert(start.rest().skip(used as int).skip((ni + nv) as int) =~= start.rest().skip(
                    (used + ni + nv) as int,
                ));
                let tail = spec_decode_index_list::<I, T>(s.skip((ni + nv) as int), Z);
                match tail {
                    Ok((vs, m)) => {
                        assert(prev_items + (seq![(ix.deep_view(), item.deep_view())] + vs)
                            =~= items.deep_view() + vs);
                    },
                    Err(_) => {},
                }
            }
        }
    }
}

impl<const Z: bool, I: ShroomListIndex, T: PacketCodec> PacketCodec for ShroomBaseIndexList<
    Z,
    I,
    T,
> {
    open spec fn spec_wf(v: Seq<(I::V, T::V)>) -> bool {
        forall|i: int|
            0 <= i < v.len() ==> {
                &&& I::spec_wf((#[trigger] v[i]).0)
                &&& T::spec_wf(v[i].1)
                &&& v[i].0 != spec_term::<I>(Z)
            }
    }

    proof fn lemma_roundtrip(v: Seq<(I::V, T::V)>, rest: Seq<u8>) {
        lemma_index_list_roundtrip::<Z, I, T>(v, rest);
    }
}

/// An index list without terminators among its indices decodes back to
/// itself.
pub proof fn lemma_index_list_roundtrip<const Z: bool, I: ShroomListIndex, T: PacketCodec>(
    v: Seq<(I::V, T::V)>,
    rest: Seq<u8>,
)
    requires
        ShroomBaseIndexList::<Z, I, T>::spec_wf(v),
    ensures
        spec_decode_index_list::<I, T>(
            ShroomBaseIndexList::<Z, I, T>::spec_encode(v) + rest,
            Z,
        ) == Ok::<(Seq<(I::V, T::V)>, nat), DecodeFail>(
            (v, ShroomBaseIndexList::<Z, I, T>::spec_encode(v).len()),
        ),
    decreases v.len(),
{
    let t = spec_term::<I>(Z);
    let et = I::spec_encode(t);
    I::lemma_len(0);
    if v.len() == 0 {
        assert(encode_all::<(I, T)>(v) =~= Seq::<u8>::empty());
        assert(Seq::<u8>::empty() + et + rest =~= et + rest);
        lemma_term_wf::<I>(Z);
        I::lemma_roundtrip(t, rest);
        assert(v =~= Seq::<(I::V, T::V)>::empty());
    } else {
        let x = v[0];
        let tl = v.drop_first();
        assert(seq![x] + tl =~= v);
        lemma_encode_all_cons::<(I, T)>(x, tl);
        let ei = I::spec_encode(x.0);
        let ev = T::spec_encode(x.1);
        let etl = encode_all::<(I, T)>(tl) + et;
        assert forall|i: int| 0 <= i < tl.len() implies {
            &&& I::spec_wf((#[trigger] tl[i]).0)
            &&& T::spec_wf(tl[i].1)
            &&& tl[i].0 != spec_term::<I>(Z)
        } by {
            assert(tl[i] == v[i + 1]);
        }
        lemma_index_list_roundtrip::<Z, I, T>(tl, rest);
        let s = ShroomBaseIndexList::<Z, I, T>::spec_encode(v) + rest;
        assert(s =~= ei + (ev + (etl + rest)));
        I::lemma_roundtrip(x.0, ev + (etl + rest));
        assert(s.skip(ei.len() as int) =~= ev + (etl + rest));
        T::lemma_roundtrip(x.1, etl + rest);
        assert(s.skip((ei.len() + ev.len()) as int) =~= etl + rest);
        assert(etl + rest =~= ShroomBaseIndexList::<Z, I, T>::spec_encode(tl) + rest);
        assert(seq![(x.0, x.1)] + tl =~= v);
    }
}

/// The terminators survive the round trip.
pub proof fn lemma_term_wf<I: ShroomListIndex>(z: bool)
    ensures
        I::spec_wf(spec_term::<I>(z)),
{
    lemma_index_wf::<I>(spec_term::<I>(z));
}

/// Every index survives the round trip.
pub proof fn lemma_index_wf<I: ShroomListIndex>(v: I::V)
    ensures
        I::spec_wf(v),
{
    I::lemma_all_wf(v);
}

/// Index list closed by the maximum index.
pub type ShroomIndexList<I, T> = ShroomBaseIndexList<false, I, T>;

/// Index list closed by the zero index.
pub type ShroomIndexListZ<I, T> = ShroomBaseIndexList<true, I, T>;

pub type ShroomIndexList8<T> = ShroomIndexList<u8, T>;

pub type ShroomIndexList16<T> = ShroomIndexList<u16, T>;

pub type ShroomIndexList32<T> = ShroomIndexList<u32, T>;

pub type ShroomIndexList64<T> = ShroomIndexList<u64, T>;

pub type ShroomIndexListZ8<T> = ShroomIndexListZ<u8, T>;

pub type ShroomIndexListZ16<T> = ShroomIndexListZ<u16, T>;

pub type ShroomIndexListZ32<T> = ShroomIndexListZ<u32, T>;

pub type ShroomIndexListZ64<T> = ShroomIndexListZ<u64, T>;

/// The terminator of an index list is the largest index its type holds, and
/// that of a `Z` list the smallest: no index lies above, or below, it.
pub proof fn lemma_index_terminators(a: u8, b: u16, c: u32, d: u64)
    ensures
        a <= <u8 as ShroomListIndex>::spec_terminator(),
        b <= <u16 as ShroomListIndex>::spec_terminator(),
        c <= <u32 as ShroomListIndex>::spec_terminator(),
        d <= <u64 as ShroomListIndex>::spec_terminator(),
        <u8 as ShroomListIndex>::spec_zero_terminator() <= a,
        <u16 as ShroomListIndex>::spec_zero_terminator() <= b,
        <u32 as ShroomListIndex>::spec_zero_terminator() <= c,
        <u64 as ShroomListIndex>::spec_zero_terminator() <= d,
{
}

/// With `u8` indices, an empty index list is the single byte `0xFF` (`0x00`
/// for a `Z` list), and reading stops at the first such byte, after one
/// byte, with no items.
pub proof fn lemma_index_list8_terminator<T: PacketCodec>(rest: Seq<u8>)
    ensures
        <ShroomIndexList8<T> as EncodePacket>::spec_encode(Seq::empty()) == seq![0xFFu8],
        <ShroomIndexListZ8<T> as EncodePacket>::spec_encode(Seq::empty()) == seq![0u8],
        <ShroomIndexList8<T> as DecodePacket>::spec_decode(seq![0xFFu8] + rest) == Ok::<
            (Seq<(u8, T::V)>, nat),
            DecodeFail,
        >((Seq::empty(), 1)),
        <ShroomIndexListZ8<T> as DecodePacket>::spec_decode(seq![0u8] + rest) == Ok::<
            (Seq<(u8, T::V)>, nat),
            DecodeFail,
        >((Seq::empty(), 1)),
{
    assert(encode_all::<(u8, T)>(Seq::empty()) =~= Seq::<u8>::empty());
    assert(Seq::<u8>::empty() + seq![0xFFu8] =~= seq![0xFFu8]);
    assert(Seq::<u8>::empty() + seq![0u8] =~= seq![0u8]);
    assert((seq![0xFFu8] + rest)[0] == 0xFFu8);
    assert((seq![0u8] + rest)[0] == 0u8);
}

} // verus!
