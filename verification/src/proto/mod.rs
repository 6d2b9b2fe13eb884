//! The encoding traits and their laws.
use vstd::prelude::*;

use crate::error::Error;
use crate::reader::PacketReader;
use crate::writer::PacketWriter;
use crate::PacketResult;

pub mod compound;
pub mod conditional;
pub mod id;
pub mod list;
pub mod option;
pub mod padding;
pub mod primitive;
pub mod string;
pub mod time;

verus! {

broadcast use vstd::seq_lib::group_seq_properties;

/// Why a decode fails: the bytes ran out, or they are not a valid encoding.
#[derive(Debug, Clone, Copy, PartialEq, Eq)]
pub enum DecodeFail {
    Eof,
    Invalid,
}

/// `r` reports that `bytes` were appended to `before`, giving `after`; when
/// they do not fit the write fails with `OutOfCapacity`, and what was written
/// until then is kept.
pub open spec fn encoded(
    before: Seq<u8>,
    after: Seq<u8>,
    bytes: Seq<u8>,
    r: PacketResult<()>,
) -> bool {
    if before.len() + bytes.len() <= usize::MAX {
        &&& r is Ok
        &&& after == before + bytes
    } else {
        &&& r matches Err(Error::OutOfCapacity)
        &&& before.is_prefix_of(after)
    }
}

/// `r` is the outcome of a decode whose model outcome is `spec`, run on the
/// reader `before`, which it left as `after`.
pub open spec fn decoded<'a, T: DeepView>(
    spec: Result<(T::V, nat), DecodeFail>,
    r: PacketResult<T>,
    before: PacketReader<'a>,
    after: PacketReader<'a>,
) -> bool {
    &&& after.data() == before.data()
    &&& match spec {
        Ok((v, n)) => {
            &&& r matches Ok(x) && x.deep_view() == v
            &&& after.pos() == before.pos() + n
            &&& after.rest() == before.rest().skip(n as int)
        },
        Err(DecodeFail::Eof) => r matches Err(e) && e is EOF,
        Err(DecodeFail::Invalid) => r matches Err(e) && !(e is EOF),
    }
}

/// A type with a wire encoding.
pub trait EncodePacket: DeepView + Sized {
    /// The bytes that encode a value.
    spec fn spec_encode(v: Self::V) -> Seq<u8>;

    /// Length of the encoding.
    fn encode_len(&self) -> (n: usize)
        requires
            Self::spec_encode(self.deep_view()).len() <= usize::MAX,
        ensures
            n == Self::spec_encode(self.deep_view()).len(),
    ;

    /// Appends the encoding to the writer.
    fn encode(&self, pw: &mut PacketWriter) -> (r: PacketResult<()>)
        ensures
            encoded(old(pw)@, final(pw)@, Self::spec_encode(self.deep_view()), r),
    ;

    /// The encoding as a fresh byte vector.
    fn to_data(&self) -> (r: PacketResult<Vec<u8>>)
        ensures
            Self::spec_encode(self.deep_view()).len() <= usize::MAX ==> (r matches Ok(d) && d@
                == Self::spec_encode(self.deep_view())),
            Self::spec_encode(self.deep_view()).len() > usize::MAX ==> r matches Err(
                Error::OutOfCapacity,
            ),
    {
        let mut pw = PacketWriter::default();
        self.encode(&mut pw)?;
        Ok(pw.into_inner())
    }
}

/// Appends the encodings of all items, in order.
pub fn encode_n<T: EncodePacket>(items: &[T], pw: &mut PacketWriter) -> (r: PacketResult<()>)
    ensures
        encoded(old(pw)@, final(pw)@, encode_all::<T>(items.deep_view()), r),
{
    let mut i: usize = 0;
    let _ = pw.len();
    proof {
        assert(items.deep_view().take(0) =~= Seq::<T::V>::empty());
        assert(pw@ =~= old(pw)@ + Seq::<u8>::empty());
    }
    while i < items.len()
        invariant
            0 <= i <= items.len(),
            old(pw)@.len() + encode_all::<T>(items.deep_view().take(i as int)).len()
                <= usize::MAX,
            pw@ == old(pw)@ + encode_all::<T>(items.deep_view().take(i as int)),
        decreases items.len() - i,
    {
        let ghost before = pw@;
        proof {
            assert(items.deep_view().take(i + 1).drop_last() =~= items.deep_view().take(
                i as int,
            ));
        }
        let res = items[i].encode(pw);
        match res {
            Ok(()) => {},
            Err(e) => {
                proof {
                    lemma_encode_all_prefix::<T>(items.deep_view(), i as int + 1);
                    assert(items.deep_view().take(items.len() as int) =~= items.deep_view());
                    assert(old(pw)@.is_prefix_of(before));
                    assert(before.is_prefix_of(pw@));
                    assert(old(pw)@.is_prefix_of(pw@));
                }
                return Err(e);
            },
        }
        i = i + 1;
    }
    proof {
        assert(items.deep_view().take(items.len() as int) =~= items.deep_view());
    }
    Ok(())
}

/// Concatenated encodings of a sequence of values.
pub open spec fn encode_all<T: EncodePacket>(s: Seq<T::V>) -> Seq<u8>
    decreases s.len(),
{
    if s.len() == 0 {
        Seq::empty()
    } else {
        encode_all::<T>(s.drop_last()) + T::spec_encode(s.last())
    }
}

/// The encoding of a prefix is a prefix of the encoding.
pub proof fn lemma_encode_all_prefix<T: EncodePacket>(s: Seq<T::V>, i: int)
    requires
        0 <= i <= s.len(),
    ensures
        encode_all::<T>(s.take(i)).is_prefix_of(encode_all::<T>(s)),
        encode_all::<T>(s.take(i)).len() <= encode_all::<T>(s).len(),
    decreases s.len() - i,
{
    if i < s.len() {
        lemma_encode_all_prefix::<T>(s, i + 1);
        assert(s.take(i + 1).drop_last() =~= s.take(i));
    } else {
        assert(s.take(i) =~= s);
    }
}

/// The outcome of a decode as `try_decode` reports it: a value as `Some`,
/// running out of bytes as `None`, and any other error unchanged.
pub fn eof_as_none<T>(d: PacketResult<T>) -> (r: PacketResult<Option<T>>)
    ensures
        match d {
            Ok(v) => r == Ok::<Option<T>, Error>(Some(v)),
            Err(e) => if e is EOF {
                r == Ok::<Option<T>, Error>(None)
            } else {
                r == Err::<Option<T>, Error>(e)
            },
        },
{
    match d {
        Ok(v) => Ok(Some(v)),
        Err(e) => {
            if e.is_eof() {
                Ok(None)
            } else {
                Err(e)
            }
        },
    }
}

/// A type that can be decoded from the front of a byte sequence.
pub trait DecodePacket: DeepView + Sized {
    /// The value at the front of `s` and the number of bytes it takes, or why
    /// there is none.
    spec fn spec_decode(s: Seq<u8>) -> Result<(Self::V, nat), DecodeFail>;

    /// A decode never takes more bytes than there are.
    proof fn lemma_decode_len(s: Seq<u8>)
        ensures
            Self::spec_decode(s) matches Ok((_, n)) ==> n <= s.len(),
    ;

    /// Decodes a value at the reader's position.
    fn decode(pr: &mut PacketReader<'_>) -> (r: PacketResult<Self>)
        ensures
            decoded(Self::spec_decode(old(pr).rest()), r, *old(pr), *final(pr)),
    ;

    /// Decodes a value when the bytes suffice; when they run out, gives `None`
    /// and leaves the reader where it was. Any other error of `decode` is
    /// returned as it came (see `eof_as_none`), and the reader is left where
    /// it was.
    fn try_decode(pr: &mut PacketReader<'_>) -> (r: PacketResult<Option<Self>>)
        ensures
            final(pr).data() == old(pr).data(),
            match Self::spec_decode(old(pr).rest()) {
                Ok((v, n)) => {
                    &&& r matches Ok(Some(x)) && x.deep_view() == v
                    &&& final(pr).pos() == old(pr).pos() + n
                    &&& final(pr).rest() == old(pr).rest().skip(n as int)
                },
                Err(DecodeFail::Eof) => {
                    &&& r matches Ok(None)
                    &&& *final(pr) == *old(pr)
                    &&& final(pr).pos() == old(pr).pos()
                    &&& final(pr).rest() == old(pr).rest()
                },
                Err(DecodeFail::Invalid) => {
                    &&& r matches Err(e) && !(e is EOF)
                    &&& *final(pr) == *old(pr)
                    &&& final(pr).rest() == old(pr).rest()
                },
            },
    {
        let mut sub_reader = pr.sub_reader();
        proof {
            Self::lemma_decode_len(old(pr).rest());
        }
        match Self::decode(&mut sub_reader) {
            Ok(item) => {
                let c = pr.commit_sub_reader(sub_reader);
                assert(c is Ok);
                Ok(Some(item))
            },
            Err(e) => eof_as_none(Err(e)),
        }
    }

    /// Decodes a value that must take all remaining bytes.
    fn decode_complete(pr: &mut PacketReader<'_>) -> (r: Result<Self, CompleteError>)
        ensures
            final(pr).data() == old(pr).data(),
            match Self::spec_decode(old(pr).rest()) {
                Ok((v, n)) => if n == old(pr).rest().len() {
                    r matches Ok(x) && x.deep_view() == v
                } else {
                    r matches Err(CompleteError::Remaining(d)) && d@ == old(pr).rest().skip(
                        n as int,
                    )
                },
                Err(_) => r matches Err(CompleteError::Decode(_)),
            },
    {
        proof {
        Self::lemma_decode_len(old(pr).rest());
    }
    let res = match Self::decode(pr) {
            Ok(v) => v,
            Err(e) => {
                return Err(CompleteError::Decode(e));
            },
        };
        let rest = pr.remaining_slice();
        if rest.len() != 0 {
            return Err(CompleteError::Remaining(vstd::slice::slice_to_vec(rest)));
        }
        Ok(res)
    }
}

/// A type whose decoding borrows nothing from the bytes.
pub trait DecodePacketOwned: DecodePacket {}

impl<T: DecodePacket> DecodePacketOwned for T {}

/// Why `decode_complete` failed.
#[derive(Debug)]
pub enum CompleteError {
    /// The value could not be decoded.
    Decode(Error),
    /// Bytes were left after the value.
    Remaining(Vec<u8>),
}

/// Decodes `n` values one after another.
pub fn decode_n<T: DecodePacket>(pr: &mut PacketReader<'_>, n: usize) -> (r: PacketResult<Vec<T>>)
    ensures
        decoded(decode_seq::<T>(old(pr).rest(), n as nat), r, *old(pr), *final(pr)),
{
    let mut items: Vec<T> = Vec::new();
    let mut i: usize = 0;
    let ghost start = *pr;
    proof {
        assert(start.rest().skip(0) =~= start.rest());
        assert(items.deep_view() =~= Seq::<T::V>::empty());
    }
    while i < n
        invariant
            0 <= i <= n,
            pr.data() == start.data(),
            start == *old(pr),
            decode_seq::<T>(start.rest(), i as nat) matches Ok((vs, m)) && {
                &&& vs == items.deep_view()
                &&& pr.pos() == start.pos() + m
                &&& pr.rest() == start.rest().skip(m as int)
                &&& m <= start.rest().len()
            },
        decreases n - i,
    {
        let ghost prev_items = items.deep_view();
        let ghost m = decode_seq::<T>(start.rest(), i as nat)->Ok_0.1;
        proof {
            lemma_decode_seq_len::<T>(start.rest(), i as nat);
            T::lemma_decode_len(start.rest().skip(m as int));
        }
        let res = T::decode(pr);
        match res {
            Ok(v) => {
                items.push(v);
                proof {
                    let k = T::spec_decode(start.rest().skip(m as int))->Ok_0.1;
                    assert(items.deep_view() =~= prev_items.push(v.deep_view()));
                    assert(start.rest().skip(m as int).skip(k as int) =~= start.rest().skip(
                        (m + k) as int,
                    ));
                }
                i = i + 1;
            },
            Err(e) => {
                proof {
                    lemma_decode_seq_fail::<T>(start.rest(), (i + 1) as nat, n as nat);
                }
                return Err(e);
            },
        }
    }
    Ok(items)
}

/// `n` values decoded one after another from the front of `s`, with the
/// number of bytes they take.
pub open spec fn decode_seq<T: DecodePacket>(s: Seq<u8>, n: nat) -> Result<
    (Seq<T::V>, nat),
    DecodeFail,
>
    decreases n,
{
    if n == 0 {
        Ok((Seq::empty(), 0))
    } else {
        match decode_seq::<T>(s, (n - 1) as nat) {
            Ok((vs, m)) => match T::spec_decode(s.skip(m as int)) {
                Ok((v, k)) => Ok((vs.push(v), m + k)),
                Err(f) => Err(f),
            },
            Err(f) => Err(f),
        }
    }
}

pub proof fn lemma_decode_seq_len<T: DecodePacket>(s: Seq<u8>, n: nat)
    ensures
        decode_seq::<T>(s, n) matches Ok((vs, m)) ==> m <= s.len() && vs.len() == n,
    decreases n,
{
    if n > 0 {
        lemma_decode_seq_len::<T>(s, (n - 1) as nat);
        if let Ok((vs, m)) = decode_seq::<T>(s, (n - 1) as nat) {
            T::lemma_decode_len(s.skip(m as int));
        }
    }
}

/// Once decoding `i` values fails, decoding `n >= i` values fails the same way.
pub proof fn lemma_decode_seq_fail<T: DecodePacket>(s: Seq<u8>, i: nat, n: nat)
    requires
        i <= n,
        decode_seq::<T>(s, i) is Err,
    ensures
        decode_seq::<T>(s, n) == decode_seq::<T>(s, i),
    decreases n - i,
{
    if i < n {
        lemma_decode_seq_fail::<T>(s, i, (n - 1) as nat);
    }
}

/// A type whose decoding gives back what was encoded.
pub trait PacketCodec: EncodePacket + DecodePacket {
    /// Values that survive the round trip.
    spec fn spec_wf(v: <Self as DeepView>::V) -> bool;

    /// Decoding the encoding of `v`, followed by any bytes, gives `v` back and
    /// takes exactly the encoding.
    proof fn lemma_roundtrip(v: <Self as DeepView>::V, rest: Seq<u8>)
        requires
            Self::spec_wf(v),
        ensures
            Self::spec_decode(Self::spec_encode(v) + rest) == Ok::<
                (<Self as DeepView>::V, nat),
                DecodeFail,
            >((v, Self::spec_encode(v).len())),
    ;
}

} // verus!
