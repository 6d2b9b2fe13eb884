//! Encoding of strings: a `u16` byte length followed by UTF-8.
use vstd::prelude::*;
use vstd::bytes::*;
use vstd::string::*;
use vstd::utf8::*;

use crate::error::Error;
use crate::reader::{le_u16, str_body, str_from_utf8, PacketReader};
use crate::writer::{str_bytes, PacketWriter};
use crate::PacketResult;

use super::{DecodeFail, DecodePacket, EncodePacket, PacketCodec};
use super::primitive::lemma_appended_encoded;

verus! {

broadcast use vstd::seq_lib::group_seq_properties;

/// The string at the front of `s`: a `u16` length, then that many bytes of
/// UTF-8.
pub open spec fn spec_decode_str(s: Seq<u8>) -> Result<(Seq<char>, nat), DecodeFail> {
    if s.len() < 2 {
        Err(DecodeFail::Eof)
    } else if s.len() < 2 + le_u16(s) {
        Err(DecodeFail::Eof)
    } else if !valid_utf8(str_body(s)) {
        Err(DecodeFail::Invalid)
    } else {
        Ok((decode_utf8(str_body(s)), (2 + le_u16(s)) as nat))
    }
}

/// Bytes needed to encode a string: the `u16` length and the UTF-8 bytes.
pub fn packet_str_len(s: &str) -> (r: usize)
    requires
        s.spec_bytes().len() + 2 <= usize::MAX,
    ensures
        r == str_bytes(s@).len(),
{
    proof {
        lemma_auto_spec_u16_to_from_le_bytes();
    }
    2 + s.len()
}

/// A string whose UTF-8 length fits the `u16` length field decodes back to
/// itself.
pub proof fn lemma_str_roundtrip(v: Seq<char>, rest: Seq<u8>)
    requires
        encode_utf8(v).len() <= u16::MAX,
    ensures
        spec_decode_str(str_bytes(v) + rest) == Ok::<(Seq<char>, nat), DecodeFail>(
            (v, str_bytes(v).len()),
        ),
{
    lemma_auto_spec_u16_to_from_le_bytes();
    encode_utf8_valid_utf8(v);
    encode_utf8_decode_utf8(v);
    let b = encode_utf8(v);
    let n = b.len() as u16;
    let s = str_bytes(v) + rest;
    assert(s.take(2) =~= spec_u16_to_le_bytes(n));
    assert(le_u16(s) == b.len());
    assert(str_body(s) =~= b);
}

impl EncodePacket for String {
    open spec fn spec_encode(v: Seq<char>) -> Seq<u8> {
        str_bytes(v)
    }

    fn encode_len(&self) -> (n: usize) {
        proof {
            lemma_auto_spec_u16_to_from_le_bytes();
        }
        packet_str_len(self.as_str())
    }

    fn encode(&self, pw: &mut PacketWriter) -> (r: PacketResult<()>) {
        let r = pw.write_str(self.as_str());
        proof {
            lemma_appended_encoded(old(pw)@, pw@, str_bytes(self@), r);
        }
        r
    }
}

impl<'a> EncodePacket for &'a str {
    open spec fn spec_encode(v: Seq<char>) -> Seq<u8> {
        str_bytes(v)
    }

    fn encode_len(&self) -> (n: usize) {
        proof {
            lemma_auto_spec_u16_to_from_le_bytes();
        }
        packet_str_len(*self)
    }

    fn encode(&self, pw: &mut PacketWriter) -> (r: PacketResult<()>) {
        let r = pw.write_str(*self);
        proof {
            assert(self.deep_view() == (**self)@);
            lemma_appended_encoded(old(pw)@, pw@, str_bytes(self@), r);
        }
        r
    }
}

impl DecodePacket for String {
    open spec fn spec_decode(s: Seq<u8>) -> Result<(Seq<char>, nat), DecodeFail> {
        spec_decode_str(s)
    }

    proof fn lemma_decode_len(s: Seq<u8>) {
    }

    fn decode(pr: &mut PacketReader<'_>) -> (r: PacketResult<String>) {
        let s = pr.read_string()?;
        proof {
            encode_utf8_decode_utf8(s@);
        }
        Ok(s.to_owned())
    }
}

impl PacketCodec for String {
    open spec fn spec_wf(v: Seq<char>) -> bool {
        encode_utf8(v).len() <= u16::MAX
    }

    proof fn lemma_roundtrip(v: Seq<char>, rest: Seq<u8>) {
        lemma_str_roundtrip(v, rest);
    }
}

/// Index of the first zero byte of `b`, or its length when it has none.
pub open spec fn nul_pos(b: Seq<u8>) -> nat
    decreases b.len(),
{
    if b.len() == 0 {
        0
    } else if b[0] == 0 {
        0
    } else {
        1 + nul_pos(b.drop_first())
    }
}

proof fn lemma_nul_pos(b: Seq<u8>)
    ensures
        nul_pos(b) <= b.len(),
        nul_pos(b) < b.len() ==> b[nul_pos(b) as int] == 0,
        forall|i: int| 0 <= i < nul_pos(b) ==> b[i] != 0,
    decreases b.len(),
{
    if b.len() > 0 && b[0] != 0 {
        lemma_nul_pos(b.drop_first());
        assert forall|i: int| 0 <= i < nul_pos(b) implies b[i] != 0 by {
            if i > 0 {
                assert(b[i] == b.drop_first()[i - 1]);
            }
        }
    }
}

/// `n` zero bytes.
pub open spec fn zeros(n: nat) -> Seq<u8> {
    Seq::new(n, |i: int| 0u8)
}

/// A string of at most `N` bytes, written as exactly `N` bytes: its UTF-8
/// followed by zero bytes.
#[derive(Debug, PartialEq, Eq)]
pub struct FixedPacketString<const N: usize>(String);

/// A string that does not fit the capacity.
#[derive(Debug, Clone, Copy, PartialEq, Eq)]
pub struct CapacityError;

impl<const N: usize> DeepView for FixedPacketString<N> {
    /// The string's UTF-8 bytes.
    type V = Seq<u8>;

    closed spec fn deep_view(&self) -> Seq<u8> {
        encode_utf8(self.0@)
    }
}

impl<const N: usize> FixedPacketString<N> {
    #[verifier::type_invariant]
    closed spec fn inv(self) -> bool {
        encode_utf8(self.0@).len() <= N
    }

    /// The string `s`, if its UTF-8 fits in `N` bytes.
    pub fn try_from_str(s: &str) -> (r: Result<Self, CapacityError>)
        ensures
            s.spec_bytes().len() <= N ==> (r matches Ok(f) && f.deep_view() == s.spec_bytes()),
            s.spec_bytes().len() > N ==> r is Err,
    {
        if s.as_bytes().len() <= N {
            let o = s.to_owned();
            assert(encode_utf8(o@) == s.spec_bytes());
            Ok(FixedPacketString(o))
        } else {
            Err(CapacityError)
        }
    }

    /// The string.
    pub fn as_str(&self) -> (r: &str)
        ensures
            r.spec_bytes() == self.deep_view(),
    {
        self.0.as_str()
    }
}

impl<const N: usize> Clone for FixedPacketString<N> {
    fn clone(&self) -> (r: Self)
        ensures
            r.deep_view() == self.deep_view(),
    {
        proof {
            use_type_invariant(self);
        }
        FixedPacketString(self.0.clone())
    }
}

impl<const N: usize> Default for FixedPacketString<N> {
    fn default() -> (r: Self)
        ensures
            r.deep_view() == Seq::<u8>::empty(),
    {
        let s = String::new();
        assert(encode_utf8(s@) =~= Seq::<u8>::empty());
        FixedPacketString(s)
    }
}

impl<const N: usize> EncodePacket for FixedPacketString<N> {
    open spec fn spec_encode(v: Seq<u8>) -> Seq<u8> {
        v + zeros((N - v.len()) as nat)
    }

    fn encode_len(&self) -> (n: usize) {
        proof {
            use_type_invariant(self);
        }
        N
    }

    fn encode(&self, pw: &mut PacketWriter) -> (r: PacketResult<()>) {
        proof {
            use_type_invariant(self);
        }
        let bytes = self.0.as_str().as_bytes();
        let mut b = [0u8; N];
        let mut i: usize = 0;
        while i < bytes.len()
            invariant
                0 <= i <= bytes@.len(),
                bytes@.len() <= N,
                b@.len() == N,
                forall|j: int| 0 <= j < i ==> b@[j] == bytes@[j],
                forall|j: int| i <= j < N ==> b@[j] == 0,
            decreases bytes@.len() - i,
        {
            b[i] = bytes[i];
            i = i + 1;
        }
        proof {
            assert(b@ =~= bytes@ + zeros((N - bytes@.len()) as nat));
        }
        let r = pw.write_array(&b);
        proof {
            lemma_appended_encoded(old(pw)@, pw@, b@, r);
        }
        r
    }
}

impl<const N: usize> DecodePacket for FixedPacketString<N> {
    /// `N` bytes that must be UTF-8; the string ends at the first zero byte.
    open spec fn spec_decode(s: Seq<u8>) -> Result<(Seq<u8>, nat), DecodeFail> {
        if s.len() < N {
            Err(DecodeFail::Eof)
        } else if !valid_utf8(s.take(N as int)) {
            Err(DecodeFail::Invalid)
        } else {
            Ok((s.take(N as int).take(nul_pos(s.take(N as int)) as int), N as nat))
        }
    }

    proof fn lemma_decode_len(s: Seq<u8>) {
    }

    fn decode(pr: &mut PacketReader<'_>) -> (r: PacketResult<Self>) {
        let arr = pr.read_array::<N>()?;
        let all = match str_from_utf8(arr.as_slice()) {
            Ok(st) => st,
            Err(e) => {
                return Err(Error::StringUtf8(e));
            },
        };
        let mut k: usize = 0;
        proof {
            lemma_nul_pos(arr@);
        }
        while k < N && arr[k] != 0
            invariant
                0 <= k <= N,
                arr@.len() == N,
                k <= nul_pos(arr@),
                nul_pos(arr@) <= arr@.len(),
                nul_pos(arr@) < arr@.len() ==> arr@[nul_pos(arr@) as int] == 0,
                forall|i: int| 0 <= i < nul_pos(arr@) ==> arr@[i] != 0,
            decreases N - k,
        {
            k = k + 1;
        }
        proof {
            assert(k == nul_pos(arr@));
            assert(all.spec_bytes() == arr@);
            if k < N {
                is_char_boundary_iff_not_is_continuation_byte(arr@, k as int);
            } else {
                is_char_boundary_start_end_of_seq(arr@);
            }
        }
        let (head, _) = all.split_at(k);
        proof {
            assert(head.spec_bytes() =~= arr@.take(k as int));
        }
        let out = FixedPacketString(head.to_owned());
        proof {
            assert(encode_utf8(out.0@) == head.spec_bytes());
        }
        Ok(out)
    }
}

impl<const N: usize> PacketCodec for FixedPacketString<N> {
    /// Strings of at most `N` bytes of UTF-8 without a zero byte come back.
    open spec fn spec_wf(v: Seq<u8>) -> bool {
        &&& v.len() <= N
        &&& valid_utf8(v)
        &&& forall|i: int| 0 <= i < v.len() ==> v[i] != 0
    }

    proof fn lemma_roundtrip(v: Seq<u8>, rest: Seq<u8>) {
        let z = zeros((N - v.len()) as nat);
        let e = v + z;
        assert((e + rest).take(N as int) =~= e);
        assert(valid_utf8(z)) by {
            assert(z.len() == 0 || true);
            lemma_zeros_valid(z.len());
        }
        valid_utf8_concat(v, z);
        lemma_nul_pos(e);
        if nul_pos(e) < v.len() {
            assert(e[nul_pos(e) as int] == v[nul_pos(e) as int]);
        }
        if nul_pos(e) > v.len() {
            assert(e[v.len() as int] == 0);
        }
        assert(nul_pos(e) == v.len());
        assert(e.take(v.len() as int) =~= v);
    }
}

/// Zero bytes are valid UTF-8.
proof fn lemma_zeros_valid(n: nat)
    ensures
        valid_utf8(zeros(n)),
{
    let c: Seq<char> = Seq::new(n, |i: int| '\0');
    assert(is_ascii_chars(c));
    is_ascii_chars_encode_utf8(c);
    assert(zeros(n) =~= encode_utf8(c));
    encode_utf8_valid_utf8(c);
}

} // verus!
