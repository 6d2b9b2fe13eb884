//! The compressed integers, string headers, vectors and offsets of WZ
//! files, little-endian.
use vstd::prelude::*;

use vstd::bytes::*;

use crate::proto::compound::{lemma_encoded_concat, lemma_encoded_fail_first};
use crate::proto::list::ShroomListLen;
use crate::proto::primitive::lemma_appended_encoded;
use crate::proto::{
    decode_n, decode_seq, encode_all, encode_n, lemma_decode_seq_len, DecodeFail, DecodePacket,
    EncodePacket, PacketCodec,
};
use crate::reader::{le_u32, le_u64, PacketReader};
use crate::writer::{le32, le64, PacketWriter};
use crate::PacketResult;

verus! {

broadcast use vstd::seq_lib::group_seq_properties;

/// Flag byte in front of a value that did not fit in one byte.
pub const WZ_LONG_FLAG: i8 = -128;

/// Whether `v` is written as a single byte.
pub open spec fn fits_compact(v: int) -> bool {
    -128 < v <= 127
}

/// A compressed integer is one byte, holding the value as `i8`, exactly when
/// the value lies in `-127..=127`; any other value is the byte `0x80` (`-128`,
/// which so never stands for itself) and then the full little-endian value.
pub proof fn lemma_wz_int_wire(v: i32, w: i64)
    ensures
        (-127 <= v && v <= 127) ==> <WzInt as EncodePacket>::spec_encode(v).len() == 1
            && <WzInt as EncodePacket>::spec_encode(v)[0] as i8 == v,
        !(-127 <= v && v <= 127) ==> <WzInt as EncodePacket>::spec_encode(v) == seq![0x80u8]
            + vstd::bytes::spec_u32_to_le_bytes(v as u32),
        (-127 <= w && w <= 127) ==> <WzLong as EncodePacket>::spec_encode(w).len() == 1
            && <WzLong as EncodePacket>::spec_encode(w)[0] as i8 == w,
        !(-127 <= w && w <= 127) ==> <WzLong as EncodePacket>::spec_encode(w) == seq![0x80u8]
            + vstd::bytes::spec_u64_to_le_bytes(w as u64),
{
    if -127 <= v && v <= 127 {
        assert(((v as i8) as u8) as i8 == v) by (bit_vector)
            requires
                -127 <= v && v <= 127,
        ;
    }
    if -127 <= w && w <= 127 {
        assert(((w as i8) as u8) as i8 == w) by (bit_vector)
            requires
                -127 <= w && w <= 127,
        ;
    }
}

/// Integer written in one byte when it fits, else as the flag byte and the
/// full little-endian `i32`.
#[derive(Debug, Clone, Copy, PartialEq, Eq, PartialOrd, Ord, Hash)]
pub struct WzInt(pub i32);

impl DeepView for WzInt {
    type V = i32;

    open spec fn deep_view(&self) -> i32 {
        self.0
    }
}

impl From<u16> for WzInt {
    fn from(value: u16) -> (r: Self) {
        WzInt(value as i32)
    }
}

impl vstd::std_specs::convert::FromSpecImpl<u16> for WzInt {
    open spec fn obeys_from_spec() -> bool {
        true
    }

    open spec fn from_spec(v: u16) -> Self {
        WzInt(v as i32)
    }
}

impl From<u8> for WzInt {
    fn from(value: u8) -> (r: Self) {
        WzInt(value as i32)
    }
}

impl vstd::std_specs::convert::FromSpecImpl<u8> for WzInt {
    open spec fn obeys_from_spec() -> bool {
        true
    }

    open spec fn from_spec(v: u8) -> Self {
        WzInt(v as i32)
    }
}

impl From<i8> for WzInt {
    fn from(value: i8) -> (r: Self) {
        WzInt(value as i32)
    }
}

impl vstd::std_specs::convert::FromSpecImpl<i8> for WzInt {
    open spec fn obeys_from_spec() -> bool {
        true
    }

    open spec fn from_spec(v: i8) -> Self {
        WzInt(v as i32)
    }
}

impl From<i16> for WzInt {
    fn from(value: i16) -> (r: Self) {
        WzInt(value as i32)
    }
}

impl vstd::std_specs::convert::FromSpecImpl<i16> for WzInt {
    open spec fn obeys_from_spec() -> bool {
        true
    }

    open spec fn from_spec(v: i16) -> Self {
        WzInt(v as i32)
    }
}

impl EncodePacket for WzInt {
    open spec fn spec_encode(v: i32) -> Seq<u8> {
        if fits_compact(v as int) {
            seq![(v as i8) as u8]
        } else {
            seq![0x80u8] + le32(v as u32)
        }
    }

    fn encode_len(&self) -> (n: usize) {
        proof {
            lemma_auto_spec_u32_to_from_le_bytes();
        }
        if -128 < self.0 && self.0 <= 127 {
            1
        } else {
            5
        }
    }

    fn encode(&self, pw: &mut PacketWriter) -> (r: PacketResult<()>) {
        proof {
            lemma_auto_spec_u32_to_from_le_bytes();
        }
        if -128 < self.0 && self.0 <= 127 {
            let r = pw.write_i8(self.0 as i8);
            proof {
                lemma_appended_encoded(old(pw)@, pw@, seq![(self.0 as i8) as u8], r);
            }
            r
        } else {
            let ghost b0 = pw@;
            let ghost x = seq![0x80u8];
            let ghost y = le32(self.0 as u32);
            let r0 = pw.write_i8(WZ_LONG_FLAG);
            proof {
                assert(((-128i8) as u8) == 0x80u8) by (bit_vector);
                lemma_appended_encoded(b0, pw@, x, r0);
            }
            if r0.is_err() {
                proof {
                    lemma_encoded_fail_first(b0, pw@, x, y, r0);
                }
                return r0;
            }
            let ghost b1 = pw@;
            let r = pw.write_i32(self.0);
            proof {
                lemma_appended_encoded(b1, pw@, y, r);
                lemma_encoded_concat(b0, b1, pw@, x, y, r);
            }
            r
        }
    }
}

impl DecodePacket for WzInt {
    open spec fn spec_decode(s: Seq<u8>) -> Result<(i32, nat), DecodeFail> {
        if s.len() < 1 {
            Err(DecodeFail::Eof)
        } else if s[0] as i8 == WZ_LONG_FLAG {
            if s.len() < 5 {
                Err(DecodeFail::Eof)
            } else {
                Ok((le_u32(s.skip(1)) as i32, 5))
            }
        } else {
            Ok(((s[0] as i8) as i32, 1))
        }
    }

    proof fn lemma_decode_len(s: Seq<u8>) {
    }

    fn decode(pr: &mut PacketReader<'_>) -> (r: PacketResult<WzInt>) {
        let ghost s = pr.rest();
        let flag = pr.read_i8()?;
        if flag == WZ_LONG_FLAG {
            let ghost p1 = *pr;
            let v = match pr.read_i32() {
                Ok(v) => v,
                Err(e) => {
                    proof {
                        assert(p1.rest() == s.skip(1));
                    }
                    return Err(e);
                },
            };
            proof {
                assert(s.skip(1).skip(4) =~= s.skip(5));
            }
            Ok(WzInt(v))
        } else {
            Ok(WzInt(flag as i32))
        }
    }
}

impl PacketCodec for WzInt {
    open spec fn spec_wf(v: i32) -> bool {
        true
    }

    proof fn lemma_roundtrip(v: i32, rest: Seq<u8>) {
        lemma_auto_spec_u32_to_from_le_bytes();
        let e = Self::spec_encode(v);
        if fits_compact(v as int) {
            assert((e + rest)[0] == (v as i8) as u8);
            assert(((v as i8) as u8) as i8 == v as i8) by (bit_vector);
            assert(((v as i8) as u8) as i8 != -128i8) by (bit_vector)
                requires
                    -128 < v <= 127,
            ;
            assert(((v as i8) as i32) == v) by (bit_vector)
                requires
                    -128 < v <= 127,
            ;
        } else {
            assert((e + rest)[0] == 0x80u8);
            assert((0x80u8 as i8) == -128i8) by (bit_vector);
            assert((e + rest).skip(1).take(4) =~= le32(v as u32));
            assert((v as u32) as i32 == v) by (bit_vector);
        }
    }
}

impl ShroomListLen for WzInt {
    open spec fn spec_to_len(v: i32) -> nat {
        (v as usize) as nat
    }

    open spec fn spec_from_len(n: nat) -> i32 {
        n as i32
    }

    open spec fn spec_max_len() -> nat {
        i32::MAX as nat
    }

    proof fn lemma_len(n: nat) {
    }

    proof fn lemma_decode_nonempty(s: Seq<u8>) {
    }

    proof fn lemma_all_wf(v: i32) {
    }

    fn to_len(&self) -> (r: usize) {
        #[verifier::truncate]
        (self.0 as usize)
    }

    fn from_len(ix: usize) -> (r: WzInt) {
        WzInt(
            #[verifier::truncate]
            (ix as i32),
        )
    }
}

/// 64-bit integer written in one byte when it fits, else as the flag byte
/// and the full little-endian `i64`.
#[derive(Debug, Clone, Copy, PartialEq, Eq, PartialOrd, Ord, Hash)]
pub struct WzLong(pub i64);

impl DeepView for WzLong {
    type V = i64;

    open spec fn deep_view(&self) -> i64 {
        self.0
    }
}

impl EncodePacket for WzLong {
    open spec fn spec_encode(v: i64) -> Seq<u8> {
        if fits_compact(v as int) {
            seq![(v as i8) as u8]
        } else {
            seq![0x80u8] + le64(v as u64)
        }
    }

    fn encode_len(&self) -> (n: usize) {
        proof {
            lemma_auto_spec_u64_to_from_le_bytes();
        }
        if -128 < self.0 && self.0 <= 127 {
            1
        } else {
            9
        }
    }

    fn encode(&self, pw: &mut PacketWriter) -> (r: PacketResult<()>) {
        proof {
            lemma_auto_spec_u64_to_from_le_bytes();
        }
        if -128 < self.0 && self.0 <= 127 {
            let r = pw.write_i8(self.0 as i8);
            proof {
                lemma_appended_encoded(old(pw)@, pw@, seq![(self.0 as i8) as u8], r);
            }
            r
        } else {
            let ghost b0 = pw@;
            let ghost x = seq![0x80u8];
            let ghost y = le64(self.0 as u64);
            let r0 = pw.write_i8(WZ_LONG_FLAG);
            proof {
                assert(((-128i8) as u8) == 0x80u8) by (bit_vector);
                lemma_appended_encoded(b0, pw@, x, r0);
            }
            if r0.is_err() {
                proof {
                    lemma_encoded_fail_first(b0, pw@, x, y, r0);
                }
                return r0;
            }
            let ghost b1 = pw@;
            let r = pw.write_i64(self.0);
            proof {
                lemma_appended_encoded(b1, pw@, y, r);
                lemma_encoded_concat(b0, b1, pw@, x, y, r);
            }
            r
        }
    }
}

impl DecodePacket for WzLong {
    open spec fn spec_decode(s: Seq<u8>) -> Result<(i64, nat), DecodeFail> {
        if s.len() < 1 {
            Err(DecodeFail::Eof)
        } else if s[0] as i8 == WZ_LONG_FLAG {
            if s.len() < 9 {
                Err(DecodeFail::Eof)
            } else {
                Ok((le_u64(s.skip(1)) as i64, 9))
            }
        } else {
            Ok(((s[0] as i8) as i64, 1))
        }
    }

    proof fn lemma_decode_len(s: Seq<u8>) {
    }

    fn decode(pr: &mut PacketReader<'_>) -> (r: PacketResult<WzLong>) {
        let ghost s = pr.rest();
        let flag = pr.read_i8()?;
        if flag == WZ_LONG_FLAG {
            let ghost p1 = *pr;
            let v = match pr.read_i64() {
                Ok(v) => v,
                Err(e) => {
                    proof {
                        assert(p1.rest() == s.skip(1));
                    }
                    return Err(e);
                },
            };
            proof {
                assert(s.skip(1).skip(8) =~= s.skip(9));
            }
            Ok(WzLong(v))
        } else {
            Ok(WzLong(flag as i64))
        }
    }
}

impl PacketCodec for WzLong {
    open spec fn spec_wf(v: i64) -> bool {
        true
    }

    proof fn lemma_roundtrip(v: i64, rest: Seq<u8>) {
        lemma_auto_spec_u64_to_from_le_bytes();
        let e = Self::spec_encode(v);
        if fits_compact(v as int) {
            assert((e + rest)[0] == (v as i8) as u8);
            assert(((v as i8) as u8) as i8 == v as i8) by (bit_vector);
            assert(((v as i8) as u8) as i8 != -128i8) by (bit_vector)
                requires
                    -128 < v <= 127,
            ;
            assert(((v as i8) as i64) == v) by (bit_vector)
                requires
                    -128 < v <= 127,
            ;
        } else {
            assert((e + rest)[0] == 0x80u8);
            assert((0x80u8 as i8) == -128i8) by (bit_vector);
            assert((e + rest).skip(1).take(8) =~= le64(v as u64));
            assert((v as u64) as i64 == v) by (bit_vector);
        }
    }
}

/// Items of type `B` after their count, written as a `WzInt`.
#[derive(Debug, Clone, PartialEq)]
pub struct WzVec<B>(pub Vec<B>);

impl<B: DeepView> DeepView for WzVec<B> {
    type V = Seq<B::V>;

    open spec fn deep_view(&self) -> Seq<B::V> {
        self.0.deep_view()
    }
}

impl<B: EncodePacket> EncodePacket for WzVec<B> {
    open spec fn spec_encode(v: Seq<B::V>) -> Seq<u8> {
        WzInt::spec_encode(WzInt::spec_from_len(v.len())) + encode_all::<B>(v)
    }

    fn encode_len(&self) -> (n: usize) {
        let l = WzInt::from_len(self.0.len());
        l.encode_len() + self.0.encode_len()
    }

    fn encode(&self, pw: &mut PacketWriter) -> (r: PacketResult<()>) {
        let ghost b0 = pw@;
        let ghost x = WzInt::spec_encode(WzInt::spec_from_len(self.0@.len()));
        let ghost y = encode_all::<B>(self.0.deep_view());
        let l = WzInt::from_len(self.0.len());
        let r0 = l.encode(pw);
        if r0.is_err() {
            proof {
                lemma_encoded_fail_first(b0, pw@, x, y, r0);
            }
            return r0;
        }
        let ghost b1 = pw@;
        let r = encode_n(self.0.as_slice(), pw);
        proof {
            lemma_encoded_concat(b0, b1, pw@, x, y, r);
        }
        r
    }
}

impl<B: DecodePacket> DecodePacket for WzVec<B> {
    open spec fn spec_decode(s: Seq<u8>) -> Result<(Seq<B::V>, nat), DecodeFail> {
        match WzInt::spec_decode(s) {
            Ok((l, nl)) => match decode_seq::<B>(s.skip(nl as int), WzInt::spec_to_len(l)) {
                Ok((vs, m)) => Ok((vs, nl + m)),
                Err(f) => Err(f),
            },
            Err(f) => Err(f),
        }
    }

    proof fn lemma_decode_len(s: Seq<u8>) {
        if let Ok((l, nl)) = WzInt::spec_decode(s) {
            lemma_decode_seq_len::<B>(s.skip(nl as int), WzInt::spec_to_len(l));
        }
    }

    fn decode(pr: &mut PacketReader<'_>) -> (r: PacketResult<Self>) {
        let ghost s = pr.rest();
        let n = WzInt::decode(pr)?;
        let n = n.to_len();
        let ghost nl = WzInt::spec_decode(s)->Ok_0.1;
        proof {
            lemma_decode_seq_len::<B>(s.skip(nl as int), n as nat);
        }
        let items = decode_n::<B>(pr, n)?;
        proof {
            let m = decode_seq::<B>(s.skip(nl as int), n as nat)->Ok_0.1;
            assert(s.skip(nl as int).skip(m as int) =~= s.skip((nl + m) as int));
        }
        Ok(WzVec(items))
    }
}

impl<B: PacketCodec> PacketCodec for WzVec<B> {
    open spec fn spec_wf(v: Seq<B::V>) -> bool {
        &&& v.len() <= i32::MAX
        &&& forall|i: int| 0 <= i < v.len() ==> B::spec_wf(#[trigger] v[i])
    }

    proof fn lemma_roundtrip(v: Seq<B::V>, rest: Seq<u8>) {
        let l = WzInt::spec_from_len(v.len());
        let x = WzInt::spec_encode(l);
        let y = encode_all::<B>(v);
        assert((x + y) + rest =~= x + (y + rest));
        WzInt::lemma_roundtrip(l, y + rest);
        assert((x + (y + rest)).skip(x.len() as int) =~= y + rest);
        crate::proto::list::lemma_decode_seq_roundtrip::<B>(v, rest);
    }
}

/// Offset in a WZ file.
#[derive(Debug, Copy, Clone, PartialEq, Eq)]
pub struct WzOffset(pub u32);

impl From<WzOffset> for u32 {
    fn from(value: WzOffset) -> (r: u32) {
        value.0
    }
}

impl vstd::std_specs::convert::FromSpecImpl<WzOffset> for u32 {
    open spec fn obeys_from_spec() -> bool {
        true
    }

    open spec fn from_spec(v: WzOffset) -> u32 {
        v.0
    }
}

impl From<WzOffset> for u64 {
    fn from(value: WzOffset) -> (r: u64) {
        value.0 as u64
    }
}

impl vstd::std_specs::convert::FromSpecImpl<WzOffset> for u64 {
    open spec fn obeys_from_spec() -> bool {
        true
    }

    open spec fn from_spec(v: WzOffset) -> u64 {
        v.0 as u64
    }
}

/// Text of a WZ file.
#[derive(Debug, Clone, PartialEq, Eq, Hash, Default)]
pub struct WzStr(String);

impl View for WzStr {
    type V = Seq<char>;

    closed spec fn view(&self) -> Seq<char> {
        self.0@
    }
}

impl WzStr {
    /// The text `s`.
    pub fn new(s: String) -> (r: Self)
        ensures
            r@ == s@,
    {
        WzStr(s)
    }

    /// The text.
    pub fn as_str(&self) -> (r: &str)
        ensures
            r@ == self@,
    {
        self.0.as_str()
    }

    /// Whether the text is `s`.
    pub fn eq_str(&self, s: &str) -> (r: bool)
        ensures
            r == (self@ == s@),
    {
        let o = s.to_owned();
        self.0 == o
    }

    /// The text, as the string it holds.
    pub fn to_string(&self) -> (r: String)
        ensures
            r@ == self@,
    {
        self.0.clone()
    }
}

/// What the flag byte in front of a WZ string announces: Latin-1 text of so
/// many bytes, or UTF-16 text of so many units.
#[derive(Debug, Clone, Copy, PartialEq, Eq)]
pub enum WzStrHeader {
    Latin1(usize),
    Utf16(usize),
}

impl DeepView for WzStrHeader {
    type V = WzStrHeader;

    open spec fn deep_view(&self) -> WzStrHeader {
        *self
    }
}

/// Flag of a Latin-1 string whose length follows as an `i32`.
pub const STR8_LONG_FLAG: i8 = -128;

/// Flag of a UTF-16 string whose length follows as an `i32`.
pub const STR16_LONG_FLAG: i8 = 127;

impl EncodePacket for WzStrHeader {
    /// A Latin-1 length under 128 is its negation in the flag byte, a longer
    /// one follows the flag `-128` as the negated `i32`; a UTF-16 length under
    /// 127 is the flag byte itself, a longer one follows the flag `127`.
    open spec fn spec_encode(v: WzStrHeader) -> Seq<u8> {
        match v {
            WzStrHeader::Latin1(n) => if n >= 128 {
                seq![0x80u8] + le32((0i32).wrapping_sub(n as i32) as u32)
            } else {
                seq![((0 - n) as i8) as u8]
            },
            WzStrHeader::Utf16(n) => if n >= 127 {
                seq![0x7Fu8] + le32((n as i32) as u32)
            } else {
                seq![n as u8]
            },
        }
    }

    fn encode_len(&self) -> (n: usize) {
        proof {
            lemma_auto_spec_u32_to_from_le_bytes();
        }
        match self {
            WzStrHeader::Latin1(n) => if *n >= 128 {
                5
            } else {
                1
            },
            WzStrHeader::Utf16(n) => if *n >= 127 {
                5
            } else {
                1
            },
        }
    }

    fn encode(&self, pw: &mut PacketWriter) -> (r: PacketResult<()>) {
        proof {
            lemma_auto_spec_u32_to_from_le_bytes();
        }
        let (flag, long): (i8, Option<i32>) = match self {
            WzStrHeader::Latin1(n) => if *n >= 128 {
                (
                    STR8_LONG_FLAG,
                    Some(
                        0i32.wrapping_sub(
                            #[verifier::truncate]
                            (*n as i32),
                        ),
                    ),
                )
            } else {
                (0i8 - (*n as i8), None)
            },
            WzStrHeader::Utf16(n) => if *n >= 127 {
                (
                    STR16_LONG_FLAG,
                    Some(
                        #[verifier::truncate]
                        (*n as i32),
                    ),
                )
            } else {
                (*n as i8, None)
            },
        };
        let ghost b0 = pw@;
        let ghost x = seq![flag as u8];
        let r0 = pw.write_i8(flag);
        match long {
            None => {
                proof {
                    lemma_appended_encoded(b0, pw@, x, r0);
                    assert(x =~= Self::spec_encode(*self));
                }
                r0
            },
            Some(len) => {
                let ghost y = le32(len as u32);
                proof {
                    lemma_appended_encoded(b0, pw@, x, r0);
                    assert(x + y =~= Self::spec_encode(*self)) by {
                        assert((-128i8) as u8 == 0x80u8) by (bit_vector);
                    }
                }
                if r0.is_err() {
                    proof {
                        lemma_encoded_fail_first(b0, pw@, x, y, r0);
                    }
                    return r0;
                }
                let ghost b1 = pw@;
                let r = pw.write_i32(len);
                proof {
                    lemma_appended_encoded(b1, pw@, y, r);
                    lemma_encoded_concat(b0, b1, pw@, x, y, r);
                }
                r
            },
        }
    }
}

impl DecodePacket for WzStrHeader {
    /// A flag of zero or below is Latin-1, a positive one UTF-16; the flags
    /// `-128` and `127` take the length from the `i32` after them, read as
    /// it stands.
    open spec fn spec_decode(s: Seq<u8>) -> Result<(WzStrHeader, nat), DecodeFail> {
        if s.len() < 1 {
            Err(DecodeFail::Eof)
        } else {
            let flag = s[0] as i8;
            if flag == STR8_LONG_FLAG || flag == STR16_LONG_FLAG {
                if s.len() < 5 {
                    Err(DecodeFail::Eof)
                } else {
                    let n = ((le_u32(s.skip(1)) as i32) as usize);
                    if flag == STR8_LONG_FLAG {
                        Ok((WzStrHeader::Latin1(n), 5))
                    } else {
                        Ok((WzStrHeader::Utf16(n), 5))
                    }
                }
            } else if flag <= 0 {
                Ok((WzStrHeader::Latin1((0 - flag) as usize), 1))
            } else {
                Ok((WzStrHeader::Utf16(flag as usize), 1))
            }
        }
    }

    proof fn lemma_decode_len(s: Seq<u8>) {
    }

    fn decode(pr: &mut PacketReader<'_>) -> (r: PacketResult<WzStrHeader>) {
        let ghost s = pr.rest();
        let flag = pr.read_i8()?;
        if flag == STR8_LONG_FLAG || flag == STR16_LONG_FLAG {
            let ghost p1 = *pr;
            let v = match pr.read_i32() {
                Ok(v) => v,
                Err(e) => {
                    proof {
                        assert(p1.rest() == s.skip(1));
                    }
                    return Err(e);
                },
            };
            proof {
                assert(s.skip(1).skip(4) =~= s.skip(5));
            }
            let n = #[verifier::truncate]
            (v as usize);
            if flag == STR8_LONG_FLAG {
                Ok(WzStrHeader::Latin1(n))
            } else {
                Ok(WzStrHeader::Utf16(n))
            }
        } else if flag <= 0 {
            Ok(WzStrHeader::Latin1((0 - flag) as usize))
        } else {
            Ok(WzStrHeader::Utf16(flag as usize))
        }
    }
}

impl PacketCodec for WzStrHeader {
    /// Short Latin-1 headers and non-empty UTF-16 headers up to `i32::MAX`
    /// come back; an empty UTF-16 header comes back as an empty Latin-1 one,
    /// and a long Latin-1 length is written negated but read as it stands.
    open spec fn spec_wf(v: WzStrHeader) -> bool {
        match v {
            WzStrHeader::Latin1(n) => n < 128,
            WzStrHeader::Utf16(n) => 0 < n <= i32::MAX,
        }
    }

    proof fn lemma_roundtrip(v: WzStrHeader, rest: Seq<u8>) {
        lemma_auto_spec_u32_to_from_le_bytes();
        let e = Self::spec_encode(v);
        match v {
            WzStrHeader::Latin1(n) => {
                assert((e + rest)[0] == ((0 - n) as i8) as u8);
                assert(((((0 - n) as i8) as u8) as i8) as int == 0 - n) by (bit_vector)
                    requires
                        n < 128,
                ;
            },
            WzStrHeader::Utf16(n) => {
                if n >= 127 {
                    assert((e + rest)[0] == 0x7Fu8);
                    assert((e + rest).skip(1).take(4) =~= le32((n as i32) as u32));
                    assert(((((n as i32) as u32) as i32) as usize) == n) by (bit_vector)
                        requires
                            127 <= n <= 0x7fff_ffff,
                    ;
                } else {
                    assert((e + rest)[0] == n as u8);
                    assert(((n as u8) as i8) as int == n) by (bit_vector)
                        requires
                            0 < n < 127,
                    ;
                }
            },
        }
    }
}

/// Latin-1 bytes of a string to write.
pub struct WzStrRef8<'a>(pub &'a [u8]);

impl<'a> WzStrRef8<'a> {
    /// The header written in front of the bytes.
    pub fn header(&self) -> (r: WzStrHeader)
        ensures
            r == WzStrHeader::Latin1(self.0@.len() as usize),
    {
        WzStrHeader::Latin1(self.0.len())
    }
}

/// UTF-16 units of a string to write.
pub struct WzStrRef16<'a>(pub &'a [u16]);

impl<'a> WzStrRef16<'a> {
    /// The header written in front of the units.
    pub fn header(&self) -> (r: WzStrHeader)
        ensures
            r == WzStrHeader::Utf16(self.0@.len() as usize),
    {
        WzStrHeader::Utf16(self.0.len())
    }
}

/// Whether every character of `s` is Latin-1.
pub open spec fn all_latin1(s: Seq<char>) -> bool {
    forall|i: int| 0 <= i < s.len() ==> s[i] as u32 <= 0xFF
}

/// Number of UTF-16 units that encode `s`.
pub open spec fn utf16_len(s: Seq<char>) -> nat
    decreases s.len(),
{
    if s.len() == 0 {
        0
    } else {
        utf16_len(s.drop_last()) + if s.last() as u32 >= 0x10000 {
            2nat
        } else {
            1nat
        }
    }
}

/// A string to write, as Latin-1 when every character is Latin-1, else as
/// UTF-16.
pub struct WzStrRef<'a>(pub &'a str);

impl<'a> WzStrRef<'a> {
    /// Whether every character is Latin-1.
    pub fn is_latin1(&self) -> (r: bool)
        ensures
            r == all_latin1(self.0@),
    {
        broadcast use vstd::string::axiom_spec_iter;

        let mut all = true;
        for c in it: self.0.chars()
            invariant
                it.seq() == self.0@,
                all == (forall|j: int| 0 <= j < it.index() ==> it.seq()[j] as u32 <= 0xFF),
        {
            if c as u32 > 0xFF {
                all = false;
            }
        }
        all
    }

    /// The header written in front of the text.
    pub fn header(&self) -> (r: WzStrHeader)
        requires
            utf16_len(self.0@) <= usize::MAX,
        ensures
            all_latin1(self.0@) ==> r == WzStrHeader::Latin1(self.0@.len() as usize),
            !all_latin1(self.0@) ==> r == WzStrHeader::Utf16(utf16_len(self.0@) as usize),
    {
        broadcast use vstd::string::axiom_spec_iter;

        proof {
            lemma_utf16_len_at_least_len(self.0@);
        }
        if self.is_latin1() {
            let mut n: usize = 0;
            for c in it: self.0.chars()
                invariant
                    it.seq() == self.0@,
                    self.0@.len() <= usize::MAX,
                    n == it.index(),
                    n <= it.seq().len(),
            {
                n = n + 1;
            }
            WzStrHeader::Latin1(n)
        } else {
            let mut n: usize = 0;
            for c in it: self.0.chars()
                invariant
                    it.seq() == self.0@,
                    utf16_len(self.0@) <= usize::MAX,
                    n == utf16_len(it.seq().take(it.index() as int)),
            {
                proof {
                    lemma_utf16_len_prefix(it.seq(), it.index() as int + 1);
                    assert(it.seq().take(it.index() + 1).drop_last() =~= it.seq().take(
                        it.index() as int,
                    ));
                }
                if (c as u32) >= 0x10000 {
                    n = n + 2;
                } else {
                    n = n + 1;
                }
            }
            proof {
                assert(self.0@.take(self.0@.len() as int) =~= self.0@);
            }
            WzStrHeader::Utf16(n)
        }
    }
}

/// Every character takes at least one UTF-16 unit.
proof fn lemma_utf16_len_at_least_len(s: Seq<char>)
    ensures
        utf16_len(s) >= s.len(),
    decreases s.len(),
{
    if s.len() > 0 {
        lemma_utf16_len_at_least_len(s.drop_last());
    }
}

/// A prefix takes no more UTF-16 units than the whole.
proof fn lemma_utf16_len_prefix(s: Seq<char>, i: int)
    requires
        0 <= i <= s.len(),
    ensures
        utf16_len(s.take(i)) <= utf16_len(s),
    decreases s.len() - i,
{
    if i < s.len() {
        lemma_utf16_len_prefix(s, i + 1);
        assert(s.take(i + 1).drop_last() =~= s.take(i));
    } else {
        assert(s.take(i) =~= s);
    }
}

} // verus!
