//! Encodings of the unit type, `bool` and the integer types.
use vstd::prelude::*;
use vstd::bytes::*;

use crate::reader::{le_u16, le_u32, le_u64, shroom_u128, PacketReader};
use crate::writer::{appended, le16, le32, le64, shroom128_bytes, PacketWriter};
use crate::PacketResult;

use super::{encoded, DecodeFail, DecodePacket, EncodePacket, PacketCodec};

verus! {

broadcast use vstd::seq_lib::group_seq_properties;

/// A write that leaves the buffer untouched on failure meets the encoding
/// contract.
pub proof fn lemma_appended_encoded(before: Seq<u8>, after: Seq<u8>, bytes: Seq<u8>, r: PacketResult<()>)
    requires
        appended(before, after, bytes, r),
    ensures
        encoded(before, after, bytes, r),
{
    assert(before.is_prefix_of(before)) by {
        assert(before.subrange(0, before.len() as int) =~= before);
    }
}

/// Fixed-width values read back from their own bytes.
proof fn lemma_fixed_prefix(b: Seq<u8>, rest: Seq<u8>)
    ensures
        (b + rest).take(b.len() as int) == b,
{
    assert((b + rest).take(b.len() as int) =~= b);
}

/// The protocol's `u128` layout round-trips.
pub proof fn lemma_shroom128_roundtrip(v: u128, rest: Seq<u8>)
    ensures
        shroom128_bytes(v).len() == 16,
        shroom_u128(shroom128_bytes(v) + rest) == v,
{
    lemma_auto_spec_u32_to_from_le_bytes();
    let b0 = le32((v >> 96u128) as u32);
    let b1 = le32((v >> 64u128) as u32);
    let b2 = le32((v >> 32u128) as u32);
    let b3 = le32(v as u32);
    let s = shroom128_bytes(v) + rest;
    assert(s.take(4) =~= b0);
    assert(s.skip(4).take(4) =~= b1);
    assert(s.skip(8).take(4) =~= b2);
    assert(s.skip(12).take(4) =~= b3);
    let x0 = (v >> 96u128) as u32;
    let x1 = (v >> 64u128) as u32;
    let x2 = (v >> 32u128) as u32;
    let x3 = v as u32;
    assert((x3 as u128) | ((x2 as u128) << 32u128) | ((x1 as u128) << 64u128) | ((x0 as u128)
        << 96u128) == v) by (bit_vector)
        requires
            x0 == (v >> 96u128) as u32,
            x1 == (v >> 64u128) as u32,
            x2 == (v >> 32u128) as u32,
            x3 == v as u32,
    ;
}

/// A `u128` goes on the wire as four little-endian `u32` blocks, the most
/// significant first: bits 96..128, then 64..96, 32..64 and 0..32. So `1` is
/// twelve zero bytes and then `[1, 0, 0, 0]`, and a read takes the value's
/// low 32 bits from the last block and its top 32 bits from the first.
pub proof fn lemma_u128_wire_layout(v: u128, s: Seq<u8>)
    requires
        s.len() >= 16,
    ensures
        <u128 as EncodePacket>::spec_encode(v) == spec_u32_to_le_bytes((v >> 96u128) as u32)
            + spec_u32_to_le_bytes((v >> 64u128) as u32) + spec_u32_to_le_bytes(
            (v >> 32u128) as u32,
        ) + spec_u32_to_le_bytes(v as u32),
        <u128 as EncodePacket>::spec_encode(v).subrange(12, 16) == spec_u32_to_le_bytes(v as u32),
        <u128 as DecodePacket>::spec_decode(s) matches Ok((x, n)) && n == 16 && x as u32
            == spec_u32_from_le_bytes(s.subrange(12, 16)) && (x >> 32u128) as u32
            == spec_u32_from_le_bytes(s.subrange(8, 12)) && (x >> 64u128) as u32
            == spec_u32_from_le_bytes(s.subrange(4, 8)) && (x >> 96u128) as u32
            == spec_u32_from_le_bytes(s.subrange(0, 4)),
{
    lemma_auto_spec_u32_to_from_le_bytes();
    let e = <u128 as EncodePacket>::spec_encode(v);
    assert(e.subrange(12, 16) =~= spec_u32_to_le_bytes(v as u32));
    let a = le_u32(s.skip(12));
    let b = le_u32(s.skip(8));
    let c = le_u32(s.skip(4));
    let d = le_u32(s);
    assert(s.skip(12).take(4) =~= s.subrange(12, 16));
    assert(s.skip(8).take(4) =~= s.subrange(8, 12));
    assert(s.skip(4).take(4) =~= s.subrange(4, 8));
    assert(s.take(4) =~= s.subrange(0, 4));
    let x = shroom_u128(s);
    assert(x == (a as u128) | ((b as u128) << 32u128) | ((c as u128) << 64u128) | ((d as u128)
        << 96u128));
    assert(x as u32 == a && (x >> 32u128) as u32 == b && (x >> 64u128) as u32 == c && (x
        >> 96u128) as u32 == d) by (bit_vector)
        requires
            x == (a as u128) | ((b as u128) << 32u128) | ((c as u128) << 64u128) | ((d as u128)
                << 96u128),
    ;
}

/// The wire bytes of `1u128`: the first three blocks read as `0`, and the
/// last block reads as `1`.
pub proof fn lemma_u128_one_bytes()
    ensures
        <u128 as EncodePacket>::spec_encode(1).len() == 16,
        spec_u32_from_le_bytes(<u128 as EncodePacket>::spec_encode(1).subrange(0, 4)) == 0,
        spec_u32_from_le_bytes(<u128 as EncodePacket>::spec_encode(1).subrange(4, 8)) == 0,
        spec_u32_from_le_bytes(<u128 as EncodePacket>::spec_encode(1).subrange(8, 12)) == 0,
        spec_u32_from_le_bytes(<u128 as EncodePacket>::spec_encode(1).subrange(12, 16)) == 1,
{
    lemma_auto_spec_u32_to_from_le_bytes();
    assert((1u128 >> 96u128) as u32 == 0 && (1u128 >> 64u128) as u32 == 0 && (1u128 >> 32u128)
        as u32 == 0 && 1u128 as u32 == 1) by (bit_vector);
    let z = spec_u32_to_le_bytes(0);
    let o = spec_u32_to_le_bytes(1);
    let e = <u128 as EncodePacket>::spec_encode(1);
    assert(e == z + z + z + o);
    assert(e.subrange(0, 4) =~= z);
    assert(e.subrange(4, 8) =~= z);
    assert(e.subrange(8, 12) =~= z);
    assert(e.subrange(12, 16) =~= o);
}

impl EncodePacket for () {
    open spec fn spec_encode(v: ()) -> Seq<u8> {
        Seq::empty()
    }

    fn encode_len(&self) -> (n: usize) {
        0
    }

    fn encode(&self, pw: &mut PacketWriter) -> (r: PacketResult<()>) {
        let _ = pw.len();
        proof {
            assert(pw@ =~= old(pw)@ + Seq::<u8>::empty());
        }
        Ok(())
    }
}

impl DecodePacket for () {
    open spec fn spec_decode(s: Seq<u8>) -> Result<((), nat), DecodeFail> {
        Ok(((), 0))
    }

    proof fn lemma_decode_len(s: Seq<u8>) {
    }

    fn decode(pr: &mut PacketReader<'_>) -> (r: PacketResult<()>) {
        proof {
            assert(pr.rest().skip(0) =~= pr.rest());
        }
        Ok(())
    }
}

impl PacketCodec for () {
    open spec fn spec_wf(v: ()) -> bool {
        true
    }

    proof fn lemma_roundtrip(v: (), rest: Seq<u8>) {
    }
}

impl EncodePacket for bool {
    open spec fn spec_encode(v: bool) -> Seq<u8> {
        seq![if v { 1u8 } else { 0u8 }]
    }

    fn encode_len(&self) -> (n: usize) {
        proof {
            lemma_auto_spec_u16_to_from_le_bytes();
            lemma_auto_spec_u32_to_from_le_bytes();
            lemma_auto_spec_u64_to_from_le_bytes();
            lemma_shroom128_roundtrip(0, Seq::empty());
            lemma_shroom128_roundtrip(*self as u128, Seq::empty());
        }
        1
    }

    fn encode(&self, pw: &mut PacketWriter) -> (r: PacketResult<()>) {
        let r = pw.write_bool(*self);
        proof {
            lemma_appended_encoded(old(pw)@, pw@, Self::spec_encode(*self), r);
        }
        r
    }
}

impl DecodePacket for bool {
    open spec fn spec_decode(s: Seq<u8>) -> Result<(bool, nat), DecodeFail> {
        if s.len() < 1 {
            Err(DecodeFail::Eof)
        } else {
            Ok((s[0] != 0, 1))
        }
    }

    proof fn lemma_decode_len(s: Seq<u8>) {
    }

    fn decode(pr: &mut PacketReader<'_>) -> (r: PacketResult<bool>) {
        pr.read_bool()
    }
}

impl PacketCodec for bool {
    open spec fn spec_wf(v: bool) -> bool {
        true
    }

    proof fn lemma_roundtrip(v: bool, rest: Seq<u8>) {
        lemma_fixed_prefix(Self::spec_encode(v), rest);
    }
}

impl EncodePacket for u8 {
    open spec fn spec_encode(v: u8) -> Seq<u8> {
        seq![v]
    }

    fn encode_len(&self) -> (n: usize) {
        proof {
            lemma_auto_spec_u16_to_from_le_bytes();
            lemma_auto_spec_u32_to_from_le_bytes();
            lemma_auto_spec_u64_to_from_le_bytes();
            lemma_shroom128_roundtrip(0, Seq::empty());
            lemma_shroom128_roundtrip(*self as u128, Seq::empty());
        }
        1
    }

    fn encode(&self, pw: &mut PacketWriter) -> (r: PacketResult<()>) {
        let r = pw.write_u8(*self);
        proof {
            lemma_appended_encoded(old(pw)@, pw@, Self::spec_encode(*self), r);
        }
        r
    }
}

impl DecodePacket for u8 {
    open spec fn spec_decode(s: Seq<u8>) -> Result<(u8, nat), DecodeFail> {
        if s.len() < 1 {
            Err(DecodeFail::Eof)
        } else {
            Ok((s[0], 1))
        }
    }

    proof fn lemma_decode_len(s: Seq<u8>) {
    }

    fn decode(pr: &mut PacketReader<'_>) -> (r: PacketResult<u8>) {
        pr.read_u8()
    }
}

impl PacketCodec for u8 {
    open spec fn spec_wf(v: u8) -> bool {
        true
    }

    proof fn lemma_roundtrip(v: u8, rest: Seq<u8>) {
        lemma_fixed_prefix(Self::spec_encode(v), rest);
    }
}

impl EncodePacket for i8 {
    open spec fn spec_encode(v: i8) -> Seq<u8> {
        seq![v as u8]
    }

    fn encode_len(&self) -> (n: usize) {
        proof {
            lemma_auto_spec_u16_to_from_le_bytes();
            lemma_auto_spec_u32_to_from_le_bytes();
            lemma_auto_spec_u64_to_from_le_bytes();
            lemma_shroom128_roundtrip(0, Seq::empty());
            lemma_shroom128_roundtrip(*self as u128, Seq::empty());
        }
        1
    }

    fn encode(&self, pw: &mut PacketWriter) -> (r: PacketResult<()>) {
        let r = pw.write_i8(*self);
        proof {
            lemma_appended_encoded(old(pw)@, pw@, Self::spec_encode(*self), r);
        }
        r
    }
}

impl DecodePacket for i8 {
    open spec fn spec_decode(s: Seq<u8>) -> Result<(i8, nat), DecodeFail> {
        if s.len() < 1 {
            Err(DecodeFail::Eof)
        } else {
            Ok((s[0] as i8, 1))
        }
    }

    proof fn lemma_decode_len(s: Seq<u8>) {
    }

    fn decode(pr: &mut PacketReader<'_>) -> (r: PacketResult<i8>) {
        pr.read_i8()
    }
}

impl PacketCodec for i8 {
    open spec fn spec_wf(v: i8) -> bool {
        true
    }

    proof fn lemma_roundtrip(v: i8, rest: Seq<u8>) {
        lemma_fixed_prefix(Self::spec_encode(v), rest);
        assert((v as u8) as i8 == v) by (bit_vector);
    }
}

impl EncodePacket for u16 {
    open spec fn spec_encode(v: u16) -> Seq<u8> {
        le16(v)
    }

    fn encode_len(&self) -> (n: usize) {
        proof {
            lemma_auto_spec_u16_to_from_le_bytes();
            lemma_auto_spec_u32_to_from_le_bytes();
            lemma_auto_spec_u64_to_from_le_bytes();
            lemma_shroom128_roundtrip(0, Seq::empty());
            lemma_shroom128_roundtrip(*self as u128, Seq::empty());
        }
        2
    }

    fn encode(&self, pw: &mut PacketWriter) -> (r: PacketResult<()>) {
        let r = pw.write_u16(*self);
        proof {
            lemma_appended_encoded(old(pw)@, pw@, Self::spec_encode(*self), r);
        }
        r
    }
}

impl DecodePacket for u16 {
    open spec fn spec_decode(s: Seq<u8>) -> Result<(u16, nat), DecodeFail> {
        if s.len() < 2 {
            Err(DecodeFail::Eof)
        } else {
            Ok((le_u16(s), 2))
        }
    }

    proof fn lemma_decode_len(s: Seq<u8>) {
    }

    fn decode(pr: &mut PacketReader<'_>) -> (r: PacketResult<u16>) {
        pr.read_u16()
    }
}

impl PacketCodec for u16 {
    open spec fn spec_wf(v: u16) -> bool {
        true
    }

    proof fn lemma_roundtrip(v: u16, rest: Seq<u8>) {
        lemma_auto_spec_u16_to_from_le_bytes();
        lemma_fixed_prefix(Self::spec_encode(v), rest);
    }
}

impl EncodePacket for i16 {
    open spec fn spec_encode(v: i16) -> Seq<u8> {
        le16(v as u16)
    }

    fn encode_len(&self) -> (n: usize) {
        proof {
            lemma_auto_spec_u16_to_from_le_bytes();
            lemma_auto_spec_u32_to_from_le_bytes();
            lemma_auto_spec_u64_to_from_le_bytes();
            lemma_shroom128_roundtrip(0, Seq::empty());
            lemma_shroom128_roundtrip(*self as u128, Seq::empty());
        }
        2
    }

    fn encode(&self, pw: &mut PacketWriter) -> (r: PacketResult<()>) {
        let r = pw.write_i16(*self);
        proof {
            lemma_appended_encoded(old(pw)@, pw@, Self::spec_encode(*self), r);
        }
        r
    }
}

impl DecodePacket for i16 {
    open spec fn spec_decode(s: Seq<u8>) -> Result<(i16, nat), DecodeFail> {
        if s.len() < 2 {
            Err(DecodeFail::Eof)
        } else {
            Ok((le_u16(s) as i16, 2))
        }
    }

    proof fn lemma_decode_len(s: Seq<u8>) {
    }

    fn decode(pr: &mut PacketReader<'_>) -> (r: PacketResult<i16>) {
        pr.read_i16()
    }
}

impl PacketCodec for i16 {
    open spec fn spec_wf(v: i16) -> bool {
        true
    }

    proof fn lemma_roundtrip(v: i16, rest: Seq<u8>) {
        lemma_auto_spec_u16_to_from_le_bytes();
        lemma_fixed_prefix(Self::spec_encode(v), rest);
        assert((v as u16) as i16 == v) by (bit_vector);
    }
}

impl EncodePacket for u32 {
    open spec fn spec_encode(v: u32) -> Seq<u8> {
        le32(v)
    }

    fn encode_len(&self) -> (n: usize) {
        proof {
            lemma_auto_spec_u16_to_from_le_bytes();
            lemma_auto_spec_u32_to_from_le_bytes();
            lemma_auto_spec_u64_to_from_le_bytes();
            lemma_shroom128_roundtrip(0, Seq::empty());
            lemma_shroom128_roundtrip(*self as u128, Seq::empty());
        }
        4
    }

    fn encode(&self, pw: &mut PacketWriter) -> (r: PacketResult<()>) {
        let r = pw.write_u32(*self);
        proof {
            lemma_appended_encoded(old(pw)@, pw@, Self::spec_encode(*self), r);
        }
        r
    }
}

impl DecodePacket for u32 {
    open spec fn spec_decode(s: Seq<u8>) -> Result<(u32, nat), DecodeFail> {
        if s.len() < 4 {
            Err(DecodeFail::Eof)
        } else {
            Ok((le_u32(s), 4))
        }
    }

    proof fn lemma_decode_len(s: Seq<u8>) {
    }

    fn decode(pr: &mut PacketReader<'_>) -> (r: PacketResult<u32>) {
        pr.read_u32()
    }
}

impl PacketCodec for u32 {
    open spec fn spec_wf(v: u32) -> bool {
        true
    }

    proof fn lemma_roundtrip(v: u32, rest: Seq<u8>) {
        lemma_auto_spec_u32_to_from_le_bytes();
        lemma_fixed_prefix(Self::spec_encode(v), rest);
    }
}

impl EncodePacket for i32 {
    open spec fn spec_encode(v: i32) -> Seq<u8> {
        le32(v as u32)
    }

    fn encode_len(&self) -> (n: usize) {
        proof {
            lemma_auto_spec_u16_to_from_le_bytes();
            lemma_auto_spec_u32_to_from_le_bytes();
            lemma_auto_spec_u64_to_from_le_bytes();
            lemma_shroom128_roundtrip(0, Seq::empty());
            lemma_shroom128_roundtrip(*self as u128, Seq::empty());
        }
        4
    }

    fn encode(&self, pw: &mut PacketWriter) -> (r: PacketResult<()>) {
        let r = pw.write_i32(*self);
        proof {
            lemma_appended_encoded(old(pw)@, pw@, Self::spec_encode(*self), r);
        }
        r
    }
}

impl DecodePacket for i32 {
    open spec fn spec_decode(s: Seq<u8>) -> Result<(i32, nat), DecodeFail> {
        if s.len() < 4 {
            Err(DecodeFail::Eof)
        } else {
            Ok((le_u32(s) as i32, 4))
        }
    }

    proof fn lemma_decode_len(s: Seq<u8>) {
    }

    fn decode(pr: &mut PacketReader<'_>) -> (r: PacketResult<i32>) {
        pr.read_i32()
    }
}

impl PacketCodec for i32 {
    open spec fn spec_wf(v: i32) -> bool {
        true
    }

    proof fn lemma_roundtrip(v: i32, rest: Seq<u8>) {
        lemma_auto_spec_u32_to_from_le_bytes();
        lemma_fixed_prefix(Self::spec_encode(v), rest);
        assert((v as u32) as i32 == v) by (bit_vector);
    }
}

impl EncodePacket for u64 {
    open spec fn spec_encode(v: u64) -> Seq<u8> {
        le64(v)
    }

    fn encode_len(&self) -> (n: usize) {
        proof {
            lemma_auto_spec_u16_to_from_le_bytes();
            lemma_auto_spec_u32_to_from_le_bytes();
            lemma_auto_spec_u64_to_from_le_bytes();
            lemma_shroom128_roundtrip(0, Seq::empty());
            lemma_shroom128_roundtrip(*self as u128, Seq::empty());
        }
        8
    }

    fn encode(&self, pw: &mut PacketWriter) -> (r: PacketResult<()>) {
        let r = pw.write_u64(*self);
        proof {
            lemma_appended_encoded(old(pw)@, pw@, Self::spec_encode(*self), r);
        }
        r
    }
}

impl DecodePacket for u64 {
    open spec fn spec_decode(s: Seq<u8>) -> Result<(u64, nat), DecodeFail> {
        if s.len() < 8 {
            Err(DecodeFail::Eof)
        } else {
            Ok((le_u64(s), 8))
        }
    }

    proof fn lemma_decode_len(s: Seq<u8>) {
    }

    fn decode(pr: &mut PacketReader<'_>) -> (r: PacketResult<u64>) {
        pr.read_u64()
    }
}

impl PacketCodec for u64 {
    open spec fn spec_wf(v: u64) -> bool {
        true
    }

    proof fn lemma_roundtrip(v: u64, rest: Seq<u8>) {
        lemma_auto_spec_u64_to_from_le_bytes();
        lemma_fixed_prefix(Self::spec_encode(v), rest);
    }
}

impl EncodePacket for i64 {
    open spec fn spec_encode(v: i64) -> Seq<u8> {
        le64(v as u64)
    }

    fn encode_len(&self) -> (n: usize) {
        proof {
            lemma_auto_spec_u16_to_from_le_bytes();
            lemma_auto_spec_u32_to_from_le_bytes();
            lemma_auto_spec_u64_to_from_le_bytes();
            lemma_shroom128_roundtrip(0, Seq::empty());
            lemma_shroom128_roundtrip(*self as u128, Seq::empty());
        }
        8
    }

    fn encode(&self, pw: &mut PacketWriter) -> (r: PacketResult<()>) {
        let r = pw.write_i64(*self);
        proof {
            lemma_appended_encoded(old(pw)@, pw@, Self::spec_encode(*self), r);
        }
        r
    }
}

impl DecodePacket for i64 {
    open spec fn spec_decode(s: Seq<u8>) -> Result<(i64, nat), DecodeFail> {
        if s.len() < 8 {
            Err(DecodeFail::Eof)
        } else {
            Ok((le_u64(s) as i64, 8))
        }
    }

    proof fn lemma_decode_len(s: Seq<u8>) {
    }

    fn decode(pr: &mut PacketReader<'_>) -> (r: PacketResult<i64>) {
        pr.read_i64()
    }
}

impl PacketCodec for i64 {
    open spec fn spec_wf(v: i64) -> bool {
        true
    }

    proof fn lemma_roundtrip(v: i64, rest: Seq<u8>) {
        lemma_auto_spec_u64_to_from_le_bytes();
        lemma_fixed_prefix(Self::spec_encode(v), rest);
        assert((v as u64) as i64 == v) by (bit_vector);
    }
}

impl EncodePacket for u128 {
    open spec fn spec_encode(v: u128) -> Seq<u8> {
        shroom128_bytes(v)
    }

    fn encode_len(&self) -> (n: usize) {
        proof {
            lemma_auto_spec_u16_to_from_le_bytes();
            lemma_auto_spec_u32_to_from_le_bytes();
            lemma_auto_spec_u64_to_from_le_bytes();
            lemma_shroom128_roundtrip(0, Seq::empty());
            lemma_shroom128_roundtrip(*self as u128, Seq::empty());
        }
        16
    }

    fn encode(&self, pw: &mut PacketWriter) -> (r: PacketResult<()>) {
        let r = pw.write_u128(*self);
        proof {
            lemma_appended_encoded(old(pw)@, pw@, Self::spec_encode(*self), r);
        }
        r
    }
}

impl DecodePacket for u128 {
    open spec fn spec_decode(s: Seq<u8>) -> Result<(u128, nat), DecodeFail> {
        if s.len() < 16 {
            Err(DecodeFail::Eof)
        } else {
            Ok((shroom_u128(s), 16))
        }
    }

    proof fn lemma_decode_len(s: Seq<u8>) {
    }

    fn decode(pr: &mut PacketReader<'_>) -> (r: PacketResult<u128>) {
        pr.read_u128()
    }
}

impl PacketCodec for u128 {
    open spec fn spec_wf(v: u128) -> bool {
        true
    }

    proof fn lemma_roundtrip(v: u128, rest: Seq<u8>) {
        lemma_shroom128_roundtrip(v, rest);
    }
}

impl EncodePacket for i128 {
    open spec fn spec_encode(v: i128) -> Seq<u8> {
        shroom128_bytes(v as u128)
    }

    fn encode_len(&self) -> (n: usize) {
        proof {
            lemma_auto_spec_u16_to_from_le_bytes();
            lemma_auto_spec_u32_to_from_le_bytes();
            lemma_auto_spec_u64_to_from_le_bytes();
            lemma_shroom128_roundtrip(0, Seq::empty());
            lemma_shroom128_roundtrip(*self as u128, Seq::empty());
        }
        16
    }

    fn encode(&self, pw: &mut PacketWriter) -> (r: PacketResult<()>) {
        let r = pw.write_i128(*self);
        proof {
            lemma_appended_encoded(old(pw)@, pw@, Self::spec_encode(*self), r);
        }
        r
    }
}

impl DecodePacket for i128 {
    open spec fn spec_decode(s: Seq<u8>) -> Result<(i128, nat), DecodeFail> {
        if s.len() < 16 {
            Err(DecodeFail::Eof)
        } else {
            Ok((shroom_u128(s) as i128, 16))
        }
    }

    proof fn lemma_decode_len(s: Seq<u8>) {
    }

    fn decode(pr: &mut PacketReader<'_>) -> (r: PacketResult<i128>) {
        pr.read_i128()
    }
}

impl PacketCodec for i128 {
    open spec fn spec_wf(v: i128) -> bool {
        true
    }

    proof fn lemma_roundtrip(v: i128, rest: Seq<u8>) {
        lemma_shroom128_roundtrip(v as u128, rest);
        assert((v as u128) as i128 == v) by (bit_vector);
    }
}

} // verus!
