//! Writer that appends encoded values to a byte buffer.
use vstd::prelude::*;
use vstd::bytes::*;
use vstd::string::*;
use vstd::utf8::*;

use crate::error::Error;
use crate::opcode::ShroomOpCode;
use crate::PacketResult;

verus! {

broadcast use vstd::seq_lib::group_seq_properties;

/// Little-endian bytes of a `u16`.
pub open spec fn le16(v: u16) -> Seq<u8> {
    spec_u16_to_le_bytes(v)
}

/// Little-endian bytes of a `u32`.
pub open spec fn le32(v: u32) -> Seq<u8> {
    spec_u32_to_le_bytes(v)
}

/// Little-endian bytes of a `u64`.
pub open spec fn le64(v: u64) -> Seq<u8> {
    spec_u64_to_le_bytes(v)
}

/// The protocol's `u128` layout: four little-endian `u32` blocks, most
/// significant block first.
pub open spec fn shroom128_bytes(v: u128) -> Seq<u8> {
    le32((v >> 96u128) as u32) + le32((v >> 64u128) as u32) + le32((v >> 32u128) as u32) + le32(
        v as u32,
    )
}

/// Wire form of a string: its UTF-8 length as `u16`, then its UTF-8 bytes.
/// A length over `u16::MAX` is written truncated to 16 bits.
pub open spec fn str_bytes(s: Seq<char>) -> Seq<u8> {
    le16(encode_utf8(s).len() as u16) + encode_utf8(s)
}

/// `r` reports that `bytes` were appended to `before`, giving `after`, or that
/// they did not fit and nothing was written.
pub open spec fn appended(
    before: Seq<u8>,
    after: Seq<u8>,
    bytes: Seq<u8>,
    r: PacketResult<()>,
) -> bool {
    if before.len() + bytes.len() <= usize::MAX {
        &&& r is Ok
        &&& after == before + bytes
    } else {
        &&& r matches Err(Error::OutOfCapacity)
        &&& after == before
    }
}

/// Writer over a growable byte buffer.
#[derive(Debug)]
pub struct PacketWriter {
    pub buf: Vec<u8>,
}

impl View for PacketWriter {
    type V = Seq<u8>;

    open spec fn view(&self) -> Seq<u8> {
        self.buf@
    }
}

impl Default for PacketWriter {
    fn default() -> (r: Self)
        ensures
            r@ == Seq::<u8>::empty(),
    {
        PacketWriter { buf: Vec::new() }
    }
}

impl PacketWriter {
    /// A writer that appends to `buf`.
    pub fn new(buf: Vec<u8>) -> (r: Self)
        ensures
            r@ == buf@,
    {
        PacketWriter { buf }
    }

    /// An empty writer with room for `cap` bytes before it reallocates.
    pub fn with_capacity(cap: usize) -> (r: Self)
        ensures
            r@ == Seq::<u8>::empty(),
    {
        Self::new(Vec::with_capacity(cap))
    }

    /// Consumes the writer, giving back its buffer.
    pub fn into_inner(self) -> (r: Vec<u8>)
        ensures
            r@ == self@,
    {
        self.buf
    }

    /// The buffer written so far.
    pub fn get_ref(&self) -> (r: &Vec<u8>)
        ensures
            r@ == self@,
    {
        &self.buf
    }

    /// The buffer, to write into directly.
    pub fn get_mut(&mut self) -> (r: &mut Vec<u8>)
        ensures
            *r == old(self).buf,
            final(self).buf == *final(r),
    {
        &mut self.buf
    }

    /// Number of bytes written.
    pub fn len(&self) -> (r: usize)
        ensures
            r == self@.len(),
    {
        self.buf.len()
    }

    /// Whether nothing was written.
    pub fn is_empty(&self) -> (r: bool)
        ensures
            r == (self@.len() == 0),
    {
        self.buf.len() == 0
    }

    /// Fails with `OutOfCapacity` when `n` more bytes would not fit.
    fn check_capacity(&self, n: usize) -> (r: PacketResult<()>)
        ensures
            self@.len() + n <= usize::MAX <==> r is Ok,
            r is Err ==> r matches Err(Error::OutOfCapacity),
    {
        if usize::MAX - self.buf.len() < n {
            Err(Error::OutOfCapacity)
        } else {
            Ok(())
        }
    }

    /// Appends `bytes` if they fit.
    fn put(&mut self, mut bytes: Vec<u8>) -> (r: PacketResult<()>)
        ensures
            appended(old(self)@, final(self)@, bytes@, r),
    {
        if let Err(e) = self.check_capacity(bytes.len()) {
            return Err(e);
        }
        self.buf.append(&mut bytes);
        Ok(())
    }

    /// Writes an opcode as its `u16` wire value.
    pub fn write_opcode<Op: ShroomOpCode>(&mut self, op: Op) -> (r: PacketResult<()>)
        ensures
            appended(old(self)@, final(self)@, le16(Op::spec_to_u16(op)), r),
    {
        self.write_u16(op.into_u16())
    }

    pub fn write_u8(&mut self, v: u8) -> (r: PacketResult<()>)
        ensures
            appended(old(self)@, final(self)@, seq![v], r),
    {
        let mut b = Vec::new();
        b.push(v);
        proof {
            assert(b@ =~= seq![v]);
        }
        self.put(b)
    }

    pub fn write_i8(&mut self, v: i8) -> (r: PacketResult<()>)
        ensures
            appended(old(self)@, final(self)@, seq![v as u8], r),
    {
        self.write_u8(v as u8)
    }

    /// Writes `1` for `true`, `0` for `false`.
    pub fn write_bool(&mut self, v: bool) -> (r: PacketResult<()>)
        ensures
            appended(old(self)@, final(self)@, seq![if v { 1u8 } else { 0u8 }], r),
    {
        self.write_u8(if v { 1 } else { 0 })
    }

    pub fn write_u16(&mut self, v: u16) -> (r: PacketResult<()>)
        ensures
            appended(old(self)@, final(self)@, le16(v), r),
    {
        self.put(u16_to_le_bytes(v))
    }

    pub fn write_i16(&mut self, v: i16) -> (r: PacketResult<()>)
        ensures
            appended(old(self)@, final(self)@, le16(v as u16), r),
    {
        self.write_u16(v as u16)
    }

    pub fn write_u32(&mut self, v: u32) -> (r: PacketResult<()>)
        ensures
            appended(old(self)@, final(self)@, le32(v), r),
    {
        self.put(u32_to_le_bytes(v))
    }

    pub fn write_i32(&mut self, v: i32) -> (r: PacketResult<()>)
        ensures
            appended(old(self)@, final(self)@, le32(v as u32), r),
    {
        self.write_u32(v as u32)
    }

    pub fn write_u64(&mut self, v: u64) -> (r: PacketResult<()>)
        ensures
            appended(old(self)@, final(self)@, le64(v), r),
    {
        self.put(u64_to_le_bytes(v))
    }

    pub fn write_i64(&mut self, v: i64) -> (r: PacketResult<()>)
        ensures
            appended(old(self)@, final(self)@, le64(v as u64), r),
    {
        self.write_u64(v as u64)
    }

    pub fn write_u128(&mut self, v: u128) -> (r: PacketResult<()>)
        ensures
            appended(old(self)@, final(self)@, shroom128_bytes(v), r),
    {
        self.put(shroom128_to_bytes(v))
    }

    pub fn write_i128(&mut self, v: i128) -> (r: PacketResult<()>)
        ensures
            appended(old(self)@, final(self)@, shroom128_bytes(v as u128), r),
    {
        self.write_u128(v as u128)
    }

    /// Writes the bytes as they are.
    pub fn write_bytes(&mut self, v: &[u8]) -> (r: PacketResult<()>)
        ensures
            appended(old(self)@, final(self)@, v@, r),
    {
        if let Err(e) = self.check_capacity(v.len()) {
            return Err(e);
        }
        self.buf.extend_from_slice(v);
        proof {
            assert(self.buf@ =~= old(self)@ + v@);
        }
        Ok(())
    }

    /// Writes the bytes of an array as they are.
    pub fn write_array<const N: usize>(&mut self, v: &[u8; N]) -> (r: PacketResult<()>)
        ensures
            appended(old(self)@, final(self)@, v@, r),
    {
        self.write_bytes(v.as_slice())
    }

    /// Writes a string: its UTF-8 length as `u16` followed by its bytes.
    pub fn write_str(&mut self, v: &str) -> (r: PacketResult<()>)
        ensures
            appended(old(self)@, final(self)@, str_bytes(v@), r),
    {
        let b = v.as_bytes();
        let n = b.len();
        proof {
            lemma_auto_spec_u16_to_from_le_bytes();
            assert(str_bytes(v@).len() == n + 2);
        }
        if n > usize::MAX - 2 {
            return Err(Error::OutOfCapacity);
        }
        if let Err(e) = self.check_capacity(n + 2) {
            return Err(e);
        }
        let mut len = u16_to_le_bytes(#[verifier::truncate] (n as u16));
        self.buf.append(&mut len);
        self.buf.extend_from_slice(b);
        proof {
            assert(self.buf@ =~= old(self)@ + str_bytes(v@));
        }
        Ok(())
    }
}

/// Encodes a `u128` in the protocol's layout.
pub(crate) fn shroom128_to_bytes(v: u128) -> (r: Vec<u8>)
    ensures
        r@ == shroom128_bytes(v),
{
    let mut r = u32_to_le_bytes((v >> 96u128) as u32);
    let mut b1 = u32_to_le_bytes((v >> 64u128) as u32);
    let mut b2 = u32_to_le_bytes((v >> 32u128) as u32);
    let mut b3 = u32_to_le_bytes(v as u32);
    r.append(&mut b1);
    r.append(&mut b2);
    r.append(&mut b3);
    r
}

} // verus!
