//! Bounds-checked reader over the bytes of a packet.
use vstd::prelude::*;
use vstd::bytes::*;
use vstd::utf8::*;
use vstd::string::*;
use vstd::slice::slice_subrange;

use crate::error::{eof_result, Error, TypeLabel};
use crate::opcode::ShroomOpCode;
use crate::PacketResult;

verus! {

broadcast use vstd::seq_lib::group_seq_properties;

/// `std::str::from_utf8`: succeeds exactly on valid UTF-8, and the returned
/// `str` is a view of the same bytes.
#[verifier::external_body]
pub(crate) fn str_from_utf8<'a>(b: &'a [u8]) -> (r: Result<&'a str, std::str::Utf8Error>)
    ensures
        r is Ok <==> valid_utf8(b@),
        r matches Ok(s) ==> s.spec_bytes() == b@,
{
    std::str::from_utf8(b)
}

/// Little-endian `u16` at the front of `s`.
pub open spec fn le_u16(s: Seq<u8>) -> u16 {
    spec_u16_from_le_bytes(s.take(2))
}

/// Little-endian `u32` at the front of `s`.
pub open spec fn le_u32(s: Seq<u8>) -> u32 {
    spec_u32_from_le_bytes(s.take(4))
}

/// Little-endian `u64` at the front of `s`.
pub open spec fn le_u64(s: Seq<u8>) -> u64 {
    spec_u64_from_le_bytes(s.take(8))
}

/// The protocol's `u128` layout: four little-endian `u32` blocks, most
/// significant block first.
pub open spec fn shroom_u128(s: Seq<u8>) -> u128 {
    (le_u32(s.skip(12)) as u128) | ((le_u32(s.skip(8)) as u128) << 32u128) | ((le_u32(s.skip(4))
        as u128) << 64u128) | ((le_u32(s) as u128) << 96u128)
}

/// The body of a length-prefixed string at the front of `s`: the bytes after
/// the `u16` length, as many as it gives.
pub open spec fn str_body(s: Seq<u8>) -> Seq<u8> {
    s.subrange(2, 2 + le_u16(s) as int)
}

/// Reader over a byte slice with a current position.
#[derive(Debug)]
pub struct PacketReader<'a> {
    data: &'a [u8],
    pos: usize,
}

impl<'a> PacketReader<'a> {
    #[verifier::type_invariant]
    spec fn inv(self) -> bool {
        self.pos <= self.data@.len()
    }

    /// All bytes of the reader.
    pub closed spec fn data(&self) -> Seq<u8> {
        self.data@
    }

    /// Current position.
    pub closed spec fn pos(&self) -> nat {
        self.pos as nat
    }

    /// Bytes not yet read.
    pub closed spec fn rest(&self) -> Seq<u8> {
        self.data@.skip(self.pos as int)
    }

    /// A reader positioned at the start of `inner`.
    pub fn new(inner: &'a [u8]) -> (r: Self)
        ensures
            r.data() == inner@,
            r.pos() == 0,
            r.rest() == inner@,
    {
        PacketReader { data: inner, pos: 0 }
    }

    /// Consumes the reader, giving back all its bytes.
    pub fn into_inner(self) -> (r: &'a [u8])
        ensures
            r@ == self.data(),
    {
        self.data
    }

    /// All bytes of the reader.
    pub fn get_ref(&self) -> (r: &'a [u8])
        ensures
            r@ == self.data(),
    {
        self.data
    }

    /// Bytes not yet read.
    pub fn remaining_slice(&self) -> (r: &'a [u8])
        ensures
            r@ == self.rest(),
    {
        proof {
            use_type_invariant(self);
        }
        slice_subrange(self.data, self.pos, self.data.len())
    }

    /// Number of bytes not yet read.
    pub fn remaining(&self) -> (r: usize)
        ensures
            r == self.rest().len(),
            r + self.pos() == self.data().len(),
    {
        proof {
            use_type_invariant(self);
        }
        self.data.len() - self.pos
    }

    /// A fresh reader over the bytes not yet read.
    pub fn sub_reader(&self) -> (r: Self)
        ensures
            r.data() == self.rest(),
            r.pos() == 0,
            r.rest() == self.rest(),
    {
        Self::new(self.remaining_slice())
    }

    /// Fails with an end-of-packet error naming `T` when fewer than `n` bytes
    /// remain.
    fn check_size_typed<T: TypeLabel>(&self, n: usize) -> (r: PacketResult<()>)
        ensures
            self.rest().len() >= n <==> r is Ok,
            self.rest().len() < n ==> eof_result(r, self.pos(), n as nat),
    {
        proof {
            use_type_invariant(self);
        }
        if self.data.len() - self.pos >= n {
            Ok(())
        } else {
            Err(Error::eof::<T>(self.pos, n))
        }
    }

    /// Takes the next `n` bytes, or fails with an end-of-packet error naming `T`.
    fn read_bytes_inner<T: TypeLabel>(&mut self, n: usize) -> (r: PacketResult<&'a [u8]>)
        ensures
            final(self).data() == old(self).data(),
            old(self).rest().len() >= n ==> {
                &&& (r matches Ok(b) && b@ == old(self).rest().take(n as int))
                &&& final(self).pos() == old(self).pos() + n
                &&& final(self).rest() == old(self).rest().skip(n as int)
            },
            old(self).rest().len() < n ==> {
                &&& eof_result(r, old(self).pos(), n as nat)
                &&& final(self).pos() == old(self).pos()
                &&& final(self).rest() == old(self).rest()
            },
    {
        proof {
            use_type_invariant(&*self);
        }
        if let Err(e) = self.check_size_typed::<T>(n) {
            return Err(e);
        }
        let p = self.pos;
        let len = self.data.len();
        assert(p + n <= len);
        let by = slice_subrange(self.data, p, p + n);
        self.pos = p + n;
        proof {
            assert(by@ =~= old(self).rest().take(n as int));
            assert(self.data@.skip(self.pos as int) =~= old(self).rest().skip(n as int));
        }
        Ok(by)
    }

    /// Skips `n` bytes.
    pub fn advance(&mut self, n: usize) -> (r: PacketResult<()>)
        ensures
            final(self).data() == old(self).data(),
            old(self).rest().len() >= n ==> {
                &&& r is Ok
                &&& final(self).pos() == old(self).pos() + n
                &&& final(self).rest() == old(self).rest().skip(n as int)
            },
            old(self).rest().len() < n ==> {
                &&& eof_result(r, old(self).pos(), n as nat)
                &&& final(self).pos() == old(self).pos()
                &&& final(self).rest() == old(self).rest()
            },
    {
        let _ = self.read_bytes_inner::<()>(n)?;
        Ok(())
    }

    /// Advances this reader past what `sub_reader`, created from it, has read.
    pub fn commit_sub_reader(&mut self, sub_reader: Self) -> (r: PacketResult<()>)
        ensures
            final(self).data() == old(self).data(),
            old(self).rest().len() >= sub_reader.pos() ==> {
                &&& r is Ok
                &&& final(self).pos() == old(self).pos() + sub_reader.pos()
                &&& final(self).rest() == old(self).rest().skip(sub_reader.pos() as int)
            },
            old(self).rest().len() < sub_reader.pos() ==> r is Err && final(self).pos()
                == old(self).pos(),
    {
        self.advance(sub_reader.pos)
    }

    pub fn read_u8(&mut self) -> (r: PacketResult<u8>)
        ensures
            final(self).data() == old(self).data(),
            old(self).rest().len() >= 1 ==> {
                &&& r == Ok::<u8, Error>(old(self).rest()[0])
                &&& final(self).pos() == old(self).pos() + 1
                &&& final(self).rest() == old(self).rest().skip(1)
            },
            old(self).rest().len() < 1 ==> {
                &&& eof_result(r, old(self).pos(), 1)
                &&& final(self).pos() == old(self).pos()
                &&& final(self).rest() == old(self).rest()
            },
    {
        let b = self.read_bytes_inner::<u8>(1)?;
        Ok(b[0])
    }

    pub fn read_i8(&mut self) -> (r: PacketResult<i8>)
        ensures
            final(self).data() == old(self).data(),
            old(self).rest().len() >= 1 ==> {
                &&& r == Ok::<i8, Error>(old(self).rest()[0] as i8)
                &&& final(self).pos() == old(self).pos() + 1
                &&& final(self).rest() == old(self).rest().skip(1)
            },
            old(self).rest().len() < 1 ==> {
                &&& eof_result(r, old(self).pos(), 1)
                &&& final(self).pos() == old(self).pos()
                &&& final(self).rest() == old(self).rest()
            },
    {
        let b = self.read_bytes_inner::<i8>(1)?;
        Ok(b[0] as i8)
    }

    /// Reads a byte; any non-zero byte is `true`.
    pub fn read_bool(&mut self) -> (r: PacketResult<bool>)
        ensures
            final(self).data() == old(self).data(),
            old(self).rest().len() >= 1 ==> {
                &&& r == Ok::<bool, Error>(old(self).rest()[0] != 0)
                &&& final(self).pos() == old(self).pos() + 1
                &&& final(self).rest() == old(self).rest().skip(1)
            },
            old(self).rest().len() < 1 ==> {
                &&& eof_result(r, old(self).pos(), 1)
                &&& final(self).pos() == old(self).pos()
                &&& final(self).rest() == old(self).rest()
            },
    {
        let b = self.read_bytes_inner::<bool>(1)?;
        Ok(b[0] != 0)
    }

    /// Reads a `u16` opcode and parses it as `T`; an unknown value is an
    /// `InvalidOpCode` error after the two bytes were read.
    pub fn read_opcode<T: ShroomOpCode>(&mut self) -> (r: PacketResult<T>)
        ensures
            final(self).data() == old(self).data(),
            old(self).rest().len() >= 2 ==> {
                &&& match T::spec_from_u16(le_u16(old(self).rest())) {
                    Some(op) => r == Ok::<T, Error>(op),
                    None => r matches Err(Error::InvalidOpCode(c)) && c == le_u16(
                        old(self).rest(),
                    ),
                }
                &&& final(self).pos() == old(self).pos() + 2
                &&& final(self).rest() == old(self).rest().skip(2)
            },
            old(self).rest().len() < 2 ==> {
                &&& eof_result(r, old(self).pos(), 2)
                &&& final(self).pos() == old(self).pos()
                &&& final(self).rest() == old(self).rest()
            },
    {
        let v = self.read_u16()?;
        T::get_opcode(v)
    }

    pub fn read_u16(&mut self) -> (r: PacketResult<u16>)
        ensures
            final(self).data() == old(self).data(),
            old(self).rest().len() >= 2 ==> {
                &&& r == Ok::<u16, Error>(le_u16(old(self).rest()))
                &&& final(self).pos() == old(self).pos() + 2
                &&& final(self).rest() == old(self).rest().skip(2)
            },
            old(self).rest().len() < 2 ==> {
                &&& eof_result(r, old(self).pos(), 2)
                &&& final(self).pos() == old(self).pos()
                &&& final(self).rest() == old(self).rest()
            },
    {
        let b = self.read_bytes_inner::<u16>(2)?;
        Ok(u16_from_le_bytes(b))
    }

    pub fn read_i16(&mut self) -> (r: PacketResult<i16>)
        ensures
            final(self).data() == old(self).data(),
            old(self).rest().len() >= 2 ==> {
                &&& r == Ok::<i16, Error>(le_u16(old(self).rest()) as i16)
                &&& final(self).pos() == old(self).pos() + 2
                &&& final(self).rest() == old(self).rest().skip(2)
            },
            old(self).rest().len() < 2 ==> {
                &&& eof_result(r, old(self).pos(), 2)
                &&& final(self).pos() == old(self).pos()
                &&& final(self).rest() == old(self).rest()
            },
    {
        let b = self.read_bytes_inner::<i16>(2)?;
        Ok(u16_from_le_bytes(b) as i16)
    }

    pub fn read_u32(&mut self) -> (r: PacketResult<u32>)
        ensures
            final(self).data() == old(self).data(),
            old(self).rest().len() >= 4 ==> {
                &&& r == Ok::<u32, Error>(le_u32(old(self).rest()))
                &&& final(self).pos() == old(self).pos() + 4
                &&& final(self).rest() == old(self).rest().skip(4)
            },
            old(self).rest().len() < 4 ==> {
                &&& eof_result(r, old(self).pos(), 4)
                &&& final(self).pos() == old(self).pos()
                &&& final(self).rest() == old(self).rest()
            },
    {
        let b = self.read_bytes_inner::<u32>(4)?;
        Ok(u32_from_le_bytes(b))
    }

    pub fn read_i32(&mut self) -> (r: PacketResult<i32>)
        ensures
            final(self).data() == old(self).data(),
            old(self).rest().len() >= 4 ==> {
                &&& r == Ok::<i32, Error>(le_u32(old(self).rest()) as i32)
                &&& final(self).pos() == old(self).pos() + 4
                &&& final(self).rest() == old(self).rest().skip(4)
            },
            old(self).rest().len() < 4 ==> {
                &&& eof_result(r, old(self).pos(), 4)
                &&& final(self).pos() == old(self).pos()
                &&& final(self).rest() == old(self).rest()
            },
    {
        let b = self.read_bytes_inner::<i32>(4)?;
        Ok(u32_from_le_bytes(b) as i32)
    }

    pub fn read_u64(&mut self) -> (r: PacketResult<u64>)
        ensures
            final(self).data() == old(self).data(),
            old(self).rest().len() >= 8 ==> {
                &&& r == Ok::<u64, Error>(le_u64(old(self).rest()))
                &&& final(self).pos() == old(self).pos() + 8
                &&& final(self).rest() == old(self).rest().skip(8)
            },
            old(self).rest().len() < 8 ==> {
                &&& eof_result(r, old(self).pos(), 8)
                &&& final(self).pos() == old(self).pos()
                &&& final(self).rest() == old(self).rest()
            },
    {
        let b = self.read_bytes_inner::<u64>(8)?;
        Ok(u64_from_le_bytes(b))
    }

    pub fn read_i64(&mut self) -> (r: PacketResult<i64>)
        ensures
            final(self).data() == old(self).data(),
            old(self).rest().len() >= 8 ==> {
                &&& r == Ok::<i64, Error>(le_u64(old(self).rest()) as i64)
                &&& final(self).pos() == old(self).pos() + 8
                &&& final(self).rest() == old(self).rest().skip(8)
            },
            old(self).rest().len() < 8 ==> {
                &&& eof_result(r, old(self).pos(), 8)
                &&& final(self).pos() == old(self).pos()
                &&& final(self).rest() == old(self).rest()
            },
    {
        let b = self.read_bytes_inner::<i64>(8)?;
        Ok(u64_from_le_bytes(b) as i64)
    }

    pub fn read_u128(&mut self) -> (r: PacketResult<u128>)
        ensures
            final(self).data() == old(self).data(),
            old(self).rest().len() >= 16 ==> {
                &&& r == Ok::<u128, Error>(shroom_u128(old(self).rest()))
                &&& final(self).pos() == old(self).pos() + 16
                &&& final(self).rest() == old(self).rest().skip(16)
            },
            old(self).rest().len() < 16 ==> {
                &&& eof_result(r, old(self).pos(), 16)
                &&& final(self).pos() == old(self).pos()
                &&& final(self).rest() == old(self).rest()
            },
    {
        let b = self.read_bytes_inner::<[u8; 16]>(16)?;
        proof {
            lemma_shroom_u128_prefix(old(self).rest());
        }
        Ok(shroom128_from_bytes(b))
    }

    pub fn read_i128(&mut self) -> (r: PacketResult<i128>)
        ensures
            final(self).data() == old(self).data(),
            old(self).rest().len() >= 16 ==> {
                &&& r == Ok::<i128, Error>(shroom_u128(old(self).rest()) as i128)
                &&& final(self).pos() == old(self).pos() + 16
                &&& final(self).rest() == old(self).rest().skip(16)
            },
            old(self).rest().len() < 16 ==> {
                &&& eof_result(r, old(self).pos(), 16)
                &&& final(self).pos() == old(self).pos()
                &&& final(self).rest() == old(self).rest()
            },
    {
        let v = self.read_u128()?;
        Ok(v as i128)
    }

    /// Reads a `u16` length and that many bytes of UTF-8.
    pub fn read_string(&mut self) -> (r: PacketResult<&'a str>)
        ensures
            final(self).data() == old(self).data(),
            ({
                let s = old(self).rest();
                if s.len() < 2 {
                    &&& eof_result(r, old(self).pos(), 2)
                    &&& final(self).pos() == old(self).pos()
                    &&& final(self).rest() == s
                } else if s.len() < 2 + le_u16(s) {
                    &&& eof_result(r, old(self).pos() + 2, le_u16(s) as nat)
                    &&& final(self).pos() == old(self).pos() + 2
                    &&& final(self).rest() == s.skip(2)
                } else if !valid_utf8(str_body(s)) {
                    &&& r matches Err(Error::StringUtf8(_))
                    &&& final(self).pos() == old(self).pos() + 2 + le_u16(s)
                    &&& final(self).rest() == s.skip(2 + le_u16(s))
                } else {
                    &&& (r matches Ok(v) && v.spec_bytes() == str_body(s))
                    &&& final(self).pos() == old(self).pos() + 2 + le_u16(s)
                    &&& final(self).rest() == s.skip(2 + le_u16(s))
                }
            }),
    {
        let n = self.read_u16()?;
        let str_inner = self.read_bytes_inner::<&str>(n as usize)?;
        proof {
            assert(str_inner@ =~= str_body(old(self).rest()));
            assert(self.rest() =~= old(self).rest().skip(2 + n));
        }
        match str_from_utf8(str_inner) {
            Ok(s) => Ok(s),
            Err(e) => Err(Error::StringUtf8(e)),
        }
    }

    /// Like `read_string`, but fails with `StringLimit(limit)` when the length
    /// is over `limit` bytes.
    pub fn read_string_limited(&mut self, limit: usize) -> (r: PacketResult<&'a str>)
        ensures
            final(self).data() == old(self).data(),
            ({
                let s = old(self).rest();
                if s.len() < 2 {
                    &&& eof_result(r, old(self).pos(), 2)
                    &&& final(self).pos() == old(self).pos()
                    &&& final(self).rest() == s
                } else if le_u16(s) > limit {
                    &&& (r matches Err(Error::StringLimit(l)) && l == limit)
                    &&& final(self).pos() == old(self).pos() + 2
                    &&& final(self).rest() == s.skip(2)
                } else if s.len() < 2 + le_u16(s) {
                    &&& eof_result(r, old(self).pos() + 2, le_u16(s) as nat)
                    &&& final(self).pos() == old(self).pos() + 2
                    &&& final(self).rest() == s.skip(2)
                } else if !valid_utf8(str_body(s)) {
                    &&& r matches Err(Error::StringUtf8(_))
                    &&& final(self).pos() == old(self).pos() + 2 + le_u16(s)
                    &&& final(self).rest() == s.skip(2 + le_u16(s))
                } else {
                    &&& (r matches Ok(v) && v.spec_bytes() == str_body(s))
                    &&& final(self).pos() == old(self).pos() + 2 + le_u16(s)
                    &&& final(self).rest() == s.skip(2 + le_u16(s))
                }
            }),
    {
        let n = self.read_u16()?;
        if n as usize > limit {
            return Err(Error::StringLimit(limit));
        }
        let str_inner = self.read_bytes_inner::<&str>(n as usize)?;
        proof {
            assert(str_inner@ =~= str_body(old(self).rest()));
            assert(self.rest() =~= old(self).rest().skip(2 + n));
        }
        match str_from_utf8(str_inner) {
            Ok(s) => Ok(s),
            Err(e) => Err(Error::StringUtf8(e)),
        }
    }

    /// Reads the next `N` bytes into an array.
    pub fn read_array<const N: usize>(&mut self) -> (r: PacketResult<[u8; N]>)
        ensures
            final(self).data() == old(self).data(),
            old(self).rest().len() >= N ==> {
                &&& (r matches Ok(b) && b@ == old(self).rest().take(N as int))
                &&& final(self).pos() == old(self).pos() + N
                &&& final(self).rest() == old(self).rest().skip(N as int)
            },
            old(self).rest().len() < N ==> {
                &&& eof_result(r, old(self).pos(), N as nat)
                &&& final(self).pos() == old(self).pos()
                &&& final(self).rest() == old(self).rest()
            },
    {
        let b = self.read_bytes_inner::<[u8; N]>(N)?;
        let mut arr = [0u8; N];
        let mut i: usize = 0;
        while i < N
            invariant
                0 <= i <= N,
                b@.len() == N,
                arr@.len() == N,
                forall|j: int| 0 <= j < i ==> arr@[j] == b@[j],
            decreases N - i,
        {
            arr[i] = b[i];
            i = i + 1;
        }
        proof {
            assert(arr@ =~= b@);
        }
        Ok(arr)
    }

    /// Takes the next `n` bytes.
    pub fn read_bytes(&mut self, n: usize) -> (r: PacketResult<&'a [u8]>)
        ensures
            final(self).data() == old(self).data(),
            old(self).rest().len() >= n ==> {
                &&& (r matches Ok(b) && b@ == old(self).rest().take(n as int))
                &&& final(self).pos() == old(self).pos() + n
                &&& final(self).rest() == old(self).rest().skip(n as int)
            },
            old(self).rest().len() < n ==> {
                &&& eof_result(r, old(self).pos(), n as nat)
                &&& final(self).pos() == old(self).pos()
                &&& final(self).rest() == old(self).rest()
            },
    {
        self.read_bytes_inner::<&[u8]>(n)
    }
}

/// `shroom_u128` reads only the first 16 bytes.
pub proof fn lemma_shroom_u128_prefix(s: Seq<u8>)
    requires
        s.len() >= 16,
    ensures
        shroom_u128(s) == shroom_u128(s.take(16)),
{
    assert(s.take(16).take(4) =~= s.take(4));
    assert(s.take(16).skip(4).take(4) =~= s.skip(4).take(4));
    assert(s.take(16).skip(8).take(4) =~= s.skip(8).take(4));
    assert(s.take(16).skip(12).take(4) =~= s.skip(12).take(4));
}

/// Decodes the protocol's `u128` layout from 16 bytes.
pub(crate) fn shroom128_from_bytes(b: &[u8]) -> (r: u128)
    requires
        b@.len() == 16,
    ensures
        r == shroom_u128(b@),
{
    let b0 = u32_from_le_bytes(slice_subrange(b, 0, 4)) as u128;
    let b1 = u32_from_le_bytes(slice_subrange(b, 4, 8)) as u128;
    let b2 = u32_from_le_bytes(slice_subrange(b, 8, 12)) as u128;
    let b3 = u32_from_le_bytes(slice_subrange(b, 12, 16)) as u128;
    proof {
        assert(b@.take(4) =~= b@.subrange(0, 4));
        assert(b@.skip(4).take(4) =~= b@.subrange(4, 8));
        assert(b@.skip(8).take(4) =~= b@.subrange(8, 12));
        assert(b@.skip(12).take(4) =~= b@.subrange(12, 16));
    }
    b3 | (b2 << 32u128) | (b1 << 64u128) | (b0 << 96u128)
}

} // verus!
