//! The header at the start of a WZ archive: the magic `PKG1`, the file size,
//! where the data starts, a zero-terminated description and the version
//! hash, little-endian.
use vstd::prelude::*;

use crate::proto::compound::{lemma_encoded_concat, lemma_encoded_fail_first};
use crate::proto::primitive::lemma_appended_encoded;
use crate::proto::{encoded, DecodeFail};
use crate::reader::{le_u16, le_u32, le_u64, PacketReader};
use crate::writer::{le16, le32, le64, PacketWriter};
use crate::PacketResult;

verus! {

broadcast use vstd::seq_lib::group_seq_properties;

/// The magic a WZ archive starts with.
pub open spec fn wz_magic() -> Seq<u8> {
    seq![0x50u8, 0x4Bu8, 0x47u8, 0x31u8]
}

/// Entry kinds of a WZ directory.
pub const WZ_DIR_NULL: u8 = 1;
pub const WZ_DIR_LINK: u8 = 2;
pub const WZ_DIR_DIR: u8 = 3;
pub const WZ_DIR_IMG: u8 = 4;

/// Header of a WZ file.
#[derive(Debug)]
pub struct WzHeader {
    pub file_size: u64,
    pub data_offset: u32,
    /// The description, without its terminating zero.
    pub desc: Vec<u8>,
    pub version_hash: u16,
}

/// Why a header could not be read.
#[derive(Debug, Clone, Copy, PartialEq, Eq)]
pub enum WzHeaderError {
    /// The bytes ran out.
    Eof,
    /// The file does not start with `PKG1`.
    BadMagic,
}

/// The bytes of a header.
pub open spec fn spec_header_bytes(
    file_size: u64,
    data_offset: u32,
    desc: Seq<u8>,
    version_hash: u16,
) -> Seq<u8> {
    wz_magic() + le64(file_size) + le32(data_offset) + desc + seq![0u8] + le16(version_hash)
}

/// Index of the first zero byte of `s`, if any.
pub open spec fn first_zero(s: Seq<u8>) -> Option<int>
    decreases s.len(),
{
    if s.len() == 0 {
        None
    } else if s[0] == 0 {
        Some(0)
    } else {
        match first_zero(s.drop_first()) {
            Some(i) => Some(i + 1),
            None => None,
        }
    }
}

proof fn lemma_first_zero(s: Seq<u8>)
    ensures
        match first_zero(s) {
            Some(i) => 0 <= i < s.len() && s[i] == 0 && forall|j: int| 0 <= j < i ==> s[j] != 0,
            None => forall|j: int| 0 <= j < s.len() ==> s[j] != 0,
        },
    decreases s.len(),
{
    if s.len() > 0 && s[0] != 0 {
        lemma_first_zero(s.drop_first());
        assert forall|j: int| 0 < j < s.len() implies s[j] == s.drop_first()[j - 1] by {}
    }
}

/// The header at the front of `s` as (file size, data offset, description,
/// version hash), with the bytes it takes.
pub open spec fn spec_decode_header(s: Seq<u8>) -> Result<
    ((u64, u32, Seq<u8>, u16), nat),
    WzHeaderError,
> {
    if s.len() < 16 {
        Err(WzHeaderError::Eof)
    } else if s.take(4) != wz_magic() {
        Err(WzHeaderError::BadMagic)
    } else {
        let rest = s.skip(16);
        match first_zero(rest) {
            None => Err(WzHeaderError::Eof),
            Some(n) => if rest.len() < n + 3 {
                Err(WzHeaderError::Eof)
            } else {
                Ok(
                    (
                        (
                            le_u64(s.skip(4)),
                            le_u32(s.skip(12)),
                            rest.take(n),
                            le_u16(rest.skip(n + 1)),
                        ),
                        (16 + n + 3) as nat,
                    ),
                )
            },
        }
    }
}

impl WzHeader {
    /// The header as (file size, data offset, description, version hash).
    pub open spec fn spec_fields(&self) -> (u64, u32, Seq<u8>, u16) {
        (self.file_size, self.data_offset, self.desc@, self.version_hash)
    }

    /// Writes the header.
    pub fn encode(&self, pw: &mut PacketWriter) -> (r: PacketResult<()>)
        ensures
            encoded(
                old(pw)@,
                final(pw)@,
                spec_header_bytes(self.file_size, self.data_offset, self.desc@, self.version_hash),
                r,
            ),
    {
        let ghost b0 = pw@;
        let magic: [u8; 4] = [0x50, 0x4B, 0x47, 0x31];
        let ghost a = wz_magic();
        let ghost b = le64(self.file_size) + le32(self.data_offset) + self.desc@ + seq![0u8]
            + le16(self.version_hash);
        proof {
            assert(magic@ =~= a);
            assert(spec_header_bytes(self.file_size, self.data_offset, self.desc@, self.version_hash)
                =~= a + b);
        }
        let r0 = pw.write_array(&magic);
        proof {
            lemma_appended_encoded(b0, pw@, a, r0);
        }
        if r0.is_err() {
            proof {
                lemma_encoded_fail_first(b0, pw@, a, b, r0);
            }
            return r0;
        }
        let ghost b1 = pw@;
        let ghost c = le64(self.file_size);
        let ghost d = le32(self.data_offset) + self.desc@ + seq![0u8] + le16(self.version_hash);
        proof {
            assert(b =~= c + d);
        }
        let r1 = pw.write_u64(self.file_size);
        proof {
            lemma_appended_encoded(b1, pw@, c, r1);
        }
        if r1.is_err() {
            proof {
                lemma_encoded_fail_first(b1, pw@, c, d, r1);
                lemma_encoded_concat(b0, b1, pw@, a, b, r1);
            }
            return r1;
        }
        let ghost b2 = pw@;
        let ghost e = le32(self.data_offset);
        let ghost f = self.desc@ + seq![0u8] + le16(self.version_hash);
        proof {
            assert(d =~= e + f);
        }
        let r2 = pw.write_u32(self.data_offset);
        proof {
            lemma_appended_encoded(b2, pw@, e, r2);
        }
        if r2.is_err() {
            proof {
                lemma_encoded_fail_first(b2, pw@, e, f, r2);
                lemma_encoded_concat(b1, b2, pw@, c, d, r2);
                lemma_encoded_concat(b0, b1, pw@, a, b, r2);
            }
            return r2;
        }
        let ghost b3 = pw@;
        let ghost g = self.desc@;
        let ghost h = seq![0u8] + le16(self.version_hash);
        proof {
            assert(f =~= g + h);
        }
        let r3 = pw.write_bytes(self.desc.as_slice());
        proof {
            lemma_appended_encoded(b3, pw@, g, r3);
        }
        if r3.is_err() {
            proof {
                lemma_encoded_fail_first(b3, pw@, g, h, r3);
                lemma_encoded_concat(b2, b3, pw@, e, f, r3);
                lemma_encoded_concat(b1, b2, pw@, c, d, r3);
                lemma_encoded_concat(b0, b1, pw@, a, b, r3);
            }
            return r3;
        }
        let ghost b4 = pw@;
        let ghost i = seq![0u8];
        let ghost j = le16(self.version_hash);
        proof {
            assert(h =~= i + j);
        }
        let r4 = pw.write_u8(0);
        proof {
            lemma_appended_encoded(b4, pw@, i, r4);
        }
        if r4.is_err() {
            proof {
                lemma_encoded_fail_first(b4, pw@, i, j, r4);
                lemma_encoded_concat(b3, b4, pw@, g, h, r4);
                lemma_encoded_concat(b2, b3, pw@, e, f, r4);
                lemma_encoded_concat(b1, b2, pw@, c, d, r4);
                lemma_encoded_concat(b0, b1, pw@, a, b, r4);
            }
            return r4;
        }
        let ghost b5 = pw@;
        let r = pw.write_u16(self.version_hash);
        proof {
            lemma_appended_encoded(b5, pw@, j, r);
            lemma_encoded_concat(b4, b5, pw@, i, j, r);
            lemma_encoded_concat(b3, b4, pw@, g, h, r);
            lemma_encoded_concat(b2, b3, pw@, e, f, r);
            lemma_encoded_concat(b1, b2, pw@, c, d, r);
            lemma_encoded_concat(b0, b1, pw@, a, b, r);
        }
        r
    }

    /// Reads a header; on failure the reader stays where it was.
    pub fn decode(pr: &mut PacketReader<'_>) -> (r: Result<WzHeader, WzHeaderError>)
        ensures
            final(pr).data() == old(pr).data(),
            match spec_decode_header(old(pr).rest()) {
                Ok((v, n)) => {
                    &&& r matches Ok(h) && h.spec_fields() == v
                    &&& final(pr).pos() == old(pr).pos() + n
                    &&& final(pr).rest() == old(pr).rest().skip(n as int)
                },
                Err(e) => r == Err::<WzHeader, WzHeaderError>(e) && final(pr).pos() == old(
                    pr,
                ).pos(),
            },
    {
        let ghost s = pr.rest();
        let rest = pr.remaining_slice();
        if rest.len() < 16 {
            return Err(WzHeaderError::Eof);
        }
        if !(rest[0] == 0x50 && rest[1] == 0x4B && rest[2] == 0x47 && rest[3] == 0x31) {
            proof {
                if s.take(4) == wz_magic() {
                    assert(s.take(4)[0] == s[0]);
                    assert(s.take(4)[1] == s[1]);
                    assert(s.take(4)[2] == s[2]);
                    assert(s.take(4)[3] == s[3]);
                }
            }
            return Err(WzHeaderError::BadMagic);
        }
        proof {
            assert(s.take(4) =~= wz_magic());
        }
        let ghost tail = s.skip(16);
        proof {
            lemma_first_zero(tail);
        }
        let mut k: usize = 16;
        while k < rest.len() && rest[k] != 0
            invariant
                rest@ == s,
                16 <= k <= rest@.len(),
                forall|j: int| 16 <= j < k ==> rest@[j] != 0,
            decreases rest@.len() - k,
        {
            k = k + 1;
        }
        if k >= rest.len() {
            proof {
                assert forall|j: int| 0 <= j < tail.len() implies tail[j] != 0 by {
                    assert(tail[j] == s[16 + j]);
                }
                if let Some(i) = first_zero(tail) {
                    assert(tail[i] == 0);
                }
            }
            return Err(WzHeaderError::Eof);
        }
        proof {
            let n = (k - 16) as int;
            assert(tail[n] == 0);
            if let Some(i) = first_zero(tail) {
                if i < n {
                    assert(tail[i] == s[16 + i]);
                }
                if i > n {
                    assert(tail[n] == s[16 + n]);
                }
            }
            assert(first_zero(tail) == Some(n));
        }
        if rest.len() - k < 3 {
            return Err(WzHeaderError::Eof);
        }
        let n = k - 16;
        proof {
            assert(s.skip(4).skip(8) =~= s.skip(12));
            assert(s.skip(12).skip(4) =~= s.skip(16));
            assert(s.skip(16).skip(n as int) =~= s.skip(16 + n));
            assert(s.skip(16 + n).skip(1) =~= s.skip(16 + n + 1));
            assert(s.skip(16 + n + 1).skip(2) =~= s.skip(16 + n + 3));
            assert(tail.skip(n + 1) =~= s.skip(16 + n + 1));
        }
        let _ = pr.advance(4);
        let file_size = match pr.read_u64() {
            Ok(v) => v,
            Err(_) => {
                return Err(WzHeaderError::Eof);
            },
        };
        let data_offset = match pr.read_u32() {
            Ok(v) => v,
            Err(_) => {
                return Err(WzHeaderError::Eof);
            },
        };
        let desc = match pr.read_bytes(n) {
            Ok(b) => vstd::slice::slice_to_vec(b),
            Err(_) => {
                return Err(WzHeaderError::Eof);
            },
        };
        let _ = pr.advance(1);
        let version_hash = match pr.read_u16() {
            Ok(v) => v,
            Err(_) => {
                return Err(WzHeaderError::Eof);
            },
        };
        Ok(WzHeader { file_size, data_offset, desc, version_hash })
    }
}

/// A header whose description has no zero byte reads back as written,
/// taking all its bytes.
pub proof fn lemma_header_roundtrip(
    file_size: u64,
    data_offset: u32,
    desc: Seq<u8>,
    version_hash: u16,
    rest: Seq<u8>,
)
    requires
        forall|i: int| 0 <= i < desc.len() ==> desc[i] != 0,
    ensures
        spec_decode_header(spec_header_bytes(file_size, data_offset, desc, version_hash) + rest)
            == Ok::<((u64, u32, Seq<u8>, u16), nat), WzHeaderError>(
            (
                (file_size, data_offset, desc, version_hash),
                spec_header_bytes(file_size, data_offset, desc, version_hash).len(),
            ),
        ),
{
    vstd::bytes::lemma_auto_spec_u16_to_from_le_bytes();
    vstd::bytes::lemma_auto_spec_u32_to_from_le_bytes();
    vstd::bytes::lemma_auto_spec_u64_to_from_le_bytes();
    let h = spec_header_bytes(file_size, data_offset, desc, version_hash);
    let s = h + rest;
    assert(s.take(4) =~= wz_magic());
    assert(s.skip(4).take(8) =~= le64(file_size));
    assert(s.skip(12).take(4) =~= le32(data_offset));
    let tail = s.skip(16);
    assert(tail =~= desc + seq![0u8] + le16(version_hash) + rest);
    lemma_first_zero(tail);
    let n = desc.len() as int;
    assert(tail[n] == 0);
    if let Some(i) = first_zero(tail) {
        if i < n {
            assert(tail[i] == desc[i]);
        }
        if i > n {
            assert(tail[n] == 0);
        }
    }
    assert(first_zero(tail) == Some(n));
    assert(tail.take(n) =~= desc);
    assert(tail.skip(n + 1).take(2) =~= le16(version_hash));
}

} // verus!
