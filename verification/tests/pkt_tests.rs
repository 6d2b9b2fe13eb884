use std::fmt::Debug;

use shroom::analyzer::PacketAnalyzer;
use shroom::error::{EOFErrorData, Error};
use shroom::opcode::HasOpCode;
use shroom::pkt::{to_message, Message, Packet};
use shroom::proto::list::{ShroomBaseIndexList, ShroomIndexList8, ShroomIndexListZ8, ShroomList8};
use shroom::proto::option::{ShroomOption8, ShroomOptionBool, ShroomOptionR8, ShroomOptionRBool};
use shroom::proto::time::{
    ClientTime, ClientTimeOffset, DurationMs, ShroomExpirationTime, ShroomTime,
};
use shroom::proto::string::FixedPacketString;
use shroom::proto::{DecodePacket, EncodePacket};
use shroom::reader::PacketReader;
use shroom::util::packet_buf::PacketBuf;
use shroom::writer::PacketWriter;

fn enc_dec<T: EncodePacket + DecodePacket>(v: &T) -> T {
    let data = v.to_data().unwrap();
    let mut pr = PacketReader::new(&data);
    let out = T::decode(&mut pr).unwrap();
    assert_eq!(pr.remaining(), 0);
    out
}

fn test_enc_dec_all<T: EncodePacket + DecodePacket + PartialEq + Debug>(vs: Vec<T>) {
    for v in vs {
        let out = enc_dec(&v);
        assert_eq!(out, v);
    }
}

#[test]
fn eof() {
    let data = [1, 2, 3, 4];
    let eof = EOFErrorData::from_type::<u8>(2, 1);
    let a = PacketAnalyzer::new(&eof, &data);
    let txt = a.to_string();
    assert_eq!(a.eof_range(), 2..3);
    assert_eq!(txt, "01 02 03 04\n      ^^ (read_len=1, type=u8)\n");
}

#[test]
fn remaining() {
    let b = [1u8, 2, 3, 4, 5, 6, 7, 8, 9, 10];
    let mut r = PacketReader::new(&b);

    assert_eq!(r.read_u8().unwrap(), 1);
    assert_eq!(r.remaining(), 9);
    assert_eq!(r.remaining_slice(), &b[1..]);
}

#[test]
fn write() {
    let mut pw = PacketWriter::with_capacity(64);
    pw.write_u8(0).unwrap();
    pw.write_bytes(&[1, 2, 3, 4]).unwrap();

    assert_eq!(pw.len(), 5);
}

#[test]
fn prim_num() {
    test_enc_dec_all(vec![u8::MIN, u8::MAX, (u8::MIN / 2) + (u8::MAX / 2)]);
    test_enc_dec_all(vec![i8::MIN, i8::MAX, (i8::MIN + i8::MAX) / 2]);
    test_enc_dec_all(vec![u16::MIN, u16::MAX, u16::MAX / 2]);
    test_enc_dec_all(vec![i16::MIN, i16::MAX, (i16::MIN + i16::MAX) / 2]);
    test_enc_dec_all(vec![u32::MIN, u32::MAX, u32::MAX / 2]);
    test_enc_dec_all(vec![i32::MIN, i32::MAX, (i32::MIN + i32::MAX) / 2]);
    test_enc_dec_all(vec![u64::MIN, u64::MAX, u64::MAX / 2]);
    test_enc_dec_all(vec![i64::MIN, i64::MAX, (i64::MIN + i64::MAX) / 2]);
    test_enc_dec_all(vec![u128::MIN, u128::MAX, u128::MAX / 2]);
    test_enc_dec_all(vec![i128::MIN, i128::MAX, (i128::MIN + i128::MAX) / 2]);
}

#[test]
fn bool() {
    test_enc_dec_all(vec![false, true]);
}

#[test]
fn string() {
    test_enc_dec_all(vec!["".to_string(), "AAAAAAAAAAA".to_string(), "\0".to_string()]);
}

#[test]
fn list_list() {
    for items in [vec![1u8, 2, 3], vec![1], vec![]] {
        let l = ShroomList8::from_vec(items.clone());
        let out = enc_dec(&l);
        assert_eq!(out.items, items);
    }
}

#[test]
fn index_list() {
    for items in [vec![(1u8, 1u8), (3, 2), (2, 3)], vec![(0, 1)], vec![]] {
        let l: ShroomIndexList8<u8> = ShroomBaseIndexList(items.clone());
        let out = enc_dec(&l);
        assert_eq!(out.0, items);
    }
}

#[test]
fn index_list_z() {
    for items in [vec![(1u8, 1u8), (3, 2), (2, 3)], vec![(1, 1)], vec![]] {
        let l: ShroomIndexList8<u8> = ShroomBaseIndexList(items.clone());
        let out = enc_dec(&l);
        assert_eq!(out.0, items);
        let z: ShroomIndexListZ8<u8> = ShroomBaseIndexList(items.clone());
        let out = enc_dec(&z);
        assert_eq!(out.0, items);
    }
}

#[test]
fn option() {
    for v in [Some("abc".to_string()), None] {
        assert_eq!(enc_dec(&ShroomOption8::from_opt(v.clone())).opt, v);
        assert_eq!(enc_dec(&ShroomOptionR8::from_opt(v.clone())).opt, v);
        assert_eq!(enc_dec(&ShroomOptionBool::from_opt(v.clone())).opt, v);
        assert_eq!(enc_dec(&ShroomOptionRBool::from_opt(v.clone())).opt, v);
    }
}

#[test]
fn option_wire_bytes() {
    let some = ShroomOption8::from_opt(Some(7u8)).to_data().unwrap();
    assert_eq!(some, vec![1, 7]);
    let none = ShroomOption8::<u8>::from_opt(None).to_data().unwrap();
    assert_eq!(none, vec![0]);
    let rev_some = ShroomOptionR8::from_opt(Some(7u8)).to_data().unwrap();
    assert_eq!(rev_some, vec![0, 7]);
    let rev_none = ShroomOptionR8::<u8>::from_opt(None).to_data().unwrap();
    assert_eq!(rev_none, vec![1]);
}

#[test]
fn dur() {
    let from_dur = std::time::Duration::from_millis(100).as_millis() as u32;
    for d in [DurationMs::<u32>(1), DurationMs::<u32>(from_dur)] {
        assert_eq!(enc_dec(&d).0, d.0);
    }
}

#[test]
fn expiration_time() {
    // One thousand seconds from now, as a file time.
    let unix = chrono::Utc::now().timestamp() + 1_000;
    let delayed = ((unix + 11_644_473_600) as u64) * 10_000_000;
    for e in [
        ShroomExpirationTime::never(),
        ShroomExpirationTime(None),
        ShroomExpirationTime::new(ShroomTime::new(delayed)),
        ShroomExpirationTime::new(ShroomTime::now().unwrap()),
    ] {
        assert_eq!(enc_dec(&e).to_raw(), e.to_raw());
    }
}

#[test]
fn expiration_never_is_max_time() {
    assert_eq!(ShroomExpirationTime::never().to_raw(), ShroomTime::max().raw());
    assert!(ShroomExpirationTime::from_raw(ShroomTime::max().raw()).0.is_none());
}

#[test]
fn client_time_offset_flips_sign() {
    let v = ClientTimeOffset(DurationMs(1000));
    let out = enc_dec(&v);
    assert_eq!(out.0 .0, -1000);
}

#[test]
fn read_eof_error() {
    let b = [1u8, 2];
    let mut r = PacketReader::new(&b);
    let e = r.read_u32().unwrap_err();
    assert!(e.is_eof());
    assert_eq!(r.remaining(), 2);
}

#[test]
fn read_string_invalid_utf8() {
    let b = [2u8, 0, 0xff, 0xfe];
    let mut r = PacketReader::new(&b);
    let e = r.read_string().unwrap_err();
    assert!(!e.is_eof());
}

#[test]
fn read_string_limited_too_long() {
    let b = [3u8, 0, b'a', b'b', b'c'];
    let mut r = PacketReader::new(&b);
    assert!(matches!(
        r.read_string_limited(2),
        Err(Error::StringLimit(2))
    ));
}

#[test]
fn u128_layout() {
    let v: u128 = 0x0102_0304_0506_0708_090a_0b0c_0d0e_0f10;
    let data = v.to_data().unwrap();
    let mut r = PacketReader::new(&data);
    assert_eq!(r.read_u128().unwrap(), v);
}

pub struct V(u8);

impl HasOpCode for V {
    type OpCode = u16;

    fn spec_opcode() -> u16 {
        unreachable!()
    }

    fn opcode() -> u16 {
        1
    }
}

// The model functions exist for the verifier only; nothing calls them when
// the tests run.
impl vstd::prelude::DeepView for V {
    type V = u8;

    fn deep_view(&self) -> u8 {
        unreachable!()
    }
}

impl EncodePacket for V {
    fn spec_encode(_v: u8) -> vstd::seq::Seq<u8> {
        unreachable!()
    }

    fn encode_len(&self) -> usize {
        1
    }

    fn encode(&self, pw: &mut PacketWriter) -> shroom::PacketResult<()> {
        pw.write_u8(self.0)
    }
}

#[test]
fn packet_buf() {
    let mut buf = PacketBuf::new();
    buf.encode(&V(1)).unwrap();
    buf.encode(&V(2)).unwrap();
    buf.encode(&V(3)).unwrap();
    let mut it = buf.packets();
    let mut got = Vec::new();
    while let Some(p) = it.next() {
        got.push(p.to_vec());
    }
    assert_eq!(got, vec![vec![1, 0, 1], vec![1, 0, 2], vec![1, 0, 3]]);

    buf.clear();
    assert!(buf.packets().next().is_none());

    buf.encode(&V(1)).unwrap();
    let mut it = buf.packets();
    assert_eq!(it.next().unwrap(), &[1, 0, 1]);
    assert!(it.next().is_none());
}

#[test]
fn message_roundtrip() {
    let msg: Message = to_message(&V(9)).unwrap();
    assert_eq!(msg.opcode_value(), 1);
    assert_eq!(msg.payload(), &[9]);
    let p = Packet::from_vec(vec![1]);
    assert!(matches!(Message::try_from_packet(p), Err(Error::NoOpCode)));
}

#[test]
fn fixed_string() {
    for s in ["", "AAAAAAAAAAA", "a"] {
        let f = FixedPacketString::<11>::try_from_str(s).unwrap();
        let (data, out) = {
            let data = f.to_data().unwrap();
            let mut pr = PacketReader::new(&data);
            let out = FixedPacketString::<11>::decode(&mut pr).unwrap();
            (data, out)
        };
        assert_eq!(data.len(), 11);
        assert_eq!(out.as_str(), s);
    }
    assert!(FixedPacketString::<2>::try_from_str("abc").is_err());
}

#[test]
fn fixed_string_stops_at_nul() {
    let data = [b'a', b'b', 0, b'c'];
    let mut pr = PacketReader::new(&data);
    let out = FixedPacketString::<4>::decode(&mut pr).unwrap();
    assert_eq!(out.as_str(), "ab");
    let bad = [0xff, 0, 0];
    let mut pr = PacketReader::new(&bad);
    assert!(matches!(
        FixedPacketString::<3>::decode(&mut pr),
        Err(Error::StringUtf8(_))
    ));
}

pub struct ObjIdTag;

impl shroom::proto::id::Tag for ObjIdTag {
    type Value = u32;
}

#[test]
fn simple_id() {
    let id = shroom::proto::id::Id::<ObjIdTag>(0);
    assert_eq!(id.0, 0);
    let id = shroom::proto::id::Id::<ObjIdTag>(0x01020304);
    assert_eq!(enc_dec(&id).0, 0x01020304);
}

#[test]
fn read_opcode() {
    let b = [7u8, 0, 9];
    let mut r = PacketReader::new(&b);
    assert_eq!(r.read_opcode::<u16>().unwrap(), 7);
    assert_eq!(r.remaining(), 1);
    assert!(shroom::default_check(&true));
    assert!(!shroom::default_check(&false));
}

#[test]
fn client_time_as_duration_is_in_seconds() {
    assert_eq!(ClientTime(3).as_duration(), std::time::Duration::from_secs(3));
    assert_eq!(ClientTime(0).as_duration(), std::time::Duration::ZERO);
}

use shroom::error::TypeLabel;
use shroom::proto::padding::Padding;

#[test]
fn padding_writes_zeros() {
    let p = Padding::<3>::from_data([1, 2, 3]);
    assert_eq!(p.to_data().unwrap(), vec![0, 0, 0]);
    let data = [9u8, 9, 9, 7];
    let mut r = PacketReader::new(&data);
    let _ = Padding::<3>::decode(&mut r).unwrap();
    assert_eq!(r.remaining(), 1);
}

#[test]
fn eof_label_names_the_type() {
    assert_eq!(<[u8; 4]>::label(), "[u8; 4]");
    assert_eq!(<u16>::label(), "u16");
    let e = EOFErrorData::from_type::<[u8; 12]>(0, 12);
    assert_eq!(e.type_label(), "[u8; 12]");
}

#[test]
fn eof_marker_past_the_end() {
    let data = [1u8, 2];
    let eof = EOFErrorData::from_type::<u8>(3, 1);
    let a = PacketAnalyzer::new(&eof, &data);
    assert_eq!(a.eof_marker(), format!("{} (read_len=1, type=u8)\n", " ".repeat(9)));
}

#[test]
fn string_limit_consumes_prefix() {
    let data = [5u8, 0, b'h', b'e', b'l', b'l', b'o'];
    let mut r = PacketReader::new(&data);
    assert!(r.read_string_limited(3).is_err());
    assert_eq!(r.remaining(), 5);
}

#[test]
fn shroom_time_unix_roundtrip() {
    let t = ShroomTime::from_unix_time(0, 0).unwrap();
    assert_eq!(t.raw(), 116_444_736_000_000_000);
    assert_eq!(t.to_unix_time(), (0, 0));
    let t = ShroomTime::from_unix_time(1, 250).unwrap();
    assert_eq!(t.to_unix_time(), (1, 200));
    assert!(ShroomTime::from_unix_time(-11_644_473_601, 0).is_err());
}

pub struct Big(usize);

impl HasOpCode for Big {
    type OpCode = u16;

    fn spec_opcode() -> u16 {
        unreachable!()
    }

    fn opcode() -> u16 {
        2
    }
}

// The model functions exist for the verifier only; nothing calls them when
// the tests run.
impl vstd::prelude::DeepView for Big {
    type V = usize;

    fn deep_view(&self) -> usize {
        unreachable!()
    }
}

impl EncodePacket for Big {
    fn spec_encode(_v: usize) -> vstd::seq::Seq<u8> {
        unreachable!()
    }

    fn encode_len(&self) -> usize {
        self.0
    }

    fn encode(&self, pw: &mut PacketWriter) -> shroom::PacketResult<()> {
        pw.write_bytes(&vec![0u8; self.0])
    }
}

#[test]
fn packet_buf_refuses_oversized_frames() {
    let mut buf = PacketBuf::new();
    buf.encode(&V(1)).unwrap();
    assert!(matches!(buf.encode(&Big(70_000)), Err(Error::OutOfCapacity)));
    buf.encode(&Big(65_533)).unwrap();
    let mut it = buf.packets();
    assert_eq!(it.next().unwrap(), &[1, 0, 1]);
    assert_eq!(it.next().unwrap().len(), 65_535);
    assert!(it.next().is_none());
}
