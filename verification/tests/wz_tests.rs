use std::rc::Rc;

use shroom::proto::{DecodePacket, EncodePacket};
use shroom::reader::PacketReader;
use shroom::wz::canvas::{
    bgr565_to_rgba8, bgra4_to_rgba8, bgra8_to_rgba8, bit_pix, Canvas, CanvasBuffer, WzCanvas,
    WzCanvasHeader, WzCanvasScaling, WzPixelFormat,
};
use shroom::wz::checksum::{wz_checksum, wz_checksum_n, wz_checksum_seed, wz_checksum_step};
use shroom::wz::crypto::{
    append_slice_str16, append_slice_str8, char_decode_latin1, xor_mask_str8, xor_mask_unicode,
    Str16XorMaskIter, Str8XorMaskIter, Utf16Error,
};
use shroom::writer::PacketWriter;
use shroom::wz::dir::{WzDir, WzDirEntry, WzDirHeader, WzImgHeader};
use shroom::wz::header::{WzHeader, WzHeaderError};
use shroom::wz::list::{ArchiveImgEntry, ArchiveImgList, ListImgSet};
use shroom::wz::path::PathTraverser;
use shroom::wz::str_table::{OffsetStrTable, StrKind, StrOffsetTable, StrWrite};
use shroom::wz::prop::{WzImgStr, WzPosValue, WzVector2D};
use shroom::wz::ty::{
    WzInt, WzLong, WzOffset, WzStr, WzStrHeader, WzStrRef, WzStrRef16, WzStrRef8, WzVec,
};

fn enc_dec<T: EncodePacket + DecodePacket>(v: &T) -> (Vec<u8>, T) {
    let data = v.to_data().unwrap();
    let mut pr = PacketReader::new(&data);
    let out = T::decode(&mut pr).unwrap();
    assert_eq!(pr.remaining(), 0);
    (data, out)
}

#[test]
fn bit_pix_() {
    assert_eq!(bit_pix::<8>(0x1234, 8), 0x12);
    assert_eq!(bit_pix::<4>(0x1234, 8), 0x2 * 16);
    assert_eq!(bit_pix::<3>(0x1234, 8), 2 * 32);
    assert_eq!(bit_pix::<3>(0x123F, 0), 7 * 32);
}

#[test]
fn pixel_conversions() {
    assert_eq!(bgra4_to_rgba8(0x1234), [0x20, 0x30, 0x40, 0x10]);
    assert_eq!(bgr565_to_rgba8(0xFFFF), [0xF8, 0xFC, 0xF8, 0xFF]);
    assert_eq!(bgra8_to_rgba8(0x11223344), [0x22, 0x33, 0x44, 0x11]);
}

#[test]
fn checksum() {
    const N: usize = 4096 * 2 + 3;
    let data = [0x1; N];
    // We add up N * 1s up to i32::MAX then it wraps around
    assert_eq!(wz_checksum_n(&data, N as u64), N as i32);
}

#[test]
fn checksum_wraps() {
    assert_eq!(wz_checksum_step(i32::MAX, 1), i32::MIN);
    assert_eq!(wz_checksum_seed(10, &[1, 2, 3]), 16);
    assert_eq!(wz_checksum(&[0xff, 0xff]), 510);
    assert_eq!(wz_checksum_n(&[1, 2, 3], 2), 3);
}

#[test]
fn path() {
    let mut p = PathTraverser::new("a/b/c");
    assert_eq!(p.segments(), vec!["a", "b"]);
    assert_eq!(p.remaining(), "c");
}

#[test]
fn path_step_by_step() {
    let mut p = PathTraverser::new("Etc/0414.img/info");
    assert_eq!(p.next_segment(), Some("Etc"));
    assert_eq!(p.remaining(), "0414.img/info");
    assert_eq!(p.next_segment(), Some("0414.img"));
    assert_eq!(p.next_segment(), None);
    assert_eq!(p.remaining(), "info");
    assert_eq!(p.next_segment(), None);
}

#[test]
fn xor_mask_roundtrip() {
    let orig = b"abc".to_vec();
    let mut b = orig.clone();
    xor_mask_str8(&mut b);
    assert_eq!(b, vec![b'a' ^ 0xAA, b'b' ^ 0xAB, b'c' ^ 0xAC]);
    xor_mask_str8(&mut b);
    assert_eq!(b, orig);

    let orig16: Vec<u16> = "x😀".encode_utf16().collect();
    let mut b16 = orig16.clone();
    xor_mask_unicode(&mut b16);
    assert_ne!(b16, orig16);
    xor_mask_unicode(&mut b16);
    assert_eq!(b16, orig16);
}

#[test]
fn xor_mask_chunks_continue() {
    let mut whole = [1u8; 20];
    xor_mask_str8(&mut whole);
    let mut parts = [1u8; 20];
    let mut m = Str8XorMaskIter::default();
    let (a, b) = parts.split_at_mut(16);
    m.apply_slice(a);
    m.apply_slice(b);
    assert_eq!(whole, parts);

    let mut it = Str8XorMaskIter::default();
    assert_eq!(it.next(), Some(0xAA));
    assert_eq!(it.next(), Some(0xAB));
    let mut it16 = Str16XorMaskIter::default();
    assert_eq!(it16.next(), Some(0xAAAA));
    let mut arr = [0u16; 2];
    it16.apply_array(&mut arr);
    assert_eq!(arr, [0xAAAB, 0xAAAC]);
}

#[test]
fn latin1_and_utf16_text() {
    assert_eq!(char_decode_latin1(0xE9), 'é');
    let mut s = String::new();
    append_slice_str8(&mut s, &[b'a', 0xE9]);
    assert_eq!(s, "aé");

    let mut s = String::new();
    let units: Vec<u16> = "x😀".encode_utf16().collect();
    assert_eq!(append_slice_str16(&mut s, &units), Ok(()));
    assert_eq!(s, "x😀");

    let mut s = String::new();
    assert_eq!(
        append_slice_str16(&mut s, &[0x61, 0xD800, 0x62]),
        Err(Utf16Error { unpaired_surrogate: 0xD800 })
    );
    assert_eq!(s, "a");
}

#[test]
fn wz_int_compressed() {
    for (v, len) in [(0, 1), (127, 1), (-127, 1), (-128, 5), (128, 5), (i32::MIN, 5), (i32::MAX, 5)] {
        let (data, out) = enc_dec(&WzInt(v));
        assert_eq!(out, WzInt(v));
        assert_eq!(data.len(), len);
    }
    assert_eq!(WzInt(-128).to_data().unwrap(), vec![0x80, 0x80, 0xff, 0xff, 0xff]);
    for v in [0i64, -127, -128, i64::MIN, i64::MAX] {
        assert_eq!(enc_dec(&WzLong(v)).1, WzLong(v));
    }
    assert_eq!(WzInt::from(300u16), WzInt(300));
    assert_eq!(WzInt::from(-3i8), WzInt(-3));
}

#[test]
fn wz_vec() {
    let v = WzVec(vec![1u32, 2, 3]);
    let (data, out) = enc_dec(&v);
    assert_eq!(out, v);
    assert_eq!(data[0], 3);
}

#[test]
fn wz_str_header() {
    for h in [
        WzStrHeader::Latin1(0),
        WzStrHeader::Latin1(3),
        WzStrHeader::Latin1(127),
        WzStrHeader::Utf16(1),
        WzStrHeader::Utf16(126),
        WzStrHeader::Utf16(127),
        WzStrHeader::Utf16(4096),
    ] {
        assert_eq!(enc_dec(&h).1, h);
    }
    assert_eq!(WzStrHeader::Latin1(3).to_data().unwrap(), vec![0xFD]);
    assert_eq!(WzStrHeader::Utf16(200).to_data().unwrap(), vec![0x7F, 200, 0, 0, 0]);
}

#[test]
fn canvas_geometry() {
    assert!(!WzCanvasScaling::S0.is_scaled());
    assert!(WzCanvasScaling::S4.is_scaled());
    assert_eq!(WzCanvasScaling::S4.factor(), 16);
    assert_eq!(WzCanvasScaling::S4.scale(3), 48);
    assert_eq!(WzCanvasScaling::S4.unscale(50), 3);
    assert_eq!(WzPixelFormat::BGRA8.pixel_size(), 4);
    assert_eq!(WzPixelFormat::from_value(0x201), Some(WzPixelFormat::BGR565));
    assert_eq!(WzPixelFormat::from_value(3), None);

    let data = [0u8; 8];
    let b = CanvasBuffer::new(&data, WzPixelFormat::BGRA4, WzCanvasScaling::S4, (2, 3));
    assert_eq!(b.dim(), (2, 3));
    assert!(b.is_scaled());
    assert_eq!(b.scaled_dim(), (32, 48));

    let c = Canvas::from_data(vec![], WzPixelFormat::BGRA8, WzCanvasScaling::S0, 10, 20);
    assert_eq!(c.canvas_size(), 800);
    assert_eq!(c.raw_w, 10);
}

#[test]
fn img_set_ignores_case() {
    let list = ArchiveImgList(vec![
        ArchiveImgEntry("Foo.img".to_string()),
        ArchiveImgEntry("foo.IMG".to_string()),
        ArchiveImgEntry("Bar.img".to_string()),
    ]);
    let set = ListImgSet::from_list(list);
    assert!(set.contains("FOO.img"));
    assert!(set.contains("bar.img"));
    assert!(!set.contains("baz.img"));
    let mut names: Vec<String> = set.to_list().0.into_iter().map(|e| e.0).collect();
    names.sort();
    assert_eq!(names, vec!["bar.img".to_string(), "foo.img".to_string()]);
    assert!(!ListImgSet::new().contains("foo.img"));
}

#[test]
fn str_tables() {
    let mut t = StrOffsetTable::default();
    assert!(t.insert(Rc::from("abc"), 10));
    assert!(!t.insert(Rc::from("abc"), 12));
    assert_eq!(t.get("abc"), Some(12));
    assert_eq!(t.get("x"), None);

    let mut o = OffsetStrTable::default();
    assert!(o.insert(4, Rc::from("s")));
    assert!(!o.insert(4, Rc::from("t")));
    assert_eq!(o.get(4).as_deref(), Some("t"));
    assert!(o.get(5).is_none());
}

#[test]
fn str_ref_headers() {
    assert_eq!(WzStrRef("abc").header(), WzStrHeader::Latin1(3));
    assert_eq!(WzStrRef("é").header(), WzStrHeader::Latin1(1));
    assert_eq!(WzStrRef("x😀").header(), WzStrHeader::Utf16(3));
    assert!(!WzStrRef("😀").is_latin1());
    assert_eq!(WzStrRef8(&[1, 2]).header(), WzStrHeader::Latin1(2));
    assert_eq!(WzStrRef16(&[1]).header(), WzStrHeader::Utf16(1));
}

#[test]
fn vector_and_pos() {
    let v = WzVector2D { x: WzInt(3), y: WzInt(-300) };
    let (data, out) = enc_dec(&v);
    assert_eq!(data.len(), 6);
    assert_eq!((out.x, out.y), (WzInt(3), WzInt(-300)));
    assert_eq!(WzPosValue::new(12).pos, 12);
    assert_eq!(&*WzImgStr::new(Rc::from("ab")).0, "ab");
}

#[test]
fn wz_header_roundtrip() {
    let h = WzHeader {
        file_size: 1234,
        data_offset: 60,
        desc: b"Package file v1.0 Copyright 2002 Wizet, ZMS".to_vec(),
        version_hash: 0x7f,
    };
    let mut pw = PacketWriter::default();
    h.encode(&mut pw).unwrap();
    let data = pw.into_inner();
    assert_eq!(&data[..4], b"PKG1");
    let mut pr = PacketReader::new(&data);
    let back = WzHeader::decode(&mut pr).unwrap();
    assert_eq!(back.file_size, 1234);
    assert_eq!(back.data_offset, 60);
    assert_eq!(back.desc, h.desc);
    assert_eq!(back.version_hash, 0x7f);
    assert_eq!(pr.remaining(), 0);

    let mut bad = data.clone();
    bad[0] = b'X';
    let mut pr = PacketReader::new(&bad);
    assert!(matches!(WzHeader::decode(&mut pr), Err(WzHeaderError::BadMagic)));
    let mut pr = PacketReader::new(&data[..20]);
    assert!(matches!(WzHeader::decode(&mut pr), Err(WzHeaderError::Eof)));
}

#[test]
fn img_strings_written_once() {
    let mut t = StrOffsetTable::default();
    assert_eq!(t.plan_write(StrKind::Img, "abc", 10), StrWrite::Inline { tag: 0 });
    assert_eq!(t.plan_write(StrKind::Img, "abc", 20), StrWrite::Ref { tag: 1, offset: 10 });
    assert_eq!(t.plan_write(StrKind::Ty, "Shape2D#Vector2D", 30), StrWrite::Inline { tag: 0x73 });
    assert_eq!(
        t.plan_write(StrKind::Ty, "Shape2D#Vector2D", 40),
        StrWrite::Ref { tag: 0x1B, offset: 30 }
    );
    assert_eq!(StrKind::Img.classify(1), Some(true));
    assert_eq!(StrKind::Ty.classify(0x73), Some(false));
    assert_eq!(StrKind::Img.classify(7), None);
}

#[test]
fn dir_lookup_by_name() {
    let img = |n: &str, off: u32| {
        WzDirEntry::Img(WzImgHeader {
            name: WzStr::new(n.to_string()),
            blob_size: WzInt(1),
            checksum: WzInt(2),
            offset: WzOffset(off),
        })
    };
    let root = WzDirHeader::root("Etc", 2, WzOffset(60));
    assert_eq!(root.blob_size, WzInt(2));
    assert_eq!(root.checksum, WzInt(1));
    let dir = WzDir(WzVec(vec![
        WzDirEntry::Null([0; 10]),
        img("a.img", 1),
        WzDirEntry::Dir(root),
        img("a.img", 2),
    ]));
    assert_eq!(dir.get("a.img"), Some(&img("a.img", 1)));
    assert_eq!(dir.get("Etc").unwrap().kind(), 3);
    assert!(dir.get("b.img").is_none());
    assert_eq!(dir.0 .0[0].as_null(), Some(()));
    assert!(dir.0 .0[1].as_dir().is_none());
    assert_eq!(dir.0 .0[1].name().unwrap().as_str(), "a.img");
}

fn canvas_header(width: i32, height: i32, fmt: WzPixelFormat, scale: WzCanvasScaling) -> WzCanvasHeader {
    WzCanvasHeader {
        unknown: 0,
        has_property: 0,
        width: WzInt(width),
        height: WzInt(height),
        pix_fmt: fmt,
        scale,
        unknown1: 0,
        len: 101,
        unknown2: 0,
    }
}

#[test]
fn canvas_header_unscaled() {
    let h = canvas_header(10, 20, WzPixelFormat::BGRA8, WzCanvasScaling::S0);
    assert_eq!(h.width(), 10);
    assert_eq!(h.height(), 20);
    assert_eq!(h.dim(), (10, 20));
    assert_eq!(h.pixels(), 200);
    assert_eq!(h.img_pixels(), 200);
    assert_eq!(h.img_data_size(), 800);
    assert_eq!(h.data_len(), 100);
}

#[test]
fn canvas_header_scaled() {
    let h = canvas_header(64, 32, WzPixelFormat::BGRA4, WzCanvasScaling::S4);
    assert_eq!(h.img_width(), 4);
    assert_eq!(h.img_height(), 2);
    // the image size comes as (height, width)
    assert_eq!(h.img_dim(), (2, 4));
    assert_eq!(h.pixels(), 64 * 32);
    assert_eq!(h.img_pixels(), 8);
    assert_eq!(h.img_data_size(), 16);
    let c = WzCanvas { hdr: h, data_pos: 0x1234 };
    assert_eq!(c.data_offset(), 0x1234);
}

use shroom::wz::canvas::raw_rgba;

#[test]
fn raw_rgba_converts_pixels_row_by_row() {
    // BGRA8: two pixels in a row, rows two pixels apart.
    let data = [1u8, 2, 3, 4, 5, 6, 7, 8];
    assert_eq!(
        raw_rgba(&data, WzPixelFormat::BGRA8, 2, 1, 2),
        Some(vec![3, 2, 1, 4, 7, 6, 5, 8])
    );
    // A 1x2 image whose rows are two pixels apart skips the second pixel.
    assert_eq!(
        raw_rgba(&data, WzPixelFormat::BGRA8, 1, 2, 2),
        None
    );
    let data4 = [0u8; 16];
    assert_eq!(raw_rgba(&data4, WzPixelFormat::BGRA8, 1, 2, 2), Some(vec![0; 8]));
    // BGR565 white is opaque white.
    assert_eq!(
        raw_rgba(&[0xff, 0xff], WzPixelFormat::BGR565, 1, 1, 7),
        Some(vec![0xf8, 0xfc, 0xf8, 0xff])
    );
    assert_eq!(raw_rgba(&data, WzPixelFormat::DXT3, 1, 1, 1), None);
    let c = Canvas::from_data(data.to_vec(), WzPixelFormat::BGRA8, WzCanvasScaling::S0, 2, 1);
    assert_eq!(c.to_raw_rgba_image(), Some(vec![3, 2, 1, 4, 7, 6, 5, 8]));
}
